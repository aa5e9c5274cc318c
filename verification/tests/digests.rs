use zcash_sighash::sighash::{
    interpret_hash_type, joinsplits_hash, outputs_commitment_hash, outputs_hash, prevout_hash,
    sequence_hash, signature_hash, signature_hash_preimage, single_output_hash,
    write_common_fields, write_input_fields, zero_hash, HashTypeFlags, OutputsMode, SigHashError,
    SigHashVersion, SIGHASH_ALL, SIGHASH_ANYONECANPAY, SIGHASH_MASK, SIGHASH_NONE, SIGHASH_SINGLE,
};
use zcash_sighash::transaction::{
    Amount, JSDescription, OutPoint, Script, Transaction, TxIn, TxOut,
    OVERWINTER_TX_VERSION, OVERWINTER_VERSION_GROUP_ID, SAPLING_TX_VERSION,
};

const OVERWINTER_BRANCH: u32 = 0x5ba8_1b19;

fn unhex(text: &str) -> Vec<u8> {
    let digits: Vec<u8> = text.bytes().map(|c| (c as char).to_digit(16).unwrap() as u8).collect();
    digits.chunks(2).map(|pair| pair[0] * 16 + pair[1]).collect()
}

fn input(fill: u8, n: u32, script_sig: Vec<u8>, sequence: u32) -> TxIn {
    TxIn { prevout: OutPoint { hash: [fill; 32], n }, script_sig: Script(script_sig), sequence }
}

fn output(value: i64, script: Vec<u8>) -> TxOut {
    TxOut { value: Amount(value), script_pubkey: Script(script) }
}

/// One input, one output, everything else zero.
fn small() -> Transaction {
    Transaction {
        overwintered: true,
        version: OVERWINTER_TX_VERSION,
        version_group_id: OVERWINTER_VERSION_GROUP_ID,
        vin: vec![input(0x00, 0, vec![], 0xffff_ffff)],
        vout: vec![output(0, vec![])],
        lock_time: 0,
        expiry_height: 0,
        joinsplits: vec![],
        joinsplit_pubkey: [0; 32],
    }
}

/// Three inputs and two outputs, no JoinSplit.
fn plain() -> Transaction {
    Transaction {
        overwintered: true,
        version: OVERWINTER_TX_VERSION,
        version_group_id: OVERWINTER_VERSION_GROUP_ID,
        vin: vec![
            input(0x11, 1, vec![0x51], 0xffff_fffe),
            input(0x22, 0, vec![], 7),
            input(0x33, 9, vec![0x00, 0x01], 0x0102_0304),
        ],
        vout: vec![output(50_000, vec![0x76, 0xa9]), output(12_345_678, vec![0x51, 0x52, 0x53])],
        lock_time: 500_000,
        expiry_height: 600_000,
        joinsplits: vec![],
        joinsplit_pubkey: [0x44; 32],
    }
}

/// As `plain`, with two JoinSplit descriptions.
fn shielded() -> Transaction {
    let mut tx = plain();
    tx.joinsplits = vec![
        JSDescription { encoding: vec![0x01, 0x02, 0x03] },
        JSDescription { encoding: vec![0x04, 0x05] },
    ];
    tx
}

/// The two outputs of a published Overwinter transaction without inputs.
fn published() -> Transaction {
    Transaction {
        overwintered: true,
        version: OVERWINTER_TX_VERSION,
        version_group_id: OVERWINTER_VERSION_GROUP_ID,
        vin: vec![],
        vout: vec![
            output(0x0000_3e89_1198_738f, unhex("5200ac6551ac636565")),
            output(0x0002_7505_085a_a4b1, unhex("5151")),
        ],
        lock_time: 0x86dd_1c48,
        expiry_height: 0x1843_ccb3,
        joinsplits: vec![],
        joinsplit_pubkey: [0; 32],
    }
}

fn second_input() -> Option<(usize, Script, Amount)> {
    Some((1, Script(vec![0xac]), Amount(50_000)))
}

fn third_input() -> Option<(usize, Script, Amount)> {
    Some((2, Script(vec![0xac]), Amount(-5)))
}

fn digest(tx: &Transaction, hash_type: u32, given: Option<(usize, Script, Amount)>) -> Vec<u8> {
    signature_hash(tx, OVERWINTER_BRANCH, hash_type, given).unwrap()
}

const PLAIN_PREVOUTS: &str = "c53ba1526b204af7ac488383f5d22e402673e1be6aa8eba0362078b4126fed3b";
const PLAIN_SEQUENCE: &str = "d6388b6050bd64f39961d44565296db3b0a490fd9904b369c8478a7075580374";
const PLAIN_OUTPUTS: &str = "8b7463ab523d08446677c2df121bbb1b9121020c457c362c0787f6b315bcd484";
const PLAIN_SECOND_OUTPUT: &str =
    "277c04737b5f8911abee8270ac59901772cefedb1135090ec3b1f1ef9501a76a";
const SHIELDED_JOINSPLITS: &str =
    "1370ba9e4e9e8633ba2d842d18b0b65df27527f41a0f7ddfa2723a56143ef71d";

#[test]
fn hash_type_constants() {
    assert_eq!(SIGHASH_ALL, 1);
    assert_eq!(SIGHASH_NONE, 2);
    assert_eq!(SIGHASH_SINGLE, 3);
    assert_eq!(SIGHASH_MASK, 0x1f);
    assert_eq!(SIGHASH_ANYONECANPAY, 0x80);
    assert_eq!(OVERWINTER_VERSION_GROUP_ID, 0x03c4_8270);
    assert_eq!(OVERWINTER_TX_VERSION, 3);
    assert_eq!(SAPLING_TX_VERSION, 4);
}

#[test]
fn hash_type_all_commits_to_everything() {
    assert_eq!(
        interpret_hash_type(SIGHASH_ALL),
        HashTypeFlags { prevouts: true, sequence: true, outputs: OutputsMode::All }
    );
}

#[test]
fn hash_type_none_drops_sequence_and_outputs() {
    assert_eq!(
        interpret_hash_type(SIGHASH_NONE),
        HashTypeFlags { prevouts: true, sequence: false, outputs: OutputsMode::Omitted }
    );
}

#[test]
fn hash_type_single_drops_sequence_and_keeps_one_output() {
    assert_eq!(
        interpret_hash_type(SIGHASH_SINGLE),
        HashTypeFlags { prevouts: true, sequence: false, outputs: OutputsMode::Single }
    );
}

#[test]
fn anyone_can_pay_drops_prevouts_and_sequence_only() {
    assert_eq!(
        interpret_hash_type(SIGHASH_ALL | SIGHASH_ANYONECANPAY),
        HashTypeFlags { prevouts: false, sequence: false, outputs: OutputsMode::All }
    );
    assert_eq!(
        interpret_hash_type(SIGHASH_NONE | SIGHASH_ANYONECANPAY),
        HashTypeFlags { prevouts: false, sequence: false, outputs: OutputsMode::Omitted }
    );
    assert_eq!(
        interpret_hash_type(SIGHASH_SINGLE | SIGHASH_ANYONECANPAY),
        HashTypeFlags { prevouts: false, sequence: false, outputs: OutputsMode::Single }
    );
}

#[test]
fn unrecognized_base_types_commit_to_everything() {
    let all = HashTypeFlags { prevouts: true, sequence: true, outputs: OutputsMode::All };
    assert_eq!(interpret_hash_type(0), all);
    assert_eq!(interpret_hash_type(4), all);
    assert_eq!(interpret_hash_type(0x1f), all);
    assert_eq!(interpret_hash_type(0x41), all);
    assert_eq!(interpret_hash_type(0xffff_ff00), all);
}

#[test]
fn bits_above_the_mask_do_not_change_the_base_type() {
    assert_eq!(interpret_hash_type(0x22).outputs, OutputsMode::Omitted);
    assert_eq!(interpret_hash_type(0x43).outputs, OutputsMode::Single);
    assert_eq!(interpret_hash_type(0x0100_0002).outputs, OutputsMode::Omitted);
    assert_eq!(
        interpret_hash_type(0xffff_ffe3),
        HashTypeFlags { prevouts: false, sequence: false, outputs: OutputsMode::Single }
    );
}

#[test]
fn overwintered_transaction_of_the_known_group_is_overwinter() {
    assert_eq!(SigHashVersion::from_tx(&small()), Ok(SigHashVersion::Overwinter));
    let mut tx = plain();
    tx.version = SAPLING_TX_VERSION;
    assert_eq!(SigHashVersion::from_tx(&tx), Ok(SigHashVersion::Overwinter));
}

#[test]
fn transaction_that_is_not_overwintered_is_sprout() {
    let mut tx = small();
    tx.overwintered = false;
    assert_eq!(SigHashVersion::from_tx(&tx), Ok(SigHashVersion::Sprout));
    tx.version_group_id = 0;
    tx.version = 1;
    assert_eq!(SigHashVersion::from_tx(&tx), Ok(SigHashVersion::Sprout));
}

#[test]
fn overwintered_transaction_of_an_unknown_group_is_refused() {
    let mut tx = small();
    tx.version_group_id = 0x892f_2085;
    assert_eq!(SigHashVersion::from_tx(&tx), Err(SigHashError::UnsupportedAlgorithmVersion));
    tx.version_group_id = 0;
    assert_eq!(SigHashVersion::from_tx(&tx), Err(SigHashError::UnsupportedAlgorithmVersion));
}

#[test]
fn signature_hash_refuses_sprout_transactions() {
    let mut tx = plain();
    tx.overwintered = false;
    assert_eq!(
        signature_hash(&tx, OVERWINTER_BRANCH, SIGHASH_ALL, None),
        Err(SigHashError::UnsupportedAlgorithmVersion)
    );
    assert_eq!(
        signature_hash(&tx, OVERWINTER_BRANCH, SIGHASH_SINGLE, second_input()),
        Err(SigHashError::UnsupportedAlgorithmVersion)
    );
}

#[test]
fn signature_hash_refuses_unknown_version_groups() {
    let mut tx = plain();
    tx.version_group_id = OVERWINTER_VERSION_GROUP_ID + 1;
    assert_eq!(
        signature_hash(&tx, OVERWINTER_BRANCH, SIGHASH_ALL, None),
        Err(SigHashError::UnsupportedAlgorithmVersion)
    );
}

#[test]
fn sub_hashes_of_the_published_transaction() {
    let tx = published();
    assert_eq!(
        prevout_hash(&tx),
        unhex("d53a633bbecf82fe9e9484d8a0e727c73bb9e68c96e72dec30144f6a84afa136")
    );
    assert_eq!(
        sequence_hash(&tx),
        unhex("a5f25f01959361ee6eb56a7401210ee268226f6ce764a4f10b7f29e54db37272")
    );
    assert_eq!(
        outputs_hash(&tx),
        unhex("ec55f4afc6cebfe1c35bdcded7519ff6efb381ab1d5a8dd0060c13b2a512932b")
    );
}

#[test]
fn preimage_of_the_published_transaction() {
    assert_eq!(
        signature_hash_preimage(&published(), SIGHASH_ALL, &None),
        unhex(
            "030000807082c403\
             d53a633bbecf82fe9e9484d8a0e727c73bb9e68c96e72dec30144f6a84afa136\
             a5f25f01959361ee6eb56a7401210ee268226f6ce764a4f10b7f29e54db37272\
             ec55f4afc6cebfe1c35bdcded7519ff6efb381ab1d5a8dd0060c13b2a512932b\
             0000000000000000000000000000000000000000000000000000000000000000\
             481cdd86b3cc431801000000"
        )
    );
}

#[test]
fn sub_hashes_of_three_inputs_and_two_outputs() {
    let tx = plain();
    assert_eq!(prevout_hash(&tx), unhex(PLAIN_PREVOUTS));
    assert_eq!(sequence_hash(&tx), unhex(PLAIN_SEQUENCE));
    assert_eq!(outputs_hash(&tx), unhex(PLAIN_OUTPUTS));
    assert_eq!(single_output_hash(&tx, 1), unhex(PLAIN_SECOND_OUTPUT));
}

#[test]
fn single_output_hash_of_the_only_output_is_the_outputs_hash() {
    let tx = small();
    assert_eq!(single_output_hash(&tx, 0), outputs_hash(&tx));
}

#[test]
fn sub_hashes_depend_on_order() {
    let tx = plain();
    let mut swapped = plain();
    swapped.vin.swap(0, 1);
    swapped.vout.swap(0, 1);
    assert_ne!(prevout_hash(&tx), prevout_hash(&swapped));
    assert_ne!(sequence_hash(&tx), sequence_hash(&swapped));
    assert_ne!(outputs_hash(&tx), outputs_hash(&swapped));
}

#[test]
fn joinsplits_hash_covers_descriptions_then_public_key() {
    assert_eq!(joinsplits_hash(&shielded()), unhex(SHIELDED_JOINSPLITS));
}

#[test]
fn joinsplits_hash_without_descriptions_covers_the_public_key() {
    assert_eq!(
        joinsplits_hash(&plain()),
        unhex("b48c75d169b0809884a02470ddf1d4061fe383122156a01b86e8988420032fc5")
    );
}

#[test]
fn joinsplits_hash_depends_on_the_public_key() {
    let mut other = shielded();
    other.joinsplit_pubkey[31] ^= 1;
    assert_ne!(joinsplits_hash(&shielded()), joinsplits_hash(&other));
}

#[test]
fn zero_hash_is_32_zero_bytes() {
    assert_eq!(zero_hash(), vec![0u8; 32]);
}

#[test]
fn outputs_commitment_follows_the_mode() {
    let tx = plain();
    assert_eq!(outputs_commitment_hash(&tx, OutputsMode::All, &None), unhex(PLAIN_OUTPUTS));
    assert_eq!(
        outputs_commitment_hash(&tx, OutputsMode::All, &third_input()),
        unhex(PLAIN_OUTPUTS)
    );
    assert_eq!(
        outputs_commitment_hash(&tx, OutputsMode::Single, &second_input()),
        unhex(PLAIN_SECOND_OUTPUT)
    );
    assert_eq!(outputs_commitment_hash(&tx, OutputsMode::Single, &None), vec![0u8; 32]);
    assert_eq!(outputs_commitment_hash(&tx, OutputsMode::Single, &third_input()), vec![0u8; 32]);
    assert_eq!(outputs_commitment_hash(&tx, OutputsMode::Omitted, &None), vec![0u8; 32]);
    assert_eq!(outputs_commitment_hash(&tx, OutputsMode::Omitted, &second_input()), vec![0u8; 32]);
}

#[test]
fn common_fields_are_laid_out_in_order() {
    let mut out = vec![0xee];
    write_common_fields(
        &mut out,
        0x8000_0003,
        0x03c4_8270,
        &[0xa1; 32],
        &[0xa2; 32],
        &[0xa3; 32],
        &[0xa4; 32],
        0x0102_0304,
        0x0506_0708,
        0x83,
    );
    let mut expected = vec![0xee, 0x03, 0x00, 0x00, 0x80, 0x70, 0x82, 0xc4, 0x03];
    expected.extend_from_slice(&[0xa1; 32]);
    expected.extend_from_slice(&[0xa2; 32]);
    expected.extend_from_slice(&[0xa3; 32]);
    expected.extend_from_slice(&[0xa4; 32]);
    expected.extend_from_slice(&[0x04, 0x03, 0x02, 0x01, 0x08, 0x07, 0x06, 0x05, 0x83, 0, 0, 0]);
    assert_eq!(out, expected);
    assert_eq!(out.len(), 1 + 148);
}

#[test]
fn input_fields_are_laid_out_in_order() {
    let mut out = Vec::new();
    write_input_fields(
        &mut out,
        &OutPoint { hash: [0x22; 32], n: 5 },
        &Script(vec![0xac, 0xad]),
        Amount(50_000),
        7,
    );
    let mut expected = vec![0x22; 32];
    expected.extend_from_slice(&[0x05, 0x00, 0x00, 0x00]);
    expected.extend_from_slice(&[0x02, 0xac, 0xad]);
    expected.extend_from_slice(&[0x50, 0xc3, 0x00, 0x00, 0x00, 0x00, 0x00, 0x00]);
    expected.extend_from_slice(&[0x07, 0x00, 0x00, 0x00]);
    assert_eq!(out, expected);
}

#[test]
fn one_input_one_output_under_all() {
    assert_eq!(
        signature_hash(&small(), 0x5ba8_1b19, 1, None),
        Ok(unhex("407bfa9f964771c4bb1596c6e715e83de49181f48fdf3247192c8dad45aeb1c1"))
    );
}

#[test]
fn one_input_one_output_preimage() {
    assert_eq!(
        signature_hash_preimage(&small(), 1, &None),
        unhex(
            "030000807082c403\
             09bd7cc1139eadd9a91190d17d2b8fe1bd6536aaac601f5ae2648d5d02138d4d\
             acddf3811d3f38ae44788d7ac28a22bb1d3cf3c24aff09f163c68e9d9dbb4826\
             1dc8f62eadbaa641b6b79d2eb45b1ed864ebada794ea0e726f20dd5664f7a067\
             0000000000000000000000000000000000000000000000000000000000000000\
             000000000000000001000000"
        )
    );
}

#[test]
fn repeated_calls_return_the_same_digest() {
    let tx = shielded();
    let first = signature_hash(&tx, OVERWINTER_BRANCH, SIGHASH_SINGLE, second_input());
    let second = signature_hash(&tx, OVERWINTER_BRANCH, SIGHASH_SINGLE, second_input());
    assert!(first.is_ok());
    assert_eq!(first, second);
    let again = signature_hash(&shielded(), OVERWINTER_BRANCH, SIGHASH_SINGLE, second_input());
    assert_eq!(first, again);
}

#[test]
fn branch_id_changes_the_digest_and_not_the_preimage() {
    let tx = small();
    let overwinter = signature_hash(&tx, 0x5ba8_1b19, 1, None).unwrap();
    let sapling = signature_hash(&tx, 0x76b8_09bb, 1, None).unwrap();
    assert_eq!(
        sapling,
        unhex("c7c157f6a1f15ddc1dbfdb468abefff57c46fbc596c274e9439133c8ceb75f20")
    );
    assert_ne!(overwinter, sapling);
    assert_eq!(prevout_hash(&tx), prevout_hash(&small()));
    assert_eq!(signature_hash_preimage(&tx, 1, &None), signature_hash_preimage(&small(), 1, &None));
}

#[test]
fn digests_of_every_hash_type_without_a_signed_input() {
    let tx = plain();
    let cases = [
        (0x01, "3c390d0eadcb0ef482f0996478b820c5f753fdb2dc2ac1c9228664c1e82ce281"),
        (0x02, "c11ee1b3a48dc0eddda096acf2b5dd69c52c607e14ee1012a33b7b694ba970dc"),
        (0x03, "02941425fc63d90f24c673621be5bcf8f7db88a7f1e5857da0d26054928a449f"),
        (0x81, "5c5cc16268d000b1b4e540447569cf932727d6b5809a4bf187d5117280f9e51d"),
        (0x82, "2bdcf4fdf331eada6dca6c2714e19a40a38d7c94ef96175cd0adab6ade3ecb42"),
        (0x83, "e610777223228343c9fcc7d3dfe26cbcbb8042c299557461f2078cdc3c20d62c"),
        (0x00, "41e0cca0b3c6ee781c6b31e47b70667997fbcecc1bf0937621680ad16de04ead"),
        (0x41, "b3f85960d71e7f2653b9ba0caeb126ce86689d1a026efcc795b4f529e7ca291d"),
    ];
    for (hash_type, expected) in cases {
        assert_eq!(digest(&tx, hash_type, None), unhex(expected), "hash type {hash_type:#x}");
    }
}

#[test]
fn digests_of_every_hash_type_for_the_second_input() {
    let tx = plain();
    let cases = [
        (0x01, "c260950a94e37d814a1bd57189139694527797c5d461ebb40f35efdc3140565a"),
        (0x02, "4e0d95e6e4ed93bd4ce360a22ef216fb509073cb89dcde701bbcfb9c5c58992c"),
        (0x03, "859576f07b05d85413d431fa143f9fd7cc21895fb9f8576e43af6060a94e9a54"),
        (0x81, "ab497cba1f3b19617ef4c752bc4538de3628385fb29597fd4aa829402b69975b"),
        (0x82, "6cf98c387ad9c6601352a412026b646c381daff7aa71d9eaaee0bf038785220c"),
        (0x83, "098924ad4a6be9de550820ca9a19dfcdb14c6d0bfb968e5ed31d9edb648bd5e5"),
        (0x00, "dfc1e2829e05023d8f6a5dd1f3dddcfa502ce813f77e58b4dd2ccd179058657f"),
        (0x41, "31bdc27904147f10aeb162f2fb96bc3b6c36fd7e4e771407811b4bca8860265c"),
    ];
    for (hash_type, expected) in cases {
        assert_eq!(
            digest(&tx, hash_type, second_input()),
            unhex(expected),
            "hash type {hash_type:#x}"
        );
    }
}

#[test]
fn digests_of_every_hash_type_for_an_input_without_an_output_beside_it() {
    let tx = plain();
    let cases = [
        (0x01, "a10180389d407d2d526c62a2595905de701d3731e5b84a5269da949542ae9888"),
        (0x02, "f0ee0964a386ac314e756bf622771e53f9f5f88216b97e2aefde81f1fdefcb9e"),
        (0x03, "d3e743e0e15b0a83a3d72390c6bb8d6d5a589c79d13558773b250ad09a4ab77b"),
        (0x81, "cf143b020ae667b4a732995f0b31ae9284610de129fa743c78f73dbd08ed8e58"),
        (0x82, "ae88db80d3c5c189afcfc2273fadba88d0e957efb5251f6378a55c41dcb02ef7"),
        (0x83, "41f06730d37940323ab8e3711cebf180de2ee40b46a005bf2c2347ec04875104"),
        (0x00, "7b519d254e6ca782982752e5cb563895d3927391a8fae9cfbf67343d053be120"),
        (0x41, "079efeba233371ca39a7a6449de920b52d393a743349e22920c81a692c002171"),
    ];
    for (hash_type, expected) in cases {
        assert_eq!(
            digest(&tx, hash_type, third_input()),
            unhex(expected),
            "hash type {hash_type:#x}"
        );
    }
}

#[test]
fn anyone_can_pay_puts_zero_bytes_for_prevouts_and_sequence() {
    let tx = plain();
    for hash_type in [0x81, 0x82, 0x83, 0x80, 0xc1] {
        let preimage = signature_hash_preimage(&tx, hash_type, &second_input());
        assert_eq!(&preimage[8..40], &[0u8; 32], "prevouts under {hash_type:#x}");
        assert_eq!(&preimage[40..72], &[0u8; 32], "sequence under {hash_type:#x}");
    }
    let committed = signature_hash_preimage(&tx, SIGHASH_ALL, &second_input());
    assert_eq!(&committed[8..40], &unhex(PLAIN_PREVOUTS)[..]);
    assert_eq!(&committed[40..72], &unhex(PLAIN_SEQUENCE)[..]);
}

#[test]
fn anyone_can_pay_ignores_the_other_inputs() {
    let tx = plain();
    let mut other = plain();
    other.vin[0] = input(0x77, 3, vec![0x01], 99);
    other.vin[2] = input(0x88, 4, vec![], 100);
    for hash_type in [0x81, 0x82, 0x83] {
        assert_eq!(
            digest(&tx, hash_type, second_input()),
            digest(&other, hash_type, second_input())
        );
        assert_eq!(digest(&tx, hash_type, None), digest(&other, hash_type, None));
    }
    assert_ne!(digest(&tx, 0x01, second_input()), digest(&other, 0x01, second_input()));
}

#[test]
fn anyone_can_pay_leaves_the_outputs_alone() {
    let tx = plain();
    let all = signature_hash_preimage(&tx, 0x81, &second_input());
    assert_eq!(&all[72..104], &unhex(PLAIN_OUTPUTS)[..]);
    let single = signature_hash_preimage(&tx, 0x83, &second_input());
    assert_eq!(&single[72..104], &unhex(PLAIN_SECOND_OUTPUT)[..]);
    let none = signature_hash_preimage(&tx, 0x82, &second_input());
    assert_eq!(&none[72..104], &[0u8; 32]);
}

#[test]
fn none_and_single_put_zero_bytes_for_the_sequence() {
    let tx = plain();
    for hash_type in [SIGHASH_NONE, SIGHASH_SINGLE] {
        let preimage = signature_hash_preimage(&tx, hash_type, &second_input());
        assert_eq!(&preimage[8..40], &unhex(PLAIN_PREVOUTS)[..]);
        assert_eq!(&preimage[40..72], &[0u8; 32]);
    }
}

#[test]
fn single_commits_to_the_output_beside_the_input() {
    let tx = plain();
    let preimage = signature_hash_preimage(&tx, SIGHASH_SINGLE, &second_input());
    assert_eq!(&preimage[72..104], &unhex(PLAIN_SECOND_OUTPUT)[..]);
}

#[test]
fn single_without_an_output_beside_the_input_puts_zero_bytes() {
    let tx = plain();
    assert_eq!(tx.vout.len(), 2);
    let preimage = signature_hash_preimage(&tx, SIGHASH_SINGLE, &third_input());
    assert_eq!(&preimage[72..104], &[0u8; 32]);
    assert_ne!(&preimage[72..104], &unhex(PLAIN_OUTPUTS)[..]);
    assert!(signature_hash(&tx, OVERWINTER_BRANCH, SIGHASH_SINGLE, third_input()).is_ok());
}

#[test]
fn single_without_a_signed_input_puts_zero_bytes() {
    let preimage = signature_hash_preimage(&plain(), SIGHASH_SINGLE, &None);
    assert_eq!(&preimage[72..104], &[0u8; 32]);
}

#[test]
fn none_puts_zero_bytes_for_the_outputs_whatever_the_input() {
    let tx = plain();
    for given in [None, second_input(), third_input()] {
        let preimage = signature_hash_preimage(&tx, SIGHASH_NONE, &given);
        assert_eq!(&preimage[72..104], &[0u8; 32]);
    }
}

#[test]
fn none_ignores_the_outputs() {
    let tx = plain();
    let mut other = plain();
    other.vout = vec![output(1, vec![0x6a])];
    assert_eq!(digest(&tx, SIGHASH_NONE, second_input()), digest(&other, SIGHASH_NONE, second_input()));
    assert_ne!(digest(&tx, SIGHASH_ALL, second_input()), digest(&other, SIGHASH_ALL, second_input()));
}

#[test]
fn no_joinsplit_puts_zero_bytes() {
    let preimage = signature_hash_preimage(&plain(), SIGHASH_ALL, &None);
    assert_eq!(&preimage[104..136], &[0u8; 32]);
}

#[test]
fn no_joinsplit_ignores_the_public_key() {
    let tx = plain();
    let mut other = plain();
    other.joinsplit_pubkey = [0x99; 32];
    assert_eq!(digest(&tx, SIGHASH_ALL, None), digest(&other, SIGHASH_ALL, None));
}

#[test]
fn joinsplits_put_their_hash() {
    let tx = shielded();
    let preimage = signature_hash_preimage(&tx, SIGHASH_ALL, &None);
    assert_eq!(&preimage[104..136], &unhex(SHIELDED_JOINSPLITS)[..]);
    assert_eq!(
        digest(&tx, SIGHASH_ALL, None),
        unhex("c5e37aeffd098c6ee997d6763ec11e4981feb9eeedc1397e5cd327ebdcc058a0")
    );
    let mut other = shielded();
    other.joinsplit_pubkey = [0x99; 32];
    assert_ne!(digest(&tx, SIGHASH_ALL, None), digest(&other, SIGHASH_ALL, None));
}

#[test]
fn preimage_lengths() {
    let tx = plain();
    assert_eq!(signature_hash_preimage(&tx, SIGHASH_ALL, &None).len(), 148);
    assert_eq!(signature_hash_preimage(&tx, SIGHASH_ALL, &second_input()).len(), 148 + 50);
    let long = Some((0, Script(vec![0xac; 300]), Amount(1)));
    assert_eq!(signature_hash_preimage(&tx, SIGHASH_ALL, &long).len(), 148 + 36 + 3 + 300 + 12);
}

#[test]
fn signed_input_changes_the_digest() {
    let tx = plain();
    for hash_type in [0x01, 0x02, 0x03, 0x81, 0x82, 0x83] {
        assert_ne!(digest(&tx, hash_type, None), digest(&tx, hash_type, second_input()));
        assert_ne!(digest(&tx, hash_type, None), digest(&tx, hash_type, third_input()));
        assert_ne!(digest(&tx, hash_type, second_input()), digest(&tx, hash_type, third_input()));
    }
}

#[test]
fn signed_input_adds_its_own_outpoint_and_sequence() {
    let tx = plain();
    let preimage = signature_hash_preimage(&tx, SIGHASH_ALL, &third_input());
    let suffix = &preimage[148..];
    assert_eq!(&suffix[..32], &[0x33; 32]);
    assert_eq!(&suffix[32..36], &[0x09, 0x00, 0x00, 0x00]);
    assert_eq!(&suffix[36..38], &[0x01, 0xac]);
    assert_eq!(&suffix[38..46], &[0xfb, 0xff, 0xff, 0xff, 0xff, 0xff, 0xff, 0xff]);
    assert_eq!(&suffix[46..], &[0x04, 0x03, 0x02, 0x01]);
}

#[test]
fn sequence_of_the_signed_input_comes_from_the_transaction() {
    let tx = plain();
    let mut other = plain();
    other.vin[1].sequence = 8;
    let before = signature_hash_preimage(&tx, 0x81, &second_input());
    let after = signature_hash_preimage(&other, 0x81, &second_input());
    assert_eq!(&before[before.len() - 4..], &[0x07, 0x00, 0x00, 0x00]);
    assert_eq!(&after[after.len() - 4..], &[0x08, 0x00, 0x00, 0x00]);
    assert_eq!(&before[..before.len() - 4], &after[..after.len() - 4]);
    assert_ne!(digest(&tx, 0x81, second_input()), digest(&other, 0x81, second_input()));
}

#[test]
fn script_sig_is_not_hashed() {
    let tx = plain();
    let mut other = plain();
    other.vin[0].script_sig = Script(vec![0xde, 0xad]);
    other.vin[1].script_sig = Script(vec![0xbe, 0xef]);
    for hash_type in [0x01, 0x02, 0x03, 0x81] {
        assert_eq!(digest(&tx, hash_type, None), digest(&other, hash_type, None));
        assert_eq!(digest(&tx, hash_type, second_input()), digest(&other, hash_type, second_input()));
    }
}

#[test]
fn hash_type_is_part_of_the_preimage() {
    let tx = plain();
    let plain_all = signature_hash_preimage(&tx, 0x01, &None);
    let odd_all = signature_hash_preimage(&tx, 0x41, &None);
    assert_eq!(&plain_all[..144], &odd_all[..144]);
    assert_eq!(&plain_all[144..], &[0x01, 0x00, 0x00, 0x00]);
    assert_eq!(&odd_all[144..], &[0x41, 0x00, 0x00, 0x00]);
    assert_ne!(digest(&tx, 0x01, None), digest(&tx, 0x41, None));
}

#[test]
fn header_fields_lead_the_preimage() {
    let mut tx = plain();
    tx.version = SAPLING_TX_VERSION;
    let preimage = signature_hash_preimage(&tx, SIGHASH_ALL, &None);
    assert_eq!(&preimage[..8], &[0x04, 0x00, 0x00, 0x80, 0x70, 0x82, 0xc4, 0x03]);
    assert_eq!(&preimage[136..144], &[0x20, 0xa1, 0x07, 0x00, 0xc0, 0x27, 0x09, 0x00]);
}
