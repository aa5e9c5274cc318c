//! What holds of every signature hash: where each field lies in the hashed
//! bytes, and what a hash type leaves out of them.

use vstd::prelude::*;

use crate::blake2b::{lemma_le_value_of_eight, personal_hash, personal_parameters};
use crate::encoding::{
    le_bytes, lemma_compact_size_shape, lemma_le_bytes_injective, lemma_le_bytes_len,
    lemma_le_value_of_four, lemma_le_value_of_le_bytes, lemma_prefixed_bytes_unique,
    lemma_radix_powers, lemma_twos_complement_injective, prefixed_bytes, twos_complement_64,
    zero_bytes,
};
use crate::sighash::{
    anyone_can_pay, base_type, commitment, common_preimage, concatenation, hash_type_flags,
    input_fields, input_preimage, joinsplits_digest, outcome, outputs_commitment, outputs_digest,
    outputs_encoding, prevouts_digest, prevouts_encoding, sequence_digest, sequences_encoding,
    sighash_personalization, sighash_preimage, signature_digest, signature_hash_outcome,
    SigHashError, SigningInput, SIGHASH_NONE, SIGHASH_SINGLE,
    ZCASH_JOINSPLITS_HASH_PERSONALIZATION,
};
use crate::transaction::{amount_encoding, OutPointView, TransactionView, TxInView, TxOutView};

verus! {

/// A personalised digest has 32 bytes.
pub proof fn lemma_personal_hash_len(personal: Seq<u8>, message: Seq<u8>)
    ensures
        personal_hash(personal, message).len() == 32,
{
}

/// Each of the four commitments has 32 bytes, whether it is a digest or
/// stands for one that is left out.
pub proof fn lemma_commitment_lengths(
    tx: TransactionView,
    hash_type: u32,
    input: Option<SigningInput>,
)
    ensures
        commitment(hash_type_flags(hash_type).prevouts, prevouts_digest(tx)).len() == 32,
        commitment(hash_type_flags(hash_type).sequence, sequence_digest(tx)).len() == 32,
        outputs_commitment(tx, hash_type, input).len() == 32,
        commitment(tx.joinsplits.len() > 0, joinsplits_digest(tx)).len() == 32,
{
}

/// The common part of the hashed bytes has 148 bytes, and each field lies
/// at a fixed place in it.
pub proof fn lemma_common_preimage_layout(
    tx: TransactionView,
    hash_type: u32,
    input: Option<SigningInput>,
)
    ensures
        ({
            let bytes = common_preimage(tx, hash_type, input);
            &&& bytes.len() == 148
            &&& bytes.subrange(0, 4) == le_bytes(tx.header() as nat, 4)
            &&& bytes.subrange(4, 8) == le_bytes(tx.version_group_id as nat, 4)
            &&& bytes.subrange(8, 40) == commitment(
                hash_type_flags(hash_type).prevouts,
                prevouts_digest(tx),
            )
            &&& bytes.subrange(40, 72) == commitment(
                hash_type_flags(hash_type).sequence,
                sequence_digest(tx),
            )
            &&& bytes.subrange(72, 104) == outputs_commitment(tx, hash_type, input)
            &&& bytes.subrange(104, 136) == commitment(
                tx.joinsplits.len() > 0,
                joinsplits_digest(tx),
            )
            &&& bytes.subrange(136, 140) == le_bytes(tx.lock_time as nat, 4)
            &&& bytes.subrange(140, 144) == le_bytes(tx.expiry_height as nat, 4)
            &&& bytes.subrange(144, 148) == le_bytes(hash_type as nat, 4)
        }),
{
    let bytes = common_preimage(tx, hash_type, input);
    lemma_commitment_lengths(tx, hash_type, input);
    lemma_le_bytes_len(tx.header() as nat, 4);
    lemma_le_bytes_len(tx.version_group_id as nat, 4);
    lemma_le_bytes_len(tx.lock_time as nat, 4);
    lemma_le_bytes_len(tx.expiry_height as nat, 4);
    lemma_le_bytes_len(hash_type as nat, 4);
    assert(bytes.subrange(0, 4) =~= le_bytes(tx.header() as nat, 4));
    assert(bytes.subrange(4, 8) =~= le_bytes(tx.version_group_id as nat, 4));
    assert(bytes.subrange(8, 40) =~= commitment(
        hash_type_flags(hash_type).prevouts,
        prevouts_digest(tx),
    ));
    assert(bytes.subrange(40, 72) =~= commitment(
        hash_type_flags(hash_type).sequence,
        sequence_digest(tx),
    ));
    assert(bytes.subrange(72, 104) =~= outputs_commitment(tx, hash_type, input));
    assert(bytes.subrange(104, 136) =~= commitment(
        tx.joinsplits.len() > 0,
        joinsplits_digest(tx),
    ));
    assert(bytes.subrange(136, 140) =~= le_bytes(tx.lock_time as nat, 4));
    assert(bytes.subrange(140, 144) =~= le_bytes(tx.expiry_height as nat, 4));
    assert(bytes.subrange(144, 148) =~= le_bytes(hash_type as nat, 4));
}

/// The hashed bytes start with the 148 common bytes; what follows them is
/// nothing without a signed input and that input's fields with one.
pub proof fn lemma_preimage_layout(
    tx: TransactionView,
    hash_type: u32,
    input: Option<SigningInput>,
)
    ensures
        sighash_preimage(tx, hash_type, input).len() >= 148,
        sighash_preimage(tx, hash_type, input).take(148) == common_preimage(
            tx,
            hash_type,
            input,
        ),
        sighash_preimage(tx, hash_type, input).skip(148) == match input {
            Some(signing) => input_preimage(tx, signing),
            None => Seq::<u8>::empty(),
        },
{
    lemma_common_preimage_layout(tx, hash_type, input);
    let bytes = sighash_preimage(tx, hash_type, input);
    assert(bytes.take(148) =~= common_preimage(tx, hash_type, input));
    assert(bytes.skip(148) =~= match input {
        Some(signing) => input_preimage(tx, signing),
        None => Seq::<u8>::empty(),
    });
}

/// The arguments fix the result: whatever two calls of [`signature_hash`]
/// return for the same transaction, branch, hash type and signed input,
/// they return the same error or the same bytes.
///
/// [`signature_hash`]: crate::sighash::signature_hash
pub proof fn lemma_signature_hash_is_deterministic(
    tx: TransactionView,
    consensus_branch_id: u32,
    hash_type: u32,
    input: Option<SigningInput>,
    first: Result<Vec<u8>, SigHashError>,
    second: Result<Vec<u8>, SigHashError>,
)
    requires
        outcome(first) == signature_hash_outcome(tx, consensus_branch_id, hash_type, input),
        outcome(second) == signature_hash_outcome(tx, consensus_branch_id, hash_type, input),
    ensures
        outcome(first) == outcome(second),
        first matches Ok(digest) ==> second is Ok && second->Ok_0@ == digest@,
        first matches Err(error) ==> second == Err::<Vec<u8>, SigHashError>(error),
{
}

/// Two consensus branches never share a personalisation, nor a parameter
/// block: the branch id sets apart the hash function, while the bytes that
/// are hashed, and so every sub-hash in them, do not depend on it.
pub proof fn lemma_branch_id_separates_hashes(
    tx: TransactionView,
    first_branch: u32,
    second_branch: u32,
    hash_type: u32,
    input: Option<SigningInput>,
)
    requires
        first_branch != second_branch,
    ensures
        sighash_personalization(first_branch) != sighash_personalization(second_branch),
        personal_parameters(sighash_personalization(first_branch)) != personal_parameters(
            sighash_personalization(second_branch),
        ),
        signature_digest(tx, first_branch, hash_type, input) == personal_hash(
            sighash_personalization(first_branch),
            sighash_preimage(tx, hash_type, input),
        ),
        signature_digest(tx, second_branch, hash_type, input) == personal_hash(
            sighash_personalization(second_branch),
            sighash_preimage(tx, hash_type, input),
        ),
{
    lemma_personalization_word(first_branch);
    lemma_personalization_word(second_branch);
    let first = personal_parameters(sighash_personalization(first_branch));
    let second = personal_parameters(sighash_personalization(second_branch));
    assert(first[7] != second[7]);
}

/// The last word of the parameter block of a signature hash holds the
/// branch id in its upper half, above the four letters that end the
/// personalisation's prefix.
pub proof fn lemma_personalization_word(consensus_branch_id: u32)
    ensures
        sighash_personalization(consensus_branch_id).len() == 16,
        personal_parameters(sighash_personalization(consensus_branch_id))[7] == 0x6873_6148
            + 0x1_0000_0000 * consensus_branch_id,
{
    let personal = sighash_personalization(consensus_branch_id);
    let branch = le_bytes(consensus_branch_id as nat, 4);
    let tail = personal.subrange(8, 16);
    lemma_le_bytes_len(consensus_branch_id as nat, 4);
    lemma_radix_powers();
    lemma_le_value_of_le_bytes(consensus_branch_id as nat, 4);
    lemma_le_value_of_eight(tail);
    lemma_le_value_of_four(branch);
    assert(tail[0] == 0x48 && tail[1] == 0x61 && tail[2] == 0x73 && tail[3] == 0x68);
    assert(tail[4] == branch[0] && tail[5] == branch[1] && tail[6] == branch[2] && tail[7]
        == branch[3]);
}

/// Under ANYONECANPAY the places of the outpoints' and the sequence
/// numbers' digests, bytes 8 to 72, hold zero bytes.
pub proof fn lemma_anyone_can_pay_zeroes_inputs(
    tx: TransactionView,
    hash_type: u32,
    input: Option<SigningInput>,
)
    requires
        anyone_can_pay(hash_type),
    ensures
        sighash_preimage(tx, hash_type, input).subrange(8, 40) == zero_bytes(32),
        sighash_preimage(tx, hash_type, input).subrange(40, 72) == zero_bytes(32),
{
    lemma_common_preimage_layout(tx, hash_type, input);
    lemma_preimage_layout(tx, hash_type, input);
    let bytes = sighash_preimage(tx, hash_type, input);
    let common = common_preimage(tx, hash_type, input);
    assert(bytes.subrange(8, 40) =~= common.subrange(8, 40));
    assert(bytes.subrange(40, 72) =~= common.subrange(40, 72));
}

/// Under ANYONECANPAY a signature hash reads no input but the signed one:
/// two transactions that differ in their inputs alone, and agree on the
/// outpoint and the sequence number of the signed input where there is
/// one, have the same signature hash.
pub proof fn lemma_anyone_can_pay_ignores_other_inputs(
    first: TransactionView,
    second: TransactionView,
    consensus_branch_id: u32,
    hash_type: u32,
    input: Option<SigningInput>,
)
    requires
        anyone_can_pay(hash_type),
        second == (TransactionView { vin: second.vin, ..first }),
        input matches Some(signing) ==> first.vin[signing.index].prevout
            == second.vin[signing.index].prevout && first.vin[signing.index].sequence
            == second.vin[signing.index].sequence,
    ensures
        sighash_preimage(first, hash_type, input) == sighash_preimage(second, hash_type, input),
        signature_digest(first, consensus_branch_id, hash_type, input) == signature_digest(
            second,
            consensus_branch_id,
            hash_type,
            input,
        ),
{
    assert(joinsplits_digest(first) == joinsplits_digest(second));
    assert(first.header() == second.header());
}

/// Without ANYONECANPAY the digest over all outpoints lies in bytes 8 to
/// 40, and under a base type other than NONE and SINGLE the digest over
/// all sequence numbers in bytes 40 to 72; under NONE and SINGLE those
/// hold zero bytes.
pub proof fn lemma_inputs_commitments(
    tx: TransactionView,
    hash_type: u32,
    input: Option<SigningInput>,
)
    requires
        !anyone_can_pay(hash_type),
    ensures
        sighash_preimage(tx, hash_type, input).subrange(8, 40) == prevouts_digest(tx),
        sighash_preimage(tx, hash_type, input).subrange(40, 72) == if base_type(hash_type)
            == SIGHASH_NONE || base_type(hash_type) == SIGHASH_SINGLE {
            zero_bytes(32)
        } else {
            sequence_digest(tx)
        },
{
    lemma_common_preimage_layout(tx, hash_type, input);
    lemma_preimage_layout(tx, hash_type, input);
    let bytes = sighash_preimage(tx, hash_type, input);
    let common = common_preimage(tx, hash_type, input);
    assert(bytes.subrange(8, 40) =~= common.subrange(8, 40));
    assert(bytes.subrange(40, 72) =~= common.subrange(40, 72));
}

/// Under SINGLE, where the transaction has no output at the index of the
/// signed input, the place of the outputs' digest, bytes 72 to 104, holds
/// zero bytes.
pub proof fn lemma_single_without_output_is_zero(
    tx: TransactionView,
    hash_type: u32,
    signing: SigningInput,
)
    requires
        base_type(hash_type) == SIGHASH_SINGLE,
        signing.index >= tx.vout.len(),
    ensures
        outputs_commitment(tx, hash_type, Some(signing)) == zero_bytes(32),
        sighash_preimage(tx, hash_type, Some(signing)).subrange(72, 104) == zero_bytes(32),
{
    let input = Some(signing);
    lemma_common_preimage_layout(tx, hash_type, input);
    lemma_preimage_layout(tx, hash_type, input);
    let bytes = sighash_preimage(tx, hash_type, input);
    let common = common_preimage(tx, hash_type, input);
    assert(bytes.subrange(72, 104) =~= common.subrange(72, 104));
}

/// Under SINGLE, where the transaction has an output at the index of the
/// signed input, bytes 72 to 104 hold the digest over that output alone.
pub proof fn lemma_single_commits_to_one_output(
    tx: TransactionView,
    hash_type: u32,
    signing: SigningInput,
)
    requires
        base_type(hash_type) == SIGHASH_SINGLE,
        0 <= signing.index < tx.vout.len(),
    ensures
        sighash_preimage(tx, hash_type, Some(signing)).subrange(72, 104) == outputs_digest(
            seq![tx.vout[signing.index]],
        ),
{
    let input = Some(signing);
    lemma_common_preimage_layout(tx, hash_type, input);
    lemma_preimage_layout(tx, hash_type, input);
    let bytes = sighash_preimage(tx, hash_type, input);
    let common = common_preimage(tx, hash_type, input);
    assert(bytes.subrange(72, 104) =~= common.subrange(72, 104));
}

/// Under NONE the place of the outputs' digest holds zero bytes, with or
/// without a signed input and whatever it is.
pub proof fn lemma_none_is_zero(tx: TransactionView, hash_type: u32, input: Option<SigningInput>)
    requires
        base_type(hash_type) == SIGHASH_NONE,
    ensures
        outputs_commitment(tx, hash_type, input) == zero_bytes(32),
        sighash_preimage(tx, hash_type, input).subrange(72, 104) == zero_bytes(32),
{
    lemma_common_preimage_layout(tx, hash_type, input);
    lemma_preimage_layout(tx, hash_type, input);
    let bytes = sighash_preimage(tx, hash_type, input);
    let common = common_preimage(tx, hash_type, input);
    assert(bytes.subrange(72, 104) =~= common.subrange(72, 104));
}

/// Under NONE a signature hash reads no output: two transactions that
/// differ in their outputs alone have the same signature hash.
pub proof fn lemma_none_ignores_outputs(
    first: TransactionView,
    second: TransactionView,
    consensus_branch_id: u32,
    hash_type: u32,
    input: Option<SigningInput>,
)
    requires
        base_type(hash_type) == SIGHASH_NONE,
        second == (TransactionView { vout: second.vout, ..first }),
    ensures
        sighash_preimage(first, hash_type, input) == sighash_preimage(second, hash_type, input),
        signature_digest(first, consensus_branch_id, hash_type, input) == signature_digest(
            second,
            consensus_branch_id,
            hash_type,
            input,
        ),
{
    assert(joinsplits_digest(first) == joinsplits_digest(second));
    assert(prevouts_digest(first) == prevouts_digest(second));
    assert(sequence_digest(first) == sequence_digest(second));
    assert(first.header() == second.header());
}

/// Under a base type other than NONE and SINGLE, bytes 72 to 104 hold the
/// digest over all outputs, with or without ANYONECANPAY.
pub proof fn lemma_all_commits_to_every_output(
    tx: TransactionView,
    hash_type: u32,
    input: Option<SigningInput>,
)
    requires
        base_type(hash_type) != SIGHASH_NONE,
        base_type(hash_type) != SIGHASH_SINGLE,
    ensures
        sighash_preimage(tx, hash_type, input).subrange(72, 104) == outputs_digest(tx.vout),
{
    lemma_common_preimage_layout(tx, hash_type, input);
    lemma_preimage_layout(tx, hash_type, input);
    let bytes = sighash_preimage(tx, hash_type, input);
    let common = common_preimage(tx, hash_type, input);
    assert(bytes.subrange(72, 104) =~= common.subrange(72, 104));
}

/// Without a JoinSplit description, bytes 104 to 136 hold zero bytes; with
/// one, the digest over all the descriptions in their order and, behind
/// the last of them, the JoinSplit public key.
pub proof fn lemma_joinsplits_gating(
    tx: TransactionView,
    hash_type: u32,
    input: Option<SigningInput>,
)
    ensures
        tx.joinsplits.len() == 0 ==> sighash_preimage(tx, hash_type, input).subrange(104, 136)
            == zero_bytes(32),
        tx.joinsplits.len() > 0 ==> sighash_preimage(tx, hash_type, input).subrange(104, 136)
            == personal_hash(
            ZCASH_JOINSPLITS_HASH_PERSONALIZATION@,
            concatenation(tx.joinsplits) + tx.joinsplit_pubkey,
        ),
{
    lemma_common_preimage_layout(tx, hash_type, input);
    lemma_preimage_layout(tx, hash_type, input);
    let bytes = sighash_preimage(tx, hash_type, input);
    let common = common_preimage(tx, hash_type, input);
    assert(bytes.subrange(104, 136) =~= common.subrange(104, 136));
}

/// Without a JoinSplit description a signature hash does not read the
/// JoinSplit public key.
pub proof fn lemma_public_key_ignored_without_joinsplits(
    first: TransactionView,
    second: TransactionView,
    consensus_branch_id: u32,
    hash_type: u32,
    input: Option<SigningInput>,
)
    requires
        first.joinsplits.len() == 0,
        second == (TransactionView { joinsplit_pubkey: second.joinsplit_pubkey, ..first }),
    ensures
        sighash_preimage(first, hash_type, input) == sighash_preimage(second, hash_type, input),
        signature_digest(first, consensus_branch_id, hash_type, input) == signature_digest(
            second,
            consensus_branch_id,
            hash_type,
            input,
        ),
{
    assert(prevouts_digest(first) == prevouts_digest(second));
    assert(sequence_digest(first) == sequence_digest(second));
    assert(first.header() == second.header());
}

/// A signed input changes what is hashed: with one the hashed bytes are
/// longer than without, by the input's 36, 8 and 4 bytes and its script
/// code behind a length prefix, and they end in the four bytes of the
/// sequence number that the transaction holds at the input's index.
pub proof fn lemma_signed_input_is_appended(
    tx: TransactionView,
    hash_type: u32,
    signing: SigningInput,
)
    requires
        tx.well_formed(),
        0 <= signing.index < tx.vin.len(),
    ensures
        sighash_preimage(tx, hash_type, None).len() == 148,
        sighash_preimage(tx, hash_type, Some(signing)).len() == 148 + 36 + prefixed_bytes(
            signing.script_code,
        ).len() + 8 + 4,
        prefixed_bytes(signing.script_code).len() > signing.script_code.len(),
        sighash_preimage(tx, hash_type, Some(signing)) != sighash_preimage(tx, hash_type, None),
        ({
            let bytes = sighash_preimage(tx, hash_type, Some(signing));
            bytes.skip(bytes.len() - 4) == le_bytes(tx.vin[signing.index].sequence as nat, 4)
        }),
{
    lemma_common_preimage_layout(tx, hash_type, None);
    lemma_common_preimage_layout(tx, hash_type, Some(signing));
    let bytes = sighash_preimage(tx, hash_type, Some(signing));
    let sequence = le_bytes(tx.vin[signing.index].sequence as nat, 4);
    lemma_le_bytes_len(tx.vin[signing.index].sequence as nat, 4);
    lemma_le_bytes_len(tx.vin[signing.index].prevout.n as nat, 4);
    lemma_le_bytes_len(twos_complement_64(signing.amount), 8);
    assert(bytes.skip(bytes.len() - 4) =~= sequence);
}

/// The encoded outpoints of two lists of inputs are the same where the
/// lists hold the same outpoints in the same order.
pub proof fn lemma_prevouts_encoding_reads_outpoints(first: Seq<TxInView>, second: Seq<TxInView>)
    requires
        first.len() == second.len(),
        forall|i: int| 0 <= i < first.len() ==> first[i].prevout == second[i].prevout,
    ensures
        prevouts_encoding(first) == prevouts_encoding(second),
    decreases first.len(),
{
    if first.len() > 0 {
        lemma_prevouts_encoding_reads_outpoints(first.drop_last(), second.drop_last());
    }
}

/// The encoded sequence numbers of two lists of inputs are the same where
/// the lists hold the same sequence numbers in the same order.
pub proof fn lemma_sequences_encoding_reads_sequences(
    first: Seq<TxInView>,
    second: Seq<TxInView>,
)
    requires
        first.len() == second.len(),
        forall|i: int| 0 <= i < first.len() ==> first[i].sequence == second[i].sequence,
    ensures
        sequences_encoding(first) == sequences_encoding(second),
    decreases first.len(),
{
    if first.len() > 0 {
        lemma_sequences_encoding_reads_sequences(first.drop_last(), second.drop_last());
    }
}

/// A signature hash does not read the signature scripts: two transactions
/// that differ in them alone have the same signature hash.
pub proof fn lemma_script_sig_is_ignored(
    first: TransactionView,
    second: TransactionView,
    consensus_branch_id: u32,
    hash_type: u32,
    input: Option<SigningInput>,
)
    requires
        second == (TransactionView { vin: second.vin, ..first }),
        first.vin.len() == second.vin.len(),
        forall|i: int|
            0 <= i < first.vin.len() ==> first.vin[i].prevout == second.vin[i].prevout
                && first.vin[i].sequence == second.vin[i].sequence,
        input matches Some(signing) ==> 0 <= signing.index < first.vin.len(),
    ensures
        sighash_preimage(first, hash_type, input) == sighash_preimage(second, hash_type, input),
        signature_digest(first, consensus_branch_id, hash_type, input) == signature_digest(
            second,
            consensus_branch_id,
            hash_type,
            input,
        ),
{
    lemma_prevouts_encoding_reads_outpoints(first.vin, second.vin);
    lemma_sequences_encoding_reads_sequences(first.vin, second.vin);
    assert(joinsplits_digest(first) == joinsplits_digest(second));
    assert(first.header() == second.header());
}

/// The outpoints of a list of inputs take 36 bytes each.
pub proof fn lemma_prevouts_encoding_len(inputs: Seq<TxInView>)
    requires
        forall|i: int| 0 <= i < inputs.len() ==> (#[trigger] inputs[i]).prevout.well_formed(),
    ensures
        prevouts_encoding(inputs).len() == 36 * inputs.len(),
    decreases inputs.len(),
{
    if inputs.len() > 0 {
        lemma_prevouts_encoding_len(inputs.drop_last());
        lemma_le_bytes_len(inputs.last().prevout.n as nat, 4);
    }
}

/// The sequence numbers of a list of inputs take four bytes each.
pub proof fn lemma_sequences_encoding_len(inputs: Seq<TxInView>)
    ensures
        sequences_encoding(inputs).len() == 4 * inputs.len(),
    decreases inputs.len(),
{
    if inputs.len() > 0 {
        lemma_sequences_encoding_len(inputs.drop_last());
        lemma_le_bytes_len(inputs.last().sequence as nat, 4);
    }
}

/// Two lists of inputs whose outpoints encode to the same bytes hold the
/// same outpoints in the same order.
pub proof fn lemma_prevouts_encoding_injective(first: Seq<TxInView>, second: Seq<TxInView>)
    requires
        forall|i: int| 0 <= i < first.len() ==> (#[trigger] first[i]).prevout.well_formed(),
        forall|i: int| 0 <= i < second.len() ==> (#[trigger] second[i]).prevout.well_formed(),
        prevouts_encoding(first) == prevouts_encoding(second),
    ensures
        first.len() == second.len(),
        forall|i: int| 0 <= i < first.len() ==> first[i].prevout == second[i].prevout,
    decreases first.len(),
{
    lemma_prevouts_encoding_len(first);
    lemma_prevouts_encoding_len(second);
    if first.len() > 0 {
        let whole = prevouts_encoding(first);
        let shorter = first.drop_last();
        let other_shorter = second.drop_last();
        lemma_prevouts_encoding_len(shorter);
        lemma_prevouts_encoding_len(other_shorter);
        let cut: int = 36 * (shorter.len() as int);
        assert(prevouts_encoding(shorter) =~= whole.subrange(0, cut));
        assert(prevouts_encoding(other_shorter) =~= whole.subrange(0, cut));
        assert(first.last().prevout.encoding() =~= whole.skip(cut));
        assert(second.last().prevout.encoding() =~= whole.skip(cut));
        first.last().prevout.lemma_encoding_unique(
            Seq::empty(),
            second.last().prevout,
            Seq::empty(),
        );
        lemma_prevouts_encoding_injective(shorter, other_shorter);
        assert forall|i: int| 0 <= i < first.len() implies first[i].prevout
            == second[i].prevout by {
            if i < first.len() - 1 {
                assert(first[i] == shorter[i]);
                assert(second[i] == other_shorter[i]);
            }
        }
    }
}

/// Two lists of inputs whose sequence numbers encode to the same bytes
/// hold the same sequence numbers in the same order.
pub proof fn lemma_sequences_encoding_injective(first: Seq<TxInView>, second: Seq<TxInView>)
    requires
        sequences_encoding(first) == sequences_encoding(second),
    ensures
        first.len() == second.len(),
        forall|i: int| 0 <= i < first.len() ==> first[i].sequence == second[i].sequence,
    decreases first.len(),
{
    lemma_sequences_encoding_len(first);
    lemma_sequences_encoding_len(second);
    if first.len() > 0 {
        let whole = sequences_encoding(first);
        let shorter = first.drop_last();
        let other_shorter = second.drop_last();
        lemma_sequences_encoding_len(shorter);
        lemma_sequences_encoding_len(other_shorter);
        let cut: int = 4 * (shorter.len() as int);
        lemma_le_bytes_len(first.last().sequence as nat, 4);
        lemma_le_bytes_len(second.last().sequence as nat, 4);
        assert(sequences_encoding(shorter) =~= whole.subrange(0, cut));
        assert(sequences_encoding(other_shorter) =~= whole.subrange(0, cut));
        assert(le_bytes(first.last().sequence as nat, 4) =~= whole.skip(cut));
        assert(le_bytes(second.last().sequence as nat, 4) =~= whole.skip(cut));
        lemma_radix_powers();
        lemma_le_bytes_injective(first.last().sequence as nat, second.last().sequence as nat, 4);
        lemma_sequences_encoding_injective(shorter, other_shorter);
        assert forall|i: int| 0 <= i < first.len() implies first[i].sequence
            == second[i].sequence by {
            if i < first.len() - 1 {
                assert(first[i] == shorter[i]);
                assert(second[i] == other_shorter[i]);
            }
        }
    }
}

/// The encoding of two lists of outputs, one after the other, is the
/// encoding of the first followed by that of the second.
pub proof fn lemma_outputs_encoding_concat(first: Seq<TxOutView>, second: Seq<TxOutView>)
    ensures
        outputs_encoding(first + second) == outputs_encoding(first) + outputs_encoding(second),
    decreases second.len(),
{
    if second.len() == 0 {
        assert(first + second =~= first);
        assert(outputs_encoding(first) + outputs_encoding(second) =~= outputs_encoding(first));
    } else {
        lemma_outputs_encoding_concat(first, second.drop_last());
        assert((first + second).drop_last() =~= first + second.drop_last());
        assert(outputs_encoding(first + second) =~= outputs_encoding(first) + outputs_encoding(
            second,
        ));
    }
}

/// Two lists of outputs that encode to the same bytes are the same list.
pub proof fn lemma_outputs_encoding_injective(first: Seq<TxOutView>, second: Seq<TxOutView>)
    requires
        forall|i: int| 0 <= i < first.len() ==> (#[trigger] first[i]).well_formed(),
        forall|i: int| 0 <= i < second.len() ==> (#[trigger] second[i]).well_formed(),
        outputs_encoding(first) == outputs_encoding(second),
    ensures
        first == second,
    decreases first.len(),
{
    if first.len() == 0 {
        if second.len() > 0 {
            lemma_outputs_encoding_starts_with_first(second);
            lemma_le_bytes_len(twos_complement_64(second[0].value), 8);
        }
        assert(first =~= second);
    } else {
        lemma_outputs_encoding_starts_with_first(first);
        if second.len() == 0 {
            lemma_le_bytes_len(twos_complement_64(first[0].value), 8);
        } else {
            lemma_outputs_encoding_starts_with_first(second);
            first[0].lemma_encoding_unique(
                outputs_encoding(first.drop_first()),
                second[0],
                outputs_encoding(second.drop_first()),
            );
            lemma_outputs_encoding_injective(first.drop_first(), second.drop_first());
            assert(first =~= seq![first[0]] + first.drop_first());
            assert(second =~= seq![second[0]] + second.drop_first());
        }
    }
}

/// The encoding of a list of outputs starts with that of its first.
pub proof fn lemma_outputs_encoding_starts_with_first(outputs: Seq<TxOutView>)
    requires
        outputs.len() > 0,
    ensures
        outputs_encoding(outputs) == outputs[0].encoding() + outputs_encoding(
            outputs.drop_first(),
        ),
{
    let head = seq![outputs[0]];
    assert(outputs =~= head + outputs.drop_first());
    lemma_outputs_encoding_concat(head, outputs.drop_first());
    assert(head.drop_last() =~= Seq::<TxOutView>::empty());
    assert(outputs_encoding(head.drop_last()) =~= Seq::<u8>::empty());
    assert(outputs_encoding(head) =~= outputs[0].encoding());
}

/// What is hashed can be read back in one way only: two signature hashes
/// that hash the same bytes agree on the header, the version group, each
/// of the four commitments, lock time, expiry height and hash type, on
/// whether an input is signed, and on that input's outpoint, script code,
/// amount and sequence number.
pub proof fn lemma_preimage_binds_fields(
    first: TransactionView,
    first_type: u32,
    first_input: Option<SigningInput>,
    second: TransactionView,
    second_type: u32,
    second_input: Option<SigningInput>,
)
    requires
        first.well_formed(),
        second.well_formed(),
        first_input matches Some(signing) ==> signing.fits(first),
        second_input matches Some(signing) ==> signing.fits(second),
        sighash_preimage(first, first_type, first_input) == sighash_preimage(
            second,
            second_type,
            second_input,
        ),
    ensures
        first.header() == second.header(),
        first.version_group_id == second.version_group_id,
        first.lock_time == second.lock_time,
        first.expiry_height == second.expiry_height,
        first_type == second_type,
        commitment(hash_type_flags(first_type).prevouts, prevouts_digest(first)) == commitment(
            hash_type_flags(second_type).prevouts,
            prevouts_digest(second),
        ),
        commitment(hash_type_flags(first_type).sequence, sequence_digest(first)) == commitment(
            hash_type_flags(second_type).sequence,
            sequence_digest(second),
        ),
        outputs_commitment(first, first_type, first_input) == outputs_commitment(
            second,
            second_type,
            second_input,
        ),
        commitment(first.joinsplits.len() > 0, joinsplits_digest(first)) == commitment(
            second.joinsplits.len() > 0,
            joinsplits_digest(second),
        ),
        first_input is Some <==> second_input is Some,
        first_input matches Some(signing) ==> {
            let other = second_input->Some_0;
            &&& first.vin[signing.index].prevout == second.vin[other.index].prevout
            &&& signing.script_code == other.script_code
            &&& signing.amount == other.amount
            &&& first.vin[signing.index].sequence == second.vin[other.index].sequence
        },
{
    let bytes = sighash_preimage(first, first_type, first_input);
    let first_common = common_preimage(first, first_type, first_input);
    let second_common = common_preimage(second, second_type, second_input);
    lemma_preimage_layout(first, first_type, first_input);
    lemma_preimage_layout(second, second_type, second_input);
    lemma_common_preimage_layout(first, first_type, first_input);
    lemma_common_preimage_layout(second, second_type, second_input);
    assert(first_common == second_common);
    lemma_radix_powers();
    lemma_le_bytes_injective(first.header() as nat, second.header() as nat, 4);
    lemma_le_bytes_injective(first.version_group_id as nat, second.version_group_id as nat, 4);
    lemma_le_bytes_injective(first.lock_time as nat, second.lock_time as nat, 4);
    lemma_le_bytes_injective(first.expiry_height as nat, second.expiry_height as nat, 4);
    lemma_le_bytes_injective(first_type as nat, second_type as nat, 4);
    match first_input {
        Some(signing) => {
            lemma_input_preimage_len(first, signing);
            match second_input {
                Some(other) => {
                    lemma_input_fields_unique(
                        first.vin[signing.index].prevout,
                        signing.script_code,
                        signing.amount,
                        first.vin[signing.index].sequence,
                        second.vin[other.index].prevout,
                        other.script_code,
                        other.amount,
                        second.vin[other.index].sequence,
                    );
                },
                None => {},
            }
        },
        None => {
            match second_input {
                Some(other) => {
                    lemma_input_preimage_len(second, other);
                },
                None => {},
            }
        },
    }
}

/// The fields of a signed input take at least 49 bytes.
pub proof fn lemma_input_preimage_len(tx: TransactionView, signing: SigningInput)
    requires
        tx.well_formed(),
        signing.fits(tx),
    ensures
        input_preimage(tx, signing).len() == 36 + prefixed_bytes(signing.script_code).len() + 8
            + 4,
        prefixed_bytes(signing.script_code).len() > signing.script_code.len(),
{
    lemma_le_bytes_len(tx.vin[signing.index].sequence as nat, 4);
    lemma_le_bytes_len(tx.vin[signing.index].prevout.n as nat, 4);
    lemma_le_bytes_len(twos_complement_64(signing.amount), 8);
    lemma_compact_size_shape(signing.script_code.len());
}

/// The fields of a signed input can be read back in one way only.
pub proof fn lemma_input_fields_unique(
    first_prevout: OutPointView,
    first_script: Seq<u8>,
    first_amount: int,
    first_sequence: u32,
    second_prevout: OutPointView,
    second_script: Seq<u8>,
    second_amount: int,
    second_sequence: u32,
)
    requires
        first_prevout.well_formed(),
        second_prevout.well_formed(),
        first_script.len() < 0x1_0000_0000_0000_0000,
        second_script.len() < 0x1_0000_0000_0000_0000,
        -0x8000_0000_0000_0000 <= first_amount < 0x8000_0000_0000_0000,
        -0x8000_0000_0000_0000 <= second_amount < 0x8000_0000_0000_0000,
        input_fields(first_prevout, first_script, first_amount, first_sequence) == input_fields(
            second_prevout,
            second_script,
            second_amount,
            second_sequence,
        ),
    ensures
        first_prevout == second_prevout,
        first_script == second_script,
        first_amount == second_amount,
        first_sequence == second_sequence,
{
    let first_tail = amount_encoding(first_amount) + le_bytes(first_sequence as nat, 4);
    let second_tail = amount_encoding(second_amount) + le_bytes(second_sequence as nat, 4);
    let first_rest = prefixed_bytes(first_script) + first_tail;
    let second_rest = prefixed_bytes(second_script) + second_tail;
    assert(input_fields(first_prevout, first_script, first_amount, first_sequence)
        =~= first_prevout.encoding() + first_rest);
    assert(input_fields(second_prevout, second_script, second_amount, second_sequence)
        =~= second_prevout.encoding() + second_rest);
    first_prevout.lemma_encoding_unique(first_rest, second_prevout, second_rest);
    lemma_prefixed_bytes_unique(first_script, first_tail, second_script, second_tail);
    lemma_le_bytes_len(twos_complement_64(first_amount), 8);
    lemma_le_bytes_len(twos_complement_64(second_amount), 8);
    assert(amount_encoding(first_amount) =~= first_tail.subrange(0, 8));
    assert(amount_encoding(second_amount) =~= second_tail.subrange(0, 8));
    assert(le_bytes(first_sequence as nat, 4) =~= first_tail.skip(8));
    assert(le_bytes(second_sequence as nat, 4) =~= second_tail.skip(8));
    lemma_radix_powers();
    lemma_twos_complement_injective(first_amount, first_amount);
    lemma_twos_complement_injective(second_amount, second_amount);
    lemma_le_bytes_injective(
        twos_complement_64(first_amount),
        twos_complement_64(second_amount),
        8,
    );
    lemma_twos_complement_injective(first_amount, second_amount);
    lemma_le_bytes_injective(first_sequence as nat, second_sequence as nat, 4);
}

} // verus!
