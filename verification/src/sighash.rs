//! The signature hash of an Overwinter transaction.

use vstd::prelude::*;

use crate::blake2b::{blake2b_personal, personal_hash};
use crate::encoding::{le_bytes, lemma_le_bytes_len, prefixed_bytes, write_u32_le, zero_bytes};
use crate::transaction::{
    amount_encoding, Amount, OutPoint, OutPointView, Script, Transaction, TransactionView,
    TxInView, TxOutView, OVERWINTER_VERSION_GROUP_ID,
};

verus! {

/// The first twelve bytes of the personalisation of a signature hash; the
/// consensus branch id fills the other four.
pub const ZCASH_SIGHASH_PERSONALIZATION_PREFIX: [u8; 12] = [
    0x5a, 0x63, 0x61, 0x73, 0x68, 0x53, 0x69, 0x67, 0x48, 0x61, 0x73, 0x68,
];

/// Personalisation of the hash over the inputs' outpoints.
pub const ZCASH_PREVOUTS_HASH_PERSONALIZATION: [u8; 16] = [
    0x5a, 0x63, 0x61, 0x73, 0x68, 0x50, 0x72, 0x65, 0x76, 0x6f, 0x75, 0x74, 0x48, 0x61, 0x73, 0x68,
];

/// Personalisation of the hash over the inputs' sequence numbers.
pub const ZCASH_SEQUENCE_HASH_PERSONALIZATION: [u8; 16] = [
    0x5a, 0x63, 0x61, 0x73, 0x68, 0x53, 0x65, 0x71, 0x75, 0x65, 0x6e, 0x63, 0x48, 0x61, 0x73, 0x68,
];

/// Personalisation of the hash over outputs.
pub const ZCASH_OUTPUTS_HASH_PERSONALIZATION: [u8; 16] = [
    0x5a, 0x63, 0x61, 0x73, 0x68, 0x4f, 0x75, 0x74, 0x70, 0x75, 0x74, 0x73, 0x48, 0x61, 0x73, 0x68,
];

/// Personalisation of the hash over the JoinSplit descriptions.
pub const ZCASH_JOINSPLITS_HASH_PERSONALIZATION: [u8; 16] = [
    0x5a, 0x63, 0x61, 0x73, 0x68, 0x4a, 0x53, 0x70, 0x6c, 0x69, 0x74, 0x73, 0x48, 0x61, 0x73, 0x68,
];

/// Hash type that commits to every input and every output.
pub const SIGHASH_ALL: u32 = 1;

/// Hash type that commits to no output.
pub const SIGHASH_NONE: u32 = 2;

/// Hash type that commits to the one output beside the signed input.
pub const SIGHASH_SINGLE: u32 = 3;

/// The bits of a hash type that hold its base type.
pub const SIGHASH_MASK: u32 = 0x1f;

/// The bit of a hash type that leaves the other inputs free.
pub const SIGHASH_ANYONECANPAY: u32 = 0x80;

/// Which revision of the signature hash a transaction calls for.
#[derive(Clone, Copy, Debug, PartialEq, Eq, Structural)]
pub enum SigHashVersion {
    /// The hash of transactions from before Overwinter, which this crate
    /// does not compute.
    Sprout,
    /// The hash of overwintered transactions.
    Overwinter,
}

/// Why no signature hash was computed.
#[derive(Clone, Copy, Debug, PartialEq, Eq, Structural)]
pub enum SigHashError {
    /// The transaction calls for the hash of before Overwinter, or names a
    /// version group that is not known.
    UnsupportedAlgorithmVersion,
}

/// Which outputs a hash type commits to.
#[derive(Clone, Copy, Debug, PartialEq, Eq, Structural)]
pub enum OutputsMode {
    /// All of them.
    All,
    /// The one at the index of the signed input, if there is one.
    Single,
    /// No output.
    Omitted,
}

/// What a hash type commits to.
#[derive(Clone, Copy, Debug, PartialEq, Eq, Structural)]
pub struct HashTypeFlags {
    /// Whether the outpoints of all inputs are committed to.
    pub prevouts: bool,
    /// Whether the sequence numbers of all inputs are committed to.
    pub sequence: bool,
    /// Which outputs are committed to.
    pub outputs: OutputsMode,
}

/// The input that a signature is made for: its index among the
/// transaction's inputs, the script code, and the amount it spends.
pub struct SigningInput {
    pub index: int,
    pub script_code: Seq<u8>,
    pub amount: int,
}

impl SigningInput {
    /// Whether this can be the signed input of `tx`: the index names one
    /// of its inputs, the amount fits a signed 64-bit integer and the
    /// script code's length an unsigned one.
    pub open spec fn fits(self, tx: TransactionView) -> bool {
        &&& 0 <= self.index < tx.vin.len()
        &&& -0x8000_0000_0000_0000 <= self.amount < 0x8000_0000_0000_0000
        &&& self.script_code.len() < 0x1_0000_0000_0000_0000
    }
}

/// What the optional argument of [`signature_hash`] stands for.
pub open spec fn signing_input(input: Option<(usize, Script, Amount)>) -> Option<SigningInput> {
    match input {
        Some(given) => Some(
            SigningInput { index: given.0 as int, script_code: given.1@, amount: given.2@ },
        ),
        None => None,
    }
}

/// The base type of a hash type: its low five bits.
pub open spec fn base_type(hash_type: u32) -> u32 {
    hash_type & SIGHASH_MASK
}

/// Whether a hash type leaves the other inputs free.
pub open spec fn anyone_can_pay(hash_type: u32) -> bool {
    hash_type & SIGHASH_ANYONECANPAY != 0
}

/// The outputs that a hash type commits to. Its base type alone decides:
/// none for NONE, one for SINGLE, all for every other value.
pub open spec fn outputs_mode(hash_type: u32) -> OutputsMode {
    if base_type(hash_type) == SIGHASH_NONE {
        OutputsMode::Omitted
    } else if base_type(hash_type) == SIGHASH_SINGLE {
        OutputsMode::Single
    } else {
        OutputsMode::All
    }
}

/// What a hash type commits to. The outpoints are left out under
/// ANYONECANPAY; the sequence numbers under ANYONECANPAY, NONE and SINGLE.
pub open spec fn hash_type_flags(hash_type: u32) -> HashTypeFlags {
    HashTypeFlags {
        prevouts: !anyone_can_pay(hash_type),
        sequence: !anyone_can_pay(hash_type) && outputs_mode(hash_type) == OutputsMode::All,
        outputs: outputs_mode(hash_type),
    }
}

/// The revision that a transaction calls for, where it names one: an
/// overwintered transaction of the Overwinter version group calls for
/// Overwinter's, one that is not overwintered for Sprout's.
pub open spec fn sighash_version(tx: TransactionView) -> Option<SigHashVersion> {
    if !tx.overwintered {
        Some(SigHashVersion::Sprout)
    } else if tx.version_group_id == OVERWINTER_VERSION_GROUP_ID {
        Some(SigHashVersion::Overwinter)
    } else {
        None
    }
}

/// The outpoints of `inputs`, encoded one after the other.
pub open spec fn prevouts_encoding(inputs: Seq<TxInView>) -> Seq<u8>
    decreases inputs.len(),
{
    if inputs.len() == 0 {
        Seq::empty()
    } else {
        prevouts_encoding(inputs.drop_last()) + inputs.last().prevout.encoding()
    }
}

/// The sequence numbers of `inputs`, four little-endian bytes each.
pub open spec fn sequences_encoding(inputs: Seq<TxInView>) -> Seq<u8>
    decreases inputs.len(),
{
    if inputs.len() == 0 {
        Seq::empty()
    } else {
        sequences_encoding(inputs.drop_last()) + le_bytes(inputs.last().sequence as nat, 4)
    }
}

/// The encodings of `outputs`, one after the other.
pub open spec fn outputs_encoding(outputs: Seq<TxOutView>) -> Seq<u8>
    decreases outputs.len(),
{
    if outputs.len() == 0 {
        Seq::empty()
    } else {
        outputs_encoding(outputs.drop_last()) + outputs.last().encoding()
    }
}

/// The byte strings of `parts`, one after the other.
pub open spec fn concatenation(parts: Seq<Seq<u8>>) -> Seq<u8>
    decreases parts.len(),
{
    if parts.len() == 0 {
        Seq::empty()
    } else {
        concatenation(parts.drop_last()) + parts.last()
    }
}

/// The digest over the outpoints of all inputs.
pub open spec fn prevouts_digest(tx: TransactionView) -> Seq<u8> {
    personal_hash(ZCASH_PREVOUTS_HASH_PERSONALIZATION@, prevouts_encoding(tx.vin))
}

/// The digest over the sequence numbers of all inputs.
pub open spec fn sequence_digest(tx: TransactionView) -> Seq<u8> {
    personal_hash(ZCASH_SEQUENCE_HASH_PERSONALIZATION@, sequences_encoding(tx.vin))
}

/// The digest over `outputs`.
pub open spec fn outputs_digest(outputs: Seq<TxOutView>) -> Seq<u8> {
    personal_hash(ZCASH_OUTPUTS_HASH_PERSONALIZATION@, outputs_encoding(outputs))
}

/// The digest over the JoinSplit descriptions and, behind them, the
/// JoinSplit public key.
pub open spec fn joinsplits_digest(tx: TransactionView) -> Seq<u8> {
    personal_hash(
        ZCASH_JOINSPLITS_HASH_PERSONALIZATION@,
        concatenation(tx.joinsplits) + tx.joinsplit_pubkey,
    )
}

/// A digest where it is committed to, 32 zero bytes in its place where it
/// is not.
pub open spec fn commitment(included: bool, digest: Seq<u8>) -> Seq<u8> {
    if included {
        digest
    } else {
        zero_bytes(32)
    }
}

/// The 32 bytes that stand for the outputs: the digest over all of them,
/// over the one at the signed input's index where SINGLE is asked for and
/// that output exists, and zero bytes otherwise.
pub open spec fn outputs_commitment(
    tx: TransactionView,
    hash_type: u32,
    input: Option<SigningInput>,
) -> Seq<u8> {
    match outputs_mode(hash_type) {
        OutputsMode::All => outputs_digest(tx.vout),
        OutputsMode::Single => match input {
            Some(signing) => commitment(
                signing.index < tx.vout.len(),
                outputs_digest(seq![tx.vout[signing.index]]),
            ),
            None => zero_bytes(32),
        },
        OutputsMode::Omitted => zero_bytes(32),
    }
}

/// The fields that every signature hash covers, in their order: header,
/// version group, the four commitments, lock time, expiry height and hash
/// type, each integer in four little-endian bytes.
pub open spec fn common_fields(
    header: u32,
    version_group_id: u32,
    hash_prevouts: Seq<u8>,
    hash_sequence: Seq<u8>,
    hash_outputs: Seq<u8>,
    hash_joinsplits: Seq<u8>,
    lock_time: u32,
    expiry_height: u32,
    hash_type: u32,
) -> Seq<u8> {
    le_bytes(header as nat, 4) + le_bytes(version_group_id as nat, 4) + hash_prevouts
        + hash_sequence + hash_outputs + hash_joinsplits + le_bytes(lock_time as nat, 4)
        + le_bytes(expiry_height as nat, 4) + le_bytes(hash_type as nat, 4)
}

/// The fields that the signed input adds: its outpoint, the script code
/// behind its length prefix, the amount, and its sequence number.
pub open spec fn input_fields(
    prevout: OutPointView,
    script_code: Seq<u8>,
    amount: int,
    sequence: u32,
) -> Seq<u8> {
    prevout.encoding() + prefixed_bytes(script_code) + amount_encoding(amount) + le_bytes(
        sequence as nat,
        4,
    )
}

/// The 148 bytes that every signature hash of `tx` starts from.
pub open spec fn common_preimage(
    tx: TransactionView,
    hash_type: u32,
    input: Option<SigningInput>,
) -> Seq<u8> {
    common_fields(
        tx.header(),
        tx.version_group_id,
        commitment(hash_type_flags(hash_type).prevouts, prevouts_digest(tx)),
        commitment(hash_type_flags(hash_type).sequence, sequence_digest(tx)),
        outputs_commitment(tx, hash_type, input),
        commitment(tx.joinsplits.len() > 0, joinsplits_digest(tx)),
        tx.lock_time,
        tx.expiry_height,
        hash_type,
    )
}

/// What the signed input adds. The outpoint and the sequence number are
/// those that the transaction holds at the input's index.
pub open spec fn input_preimage(tx: TransactionView, signing: SigningInput) -> Seq<u8> {
    input_fields(
        tx.vin[signing.index].prevout,
        signing.script_code,
        signing.amount,
        tx.vin[signing.index].sequence,
    )
}

/// Everything that a signature hash is the digest of.
pub open spec fn sighash_preimage(
    tx: TransactionView,
    hash_type: u32,
    input: Option<SigningInput>,
) -> Seq<u8> {
    match input {
        Some(signing) => common_preimage(tx, hash_type, input) + input_preimage(tx, signing),
        None => common_preimage(tx, hash_type, input),
    }
}

/// The personalisation of a signature hash under a consensus branch.
pub open spec fn sighash_personalization(consensus_branch_id: u32) -> Seq<u8> {
    ZCASH_SIGHASH_PERSONALIZATION_PREFIX@ + le_bytes(consensus_branch_id as nat, 4)
}

/// The signature hash of an Overwinter transaction.
pub open spec fn signature_digest(
    tx: TransactionView,
    consensus_branch_id: u32,
    hash_type: u32,
    input: Option<SigningInput>,
) -> Seq<u8> {
    personal_hash(
        sighash_personalization(consensus_branch_id),
        sighash_preimage(tx, hash_type, input),
    )
}

/// What [`signature_hash`] returns: the signature hash for a transaction
/// that calls for Overwinter's revision, the error for every other.
pub open spec fn signature_hash_outcome(
    tx: TransactionView,
    consensus_branch_id: u32,
    hash_type: u32,
    input: Option<SigningInput>,
) -> Result<Seq<u8>, SigHashError> {
    if sighash_version(tx) == Some(SigHashVersion::Overwinter) {
        Ok(signature_digest(tx, consensus_branch_id, hash_type, input))
    } else {
        Err(SigHashError::UnsupportedAlgorithmVersion)
    }
}

/// A result of [`signature_hash`] with the digest as a sequence of bytes.
pub open spec fn outcome(result: Result<Vec<u8>, SigHashError>) -> Result<Seq<u8>, SigHashError> {
    match result {
        Ok(digest) => Ok(digest@),
        Err(error) => Err(error),
    }
}

/// Decodes a hash type into what it commits to.
pub fn interpret_hash_type(hash_type: u32) -> (flags: HashTypeFlags)
    ensures
        flags == hash_type_flags(hash_type),
{
    let base: u32 = hash_type & SIGHASH_MASK;
    let others_free = hash_type & SIGHASH_ANYONECANPAY != 0;
    if base == SIGHASH_NONE {
        HashTypeFlags { prevouts: !others_free, sequence: false, outputs: OutputsMode::Omitted }
    } else if base == SIGHASH_SINGLE {
        HashTypeFlags { prevouts: !others_free, sequence: false, outputs: OutputsMode::Single }
    } else {
        HashTypeFlags { prevouts: !others_free, sequence: !others_free, outputs: OutputsMode::All }
    }
}

impl SigHashVersion {
    /// The revision of the signature hash that `tx` calls for, or the
    /// error where its version group is not known.
    pub fn from_tx(tx: &Transaction) -> (result: Result<SigHashVersion, SigHashError>)
        ensures
            result == match sighash_version(tx@) {
                Some(version) => Ok::<SigHashVersion, SigHashError>(version),
                None => Err(SigHashError::UnsupportedAlgorithmVersion),
            },
    {
        if tx.overwintered {
            if tx.version_group_id == OVERWINTER_VERSION_GROUP_ID {
                Ok(SigHashVersion::Overwinter)
            } else {
                Err(SigHashError::UnsupportedAlgorithmVersion)
            }
        } else {
            Ok(SigHashVersion::Sprout)
        }
    }
}

/// The digest over the outpoints of all inputs of `tx`.
pub fn prevout_hash(tx: &Transaction) -> (digest: Vec<u8>)
    ensures
        digest@ == prevouts_digest(tx@),
        digest@.len() == 32,
{
    let mut data: Vec<u8> = Vec::new();
    let mut i: usize = 0;
    while i < tx.vin.len()
        invariant
            i <= tx.vin.len(),
            data@ == prevouts_encoding(tx@.vin.take(i as int)),
        decreases tx.vin.len() - i,
    {
        tx.vin[i].prevout.write(&mut data);
        proof {
            assert(tx@.vin.take(i + 1).drop_last() =~= tx@.vin.take(i as int));
        }
        i += 1;
    }
    proof {
        assert(tx@.vin.take(i as int) =~= tx@.vin);
    }
    blake2b_personal(&ZCASH_PREVOUTS_HASH_PERSONALIZATION, data.as_slice())
}

/// The digest over the sequence numbers of all inputs of `tx`.
pub fn sequence_hash(tx: &Transaction) -> (digest: Vec<u8>)
    ensures
        digest@ == sequence_digest(tx@),
        digest@.len() == 32,
{
    let mut data: Vec<u8> = Vec::new();
    let mut i: usize = 0;
    while i < tx.vin.len()
        invariant
            i <= tx.vin.len(),
            data@ == sequences_encoding(tx@.vin.take(i as int)),
        decreases tx.vin.len() - i,
    {
        write_u32_le(&mut data, tx.vin[i].sequence);
        proof {
            assert(tx@.vin.take(i + 1).drop_last() =~= tx@.vin.take(i as int));
        }
        i += 1;
    }
    proof {
        assert(tx@.vin.take(i as int) =~= tx@.vin);
    }
    blake2b_personal(&ZCASH_SEQUENCE_HASH_PERSONALIZATION, data.as_slice())
}

/// The digest over all outputs of `tx`.
pub fn outputs_hash(tx: &Transaction) -> (digest: Vec<u8>)
    ensures
        digest@ == outputs_digest(tx@.vout),
        digest@.len() == 32,
{
    let mut data: Vec<u8> = Vec::new();
    let mut i: usize = 0;
    while i < tx.vout.len()
        invariant
            i <= tx.vout.len(),
            data@ == outputs_encoding(tx@.vout.take(i as int)),
        decreases tx.vout.len() - i,
    {
        tx.vout[i].write(&mut data);
        proof {
            assert(tx@.vout.take(i + 1).drop_last() =~= tx@.vout.take(i as int));
        }
        i += 1;
    }
    proof {
        assert(tx@.vout.take(i as int) =~= tx@.vout);
    }
    blake2b_personal(&ZCASH_OUTPUTS_HASH_PERSONALIZATION, data.as_slice())
}

/// The digest over the one output of `tx` at `index`.
pub fn single_output_hash(tx: &Transaction, index: usize) -> (digest: Vec<u8>)
    requires
        index < tx.vout.len(),
    ensures
        digest@ == outputs_digest(seq![tx@.vout[index as int]]),
        digest@.len() == 32,
{
    let mut data: Vec<u8> = Vec::new();
    tx.vout[index].write(&mut data);
    proof {
        let one = seq![tx@.vout[index as int]];
        assert(one.drop_last() =~= Seq::<TxOutView>::empty());
        assert(outputs_encoding(one.drop_last()) =~= Seq::<u8>::empty());
        assert(outputs_encoding(one) =~= one.last().encoding());
        assert(data@ =~= outputs_encoding(one));
    }
    blake2b_personal(&ZCASH_OUTPUTS_HASH_PERSONALIZATION, data.as_slice())
}

/// The digest over the JoinSplit descriptions of `tx` and its JoinSplit
/// public key.
pub fn joinsplits_hash(tx: &Transaction) -> (digest: Vec<u8>)
    ensures
        digest@ == joinsplits_digest(tx@),
        digest@.len() == 32,
{
    let mut data: Vec<u8> = Vec::new();
    let mut i: usize = 0;
    while i < tx.joinsplits.len()
        invariant
            i <= tx.joinsplits.len(),
            data@ == concatenation(tx@.joinsplits.take(i as int)),
        decreases tx.joinsplits.len() - i,
    {
        tx.joinsplits[i].write(&mut data);
        proof {
            assert(tx@.joinsplits.take(i + 1).drop_last() =~= tx@.joinsplits.take(i as int));
        }
        i += 1;
    }
    proof {
        assert(tx@.joinsplits.take(i as int) =~= tx@.joinsplits);
    }
    data.extend_from_slice(tx.joinsplit_pubkey.as_slice());
    assert(data@ =~= concatenation(tx@.joinsplits) + tx@.joinsplit_pubkey);
    blake2b_personal(&ZCASH_JOINSPLITS_HASH_PERSONALIZATION, data.as_slice())
}

/// Builds the personalisation of a signature hash under a consensus branch.
pub fn personalization(consensus_branch_id: u32) -> (personal: [u8; 16])
    ensures
        personal@ == sighash_personalization(consensus_branch_id),
{
    let prefix = ZCASH_SIGHASH_PERSONALIZATION_PREFIX;
    let mut branch: Vec<u8> = Vec::new();
    write_u32_le(&mut branch, consensus_branch_id);
    proof {
        lemma_le_bytes_len(consensus_branch_id as nat, 4);
    }
    let personal: [u8; 16] = [
        prefix[0],
        prefix[1],
        prefix[2],
        prefix[3],
        prefix[4],
        prefix[5],
        prefix[6],
        prefix[7],
        prefix[8],
        prefix[9],
        prefix[10],
        prefix[11],
        branch[0],
        branch[1],
        branch[2],
        branch[3],
    ];
    assert(personal@ =~= sighash_personalization(consensus_branch_id));
    personal
}

/// Thirty-two zero bytes: what stands in the place of a digest that is
/// not committed to.
pub fn zero_hash() -> (zeros: Vec<u8>)
    ensures
        zeros@ == zero_bytes(32),
{
    let zeros: Vec<u8> = vec![0u8; 32];
    assert(zeros@ =~= zero_bytes(32));
    zeros
}

/// The 32 bytes that stand for the outputs of `tx` under `mode`.
pub fn outputs_commitment_hash(
    tx: &Transaction,
    mode: OutputsMode,
    transparent_input: &Option<(usize, Script, Amount)>,
) -> (bytes: Vec<u8>)
    ensures
        bytes@ == match mode {
            OutputsMode::All => outputs_digest(tx@.vout),
            OutputsMode::Single => match signing_input(*transparent_input) {
                Some(signing) => commitment(
                    signing.index < tx@.vout.len(),
                    outputs_digest(seq![tx@.vout[signing.index]]),
                ),
                None => zero_bytes(32),
            },
            OutputsMode::Omitted => zero_bytes(32),
        },
        bytes@.len() == 32,
{
    match mode {
        OutputsMode::All => outputs_hash(tx),
        OutputsMode::Single => {
            match transparent_input {
                Some(given) => {
                    if given.0 < tx.vout.len() {
                        single_output_hash(tx, given.0)
                    } else {
                        zero_hash()
                    }
                },
                None => zero_hash(),
            }
        },
        OutputsMode::Omitted => zero_hash(),
    }
}

/// Appends to `out` the fields that every signature hash covers.
pub fn write_common_fields(
    out: &mut Vec<u8>,
    header: u32,
    version_group_id: u32,
    hash_prevouts: &[u8],
    hash_sequence: &[u8],
    hash_outputs: &[u8],
    hash_joinsplits: &[u8],
    lock_time: u32,
    expiry_height: u32,
    hash_type: u32,
)
    ensures
        final(out)@ == old(out)@ + common_fields(
            header,
            version_group_id,
            hash_prevouts@,
            hash_sequence@,
            hash_outputs@,
            hash_joinsplits@,
            lock_time,
            expiry_height,
            hash_type,
        ),
{
    write_u32_le(out, header);
    write_u32_le(out, version_group_id);
    out.extend_from_slice(hash_prevouts);
    out.extend_from_slice(hash_sequence);
    out.extend_from_slice(hash_outputs);
    out.extend_from_slice(hash_joinsplits);
    write_u32_le(out, lock_time);
    write_u32_le(out, expiry_height);
    write_u32_le(out, hash_type);
    assert(out@ =~= old(out)@ + common_fields(
        header,
        version_group_id,
        hash_prevouts@,
        hash_sequence@,
        hash_outputs@,
        hash_joinsplits@,
        lock_time,
        expiry_height,
        hash_type,
    ));
}

/// Appends to `out` the fields that the signed input adds.
pub fn write_input_fields(
    out: &mut Vec<u8>,
    prevout: &OutPoint,
    script_code: &Script,
    amount: Amount,
    sequence: u32,
)
    ensures
        final(out)@ == old(out)@ + input_fields(prevout@, script_code@, amount@, sequence),
{
    prevout.write(out);
    script_code.write(out);
    amount.write(out);
    write_u32_le(out, sequence);
    assert(out@ =~= old(out)@ + input_fields(prevout@, script_code@, amount@, sequence));
}

/// Builds the bytes that the signature hash of `tx` is the digest of. The
/// index in `transparent_input` must name an input of `tx`.
pub fn signature_hash_preimage(
    tx: &Transaction,
    hash_type: u32,
    transparent_input: &Option<(usize, Script, Amount)>,
) -> (preimage: Vec<u8>)
    requires
        transparent_input matches Some(given) ==> given.0 < tx.vin.len(),
    ensures
        preimage@ == sighash_preimage(tx@, hash_type, signing_input(*transparent_input)),
{
    let flags = interpret_hash_type(hash_type);
    let hash_prevouts = if flags.prevouts {
        prevout_hash(tx)
    } else {
        zero_hash()
    };
    let hash_sequence = if flags.sequence {
        sequence_hash(tx)
    } else {
        zero_hash()
    };
    let hash_outputs = outputs_commitment_hash(tx, flags.outputs, transparent_input);
    let hash_joinsplits = if !tx.joinsplits.is_empty() {
        joinsplits_hash(tx)
    } else {
        zero_hash()
    };
    let mut data: Vec<u8> = Vec::new();
    write_common_fields(
        &mut data,
        tx.header(),
        tx.version_group_id,
        hash_prevouts.as_slice(),
        hash_sequence.as_slice(),
        hash_outputs.as_slice(),
        hash_joinsplits.as_slice(),
        tx.lock_time,
        tx.expiry_height,
        hash_type,
    );
    assert(data@ =~= common_preimage(tx@, hash_type, signing_input(*transparent_input)));
    match transparent_input {
        Some(given) => {
            let input = &tx.vin[given.0];
            write_input_fields(&mut data, &input.prevout, &given.1, given.2, input.sequence);
        },
        None => {},
    }
    data
}

/// Computes the signature hash of `tx` under the consensus branch
/// `consensus_branch_id` for the hash type `hash_type`. With
/// `transparent_input` the hash is the one that the signature of that
/// input covers; the index in it must name an input of `tx`.
///
/// Only Overwinter's revision of the hash is computed: for every other
/// transaction the result is the error.
pub fn signature_hash(
    tx: &Transaction,
    consensus_branch_id: u32,
    hash_type: u32,
    transparent_input: Option<(usize, Script, Amount)>,
) -> (result: Result<Vec<u8>, SigHashError>)
    requires
        transparent_input matches Some(given) ==> given.0 < tx.vin.len(),
    ensures
        outcome(result) == signature_hash_outcome(
            tx@,
            consensus_branch_id,
            hash_type,
            signing_input(transparent_input),
        ),
        result matches Ok(digest) ==> digest@.len() == 32,
{
    match SigHashVersion::from_tx(tx) {
        Ok(SigHashVersion::Overwinter) => {
            let data = signature_hash_preimage(tx, hash_type, &transparent_input);
            let personal = personalization(consensus_branch_id);
            Ok(blake2b_personal(&personal, data.as_slice()))
        },
        _ => Err(SigHashError::UnsupportedAlgorithmVersion),
    }
}

} // verus!
