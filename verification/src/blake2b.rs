//! Personalised BLAKE2b-256, on top of the `blake2-rfc` hashing context.

use blake2_rfc::blake2b::Blake2b;
use vstd::prelude::*;

use crate::encoding::le_value;

verus! {

/// Length in bytes of every digest this crate computes.
pub const DIGEST_LENGTH: usize = 32;

/// `blake2_rfc::blake2b::Blake2b`, the hashing context. Nothing of what
/// it holds is visible here.
#[verifier::external_type_specification]
#[verifier::external_body]
pub struct ExBlake2b(Blake2b);

/// The eight parameter words that a hashing context was created with.
/// Nothing is proved of it: the three functions below that call into
/// `blake2-rfc` say what it is after each call.
pub uninterp spec fn context_parameters(context: Blake2b) -> Seq<u64>;

/// All the bytes that a hashing context has been fed so far, in order.
/// Nothing is proved of it either.
pub uninterp spec fn context_input(context: Blake2b) -> Seq<u8>;

/// The BLAKE2b digest of `message` under the parameter block `parameters`,
/// as `blake2-rfc` computes it. This crate does not say what the digest
/// is, only which parameters and which message it is the digest of.
pub uninterp spec fn blake2b_digest(parameters: Seq<u64>, message: Seq<u8>) -> Seq<u8>;

/// The digest length that a parameter block asks for: its lowest byte.
pub open spec fn digest_length(parameters: Seq<u64>) -> nat {
    (parameters[0] % 256) as nat
}

/// The key length that a parameter block declares: its second-lowest byte.
pub open spec fn key_length(parameters: Seq<u64>) -> nat {
    (parameters[0] / 256 % 256) as nat
}

/// Calls `Blake2b::with_parameter_block`, which starts a context from the
/// eight words of a parameter block and has absorbed nothing yet. It
/// panics unless the digest length is between 1 and 64 and the key length
/// at most 64.
#[verifier::external_body]
fn context_with_parameter_block(parameters: &[u64; 8]) -> (context: Blake2b)
    requires
        1 <= digest_length(parameters@) <= 64,
        key_length(parameters@) <= 64,
    ensures
        context_parameters(context) == parameters@,
        context_input(context) == Seq::<u8>::empty(),
{
    Blake2b::with_parameter_block(parameters)
}

/// Calls `Blake2b::update`, which absorbs `data` after what the context
/// holds already. It panics when the count of absorbed bytes would pass
/// `u64::MAX`.
#[verifier::external_body]
fn context_update(context: &mut Blake2b, data: &[u8])
    requires
        context_input(*old(context)).len() + data.len() <= u64::MAX,
    ensures
        context_parameters(*final(context)) == context_parameters(*old(context)),
        context_input(*final(context)) == context_input(*old(context)) + data@,
{
    context.update(data);
}

/// Calls `Blake2b::finalize` and copies out the bytes of its result: the
/// digest of everything absorbed, under the context's parameters, as long
/// as the parameter block says.
#[verifier::external_body]
fn context_finalize(context: Blake2b) -> (digest: Vec<u8>)
    ensures
        digest@ == blake2b_digest(context_parameters(context), context_input(context)),
        digest@.len() == digest_length(context_parameters(context)),
{
    context.finalize().as_bytes().to_vec()
}

/// The 64-bit word that eight bytes spell, least significant byte first.
pub open spec fn le_word(bytes: Seq<u8>) -> u64 {
    le_value(bytes) as u64
}

/// The parameter block of an unkeyed, unsalted, sequential BLAKE2b with a
/// 32-byte digest and the personalisation `personal`: digest length 32, key
/// length 0, fanout and depth 1 in the first word, the personalisation in
/// the last two, zero between.
pub open spec fn personal_parameters(personal: Seq<u8>) -> Seq<u64> {
    seq![
        0x0101_0020u64,
        0u64,
        0u64,
        0u64,
        0u64,
        0u64,
        le_word(personal.subrange(0, 8)),
        le_word(personal.subrange(8, 16)),
    ]
}

/// The 32 bytes of the BLAKE2b digest of `message`, personalised by
/// `personal`, with no key and no salt. The parameter block asks for 32
/// bytes, so these are the whole digest.
pub open spec fn personal_hash(personal: Seq<u8>, message: Seq<u8>) -> Seq<u8> {
    let digest = blake2b_digest(personal_parameters(personal), message);
    Seq::new(DIGEST_LENGTH as nat, |i: int| digest[i])
}

/// Eight bytes read least significant first come to the plain sum of the
/// bytes times their powers of 256, which fits 64 bits.
pub proof fn lemma_le_value_of_eight(bytes: Seq<u8>)
    requires
        bytes.len() == 8,
    ensures
        le_value(bytes) == bytes[0] + 0x100 * bytes[1] + 0x1_0000 * bytes[2] + 0x100_0000
            * bytes[3] + 0x1_0000_0000 * bytes[4] + 0x100_0000_0000 * bytes[5]
            + 0x1_0000_0000_0000 * bytes[6] + 0x100_0000_0000_0000 * bytes[7],
        le_value(bytes) <= u64::MAX,
{
    reveal_with_fuel(le_value, 9);
}

/// Reads the eight bytes of `bytes` from `start` on as a little-endian word.
fn read_word(bytes: &[u8; 16], start: usize) -> (word: u64)
    requires
        start + 8 <= 16,
    ensures
        word == le_word(bytes@.subrange(start as int, start + 8)),
{
    proof {
        lemma_le_value_of_eight(bytes@.subrange(start as int, start + 8));
    }
    let b0: u64 = bytes[start] as u64;
    let b1: u64 = bytes[start + 1] as u64;
    let b2: u64 = bytes[start + 2] as u64;
    let b3: u64 = bytes[start + 3] as u64;
    let b4: u64 = bytes[start + 4] as u64;
    let b5: u64 = bytes[start + 5] as u64;
    let b6: u64 = bytes[start + 6] as u64;
    let b7: u64 = bytes[start + 7] as u64;
    b0 + 0x100 * b1 + 0x1_0000 * b2 + 0x100_0000 * b3 + 0x1_0000_0000 * b4 + 0x100_0000_0000
        * b5 + 0x1_0000_0000_0000 * b6 + 0x100_0000_0000_0000 * b7
}

/// Builds the parameter block for a personalised 32-byte digest.
pub fn parameter_block(personal: &[u8; 16]) -> (block: [u64; 8])
    ensures
        block@ == personal_parameters(personal@),
{
    let low = read_word(personal, 0);
    let high = read_word(personal, 8);
    let block: [u64; 8] = [0x0101_0020, 0, 0, 0, 0, 0, low, high];
    assert(block@ =~= personal_parameters(personal@));
    block
}

/// Hashes `message` with BLAKE2b into 32 bytes under the personalisation
/// `personal`, with an empty key and an empty salt.
pub fn blake2b_personal(personal: &[u8; 16], message: &[u8]) -> (digest: Vec<u8>)
    ensures
        digest@ == personal_hash(personal@, message@),
        digest@.len() == DIGEST_LENGTH,
{
    let block = parameter_block(personal);
    let mut context = context_with_parameter_block(&block);
    context_update(&mut context, message);
    let digest = context_finalize(context);
    assert(digest@ =~= personal_hash(personal@, message@));
    digest
}

} // verus!
