//! Little-endian integers and length prefixes, as they stand on the wire.

use byteorder::{LittleEndian, WriteBytesExt};
use vstd::prelude::*;

verus! {

/// The `width` low-order bytes of `value`, least significant byte first.
pub open spec fn le_bytes(value: nat, width: nat) -> Seq<u8>
    decreases width,
{
    if width == 0 {
        Seq::empty()
    } else {
        seq![(value % 256) as u8] + le_bytes(value / 256, (width - 1) as nat)
    }
}

/// The number that `bytes` spell when read least significant byte first.
pub open spec fn le_value(bytes: Seq<u8>) -> nat
    decreases bytes.len(),
{
    if bytes.len() == 0 {
        0
    } else {
        bytes[0] as nat + 256 * le_value(bytes.drop_first())
    }
}

/// The unsigned 64-bit number with the same two's complement bits as `value`.
pub open spec fn twos_complement_64(value: int) -> nat {
    if value >= 0 {
        value as nat
    } else {
        (value + 0x1_0000_0000_0000_0000) as nat
    }
}

/// 256 to the power `width`: how many numbers `width` bytes can spell.
pub open spec fn radix_power(width: nat) -> nat
    decreases width,
{
    if width == 0 {
        1
    } else {
        256 * radix_power((width - 1) as nat)
    }
}

/// The powers of 256 for the widths that occur on the wire.
pub proof fn lemma_radix_powers()
    ensures
        radix_power(1) == 0x100,
        radix_power(2) == 0x1_0000,
        radix_power(4) == 0x1_0000_0000,
        radix_power(8) == 0x1_0000_0000_0000_0000,
{
    reveal_with_fuel(radix_power, 9);
}

/// Reading back the bytes of a number that fits in them gives the number.
pub proof fn lemma_le_value_of_le_bytes(value: nat, width: nat)
    requires
        value < radix_power(width),
    ensures
        le_value(le_bytes(value, width)) == value,
    decreases width,
{
    if width > 0 {
        let rest = le_bytes(value / 256, (width - 1) as nat);
        lemma_le_value_of_le_bytes(value / 256, (width - 1) as nat);
        assert(le_bytes(value, width).drop_first() =~= rest);
    }
}

/// Two numbers that fit in `width` bytes and have the same bytes are the
/// same number.
pub proof fn lemma_le_bytes_injective(first: nat, second: nat, width: nat)
    requires
        first < radix_power(width),
        second < radix_power(width),
        le_bytes(first, width) == le_bytes(second, width),
    ensures
        first == second,
{
    lemma_le_value_of_le_bytes(first, width);
    lemma_le_value_of_le_bytes(second, width);
}

/// Four bytes read least significant first come to the plain sum of the
/// bytes times their powers of 256.
pub proof fn lemma_le_value_of_four(bytes: Seq<u8>)
    requires
        bytes.len() == 4,
    ensures
        le_value(bytes) == bytes[0] + 0x100 * bytes[1] + 0x1_0000 * bytes[2] + 0x100_0000
            * bytes[3],
{
    reveal_with_fuel(le_value, 5);
}

/// A number in `width` bytes takes `width` bytes.
pub proof fn lemma_le_bytes_len(value: nat, width: nat)
    ensures
        le_bytes(value, width).len() == width,
    decreases width,
{
    if width > 0 {
        lemma_le_bytes_len(value / 256, (width - 1) as nat);
    }
}

/// Calls `byteorder::WriteBytesExt::write_u16::<LittleEndian>` on a vector.
/// The vector grows by the two bytes of `value`, low byte first; writing to
/// a vector cannot fail.
#[verifier::external_body]
pub(crate) fn write_u16_le(out: &mut Vec<u8>, value: u16)
    ensures
        final(out)@ == old(out)@ + le_bytes(value as nat, 2),
{
    let _ = out.write_u16::<LittleEndian>(value);
}

/// Calls `byteorder::WriteBytesExt::write_u32::<LittleEndian>` on a vector.
/// The vector grows by the four bytes of `value`, low byte first.
#[verifier::external_body]
pub(crate) fn write_u32_le(out: &mut Vec<u8>, value: u32)
    ensures
        final(out)@ == old(out)@ + le_bytes(value as nat, 4),
{
    let _ = out.write_u32::<LittleEndian>(value);
}

/// Calls `byteorder::WriteBytesExt::write_u64::<LittleEndian>` on a vector.
/// The vector grows by the eight bytes of `value`, low byte first.
#[verifier::external_body]
pub(crate) fn write_u64_le(out: &mut Vec<u8>, value: u64)
    ensures
        final(out)@ == old(out)@ + le_bytes(value as nat, 8),
{
    let _ = out.write_u64::<LittleEndian>(value);
}

/// Calls `byteorder::WriteBytesExt::write_i64::<LittleEndian>` on a vector.
/// The vector grows by the eight bytes of the two's complement form of
/// `value`, low byte first.
#[verifier::external_body]
pub(crate) fn write_i64_le(out: &mut Vec<u8>, value: i64)
    ensures
        final(out)@ == old(out)@ + le_bytes(twos_complement_64(value as int), 8),
{
    let _ = out.write_i64::<LittleEndian>(value);
}

/// The length prefix for `count` items: one byte below 253, else a marker
/// byte (253, 254 or 255) and the count in two, four or eight bytes, the
/// shortest form that holds it.
pub open spec fn compact_size(count: nat) -> Seq<u8> {
    if count < 253 {
        seq![count as u8]
    } else if count <= 0xFFFF {
        seq![253u8] + le_bytes(count, 2)
    } else if count <= 0xFFFF_FFFF {
        seq![254u8] + le_bytes(count, 4)
    } else {
        seq![255u8] + le_bytes(count, 8)
    }
}

/// A byte string behind its length prefix.
pub open spec fn prefixed_bytes(bytes: Seq<u8>) -> Seq<u8> {
    compact_size(bytes.len()) + bytes
}

/// `length` zero bytes.
pub open spec fn zero_bytes(length: nat) -> Seq<u8> {
    Seq::new(length, |i: int| 0u8)
}

/// How many bytes the length prefix for `count` items takes.
pub open spec fn compact_size_len(count: nat) -> nat {
    if count < 253 {
        1
    } else if count <= 0xFFFF {
        3
    } else if count <= 0xFFFF_FFFF {
        5
    } else {
        9
    }
}

/// A length prefix takes one, three, five or nine bytes, and its first
/// byte tells which: the count itself below 253, else the marker.
pub proof fn lemma_compact_size_shape(count: nat)
    ensures
        compact_size(count).len() == compact_size_len(count),
        compact_size(count)[0] == if count < 253 {
            count as u8
        } else if count <= 0xFFFF {
            253u8
        } else if count <= 0xFFFF_FFFF {
            254u8
        } else {
            255u8
        },
{
    lemma_le_bytes_len(count, 2);
    lemma_le_bytes_len(count, 4);
    lemma_le_bytes_len(count, 8);
}

/// Two counts below 2^64 with the same length prefix are the same count.
pub proof fn lemma_compact_size_injective(first: nat, second: nat)
    requires
        first < 0x1_0000_0000_0000_0000,
        second < 0x1_0000_0000_0000_0000,
        compact_size(first) == compact_size(second),
    ensures
        first == second,
{
    lemma_compact_size_shape(first);
    lemma_compact_size_shape(second);
    lemma_radix_powers();
    if first < 253 {
    } else if first <= 0xFFFF {
        assert(le_bytes(first, 2) =~= compact_size(first).skip(1));
        assert(le_bytes(second, 2) =~= compact_size(second).skip(1));
        lemma_le_bytes_injective(first, second, 2);
    } else if first <= 0xFFFF_FFFF {
        assert(le_bytes(first, 4) =~= compact_size(first).skip(1));
        assert(le_bytes(second, 4) =~= compact_size(second).skip(1));
        lemma_le_bytes_injective(first, second, 4);
    } else {
        assert(le_bytes(first, 8) =~= compact_size(first).skip(1));
        assert(le_bytes(second, 8) =~= compact_size(second).skip(1));
        lemma_le_bytes_injective(first, second, 8);
    }
}

/// A byte string behind its length prefix can be read back from the front
/// of a longer string in one way only: where two such strings, each
/// followed by more bytes, come to the same bytes, the two strings are the
/// same and so is what follows them.
pub proof fn lemma_prefixed_bytes_unique(
    first: Seq<u8>,
    first_rest: Seq<u8>,
    second: Seq<u8>,
    second_rest: Seq<u8>,
)
    requires
        first.len() < 0x1_0000_0000_0000_0000,
        second.len() < 0x1_0000_0000_0000_0000,
        prefixed_bytes(first) + first_rest == prefixed_bytes(second) + second_rest,
    ensures
        first == second,
        first_rest == second_rest,
{
    let first_size = compact_size(first.len());
    let second_size = compact_size(second.len());
    let whole = prefixed_bytes(first) + first_rest;
    lemma_compact_size_shape(first.len());
    lemma_compact_size_shape(second.len());
    assert(whole[0] == first_size[0]);
    assert((prefixed_bytes(second) + second_rest)[0] == second_size[0]);
    let width = compact_size_len(first.len()) as int;
    assert(compact_size_len(second.len()) == width);
    assert(first_size =~= whole.subrange(0, width));
    assert(second_size =~= (prefixed_bytes(second) + second_rest).subrange(0, width));
    lemma_compact_size_injective(first.len(), second.len());
    let end = width + first.len();
    assert(first =~= whole.subrange(width, end));
    assert(second =~= (prefixed_bytes(second) + second_rest).subrange(width, end));
    assert(first_rest =~= whole.skip(end));
    assert(second_rest =~= (prefixed_bytes(second) + second_rest).skip(end));
}

/// Two numbers in the range of a signed 64-bit integer with the same two's
/// complement form are the same number.
pub proof fn lemma_twos_complement_injective(first: int, second: int)
    requires
        -0x8000_0000_0000_0000 <= first < 0x8000_0000_0000_0000,
        -0x8000_0000_0000_0000 <= second < 0x8000_0000_0000_0000,
        twos_complement_64(first) == twos_complement_64(second),
    ensures
        first == second,
        twos_complement_64(first) < 0x1_0000_0000_0000_0000,
{
}

/// Appends the length prefix for `count` items to `out`.
pub fn write_compact_size(out: &mut Vec<u8>, count: usize)
    ensures
        final(out)@ == old(out)@ + compact_size(count as nat),
{
    let wide: u64 = count as u64;
    if wide < 253 {
        out.push(wide as u8);
        assert(out@ =~= old(out)@ + compact_size(count as nat));
    } else if wide <= 0xFFFF {
        out.push(253);
        write_u16_le(out, wide as u16);
        assert(out@ =~= old(out)@ + compact_size(count as nat));
    } else if wide <= 0xFFFF_FFFF {
        out.push(254);
        write_u32_le(out, wide as u32);
        assert(out@ =~= old(out)@ + compact_size(count as nat));
    } else {
        out.push(255);
        write_u64_le(out, wide);
        assert(out@ =~= old(out)@ + compact_size(count as nat));
    }
}

/// Appends `bytes` to `out` behind their length prefix.
pub fn write_prefixed_bytes(out: &mut Vec<u8>, bytes: &[u8])
    ensures
        final(out)@ == old(out)@ + prefixed_bytes(bytes@),
{
    write_compact_size(out, bytes.len());
    out.extend_from_slice(bytes);
    assert(out@ =~= old(out)@ + prefixed_bytes(bytes@));
}

} // verus!
