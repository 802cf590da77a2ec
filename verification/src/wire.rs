//! Unsigned integers as they lie in a byte string, in either byte order.

use crate::types::Endian;
use vstd::prelude::*;
use vstd::slice::slice_subrange;

verus! {

/// 256 to the power `n`.
pub open spec fn radix_power(n: nat) -> nat
    decreases n,
{
    if n == 0 {
        1
    } else {
        256 * radix_power((n - 1) as nat)
    }
}

/// The number that the bytes spell, least significant byte first.
pub open spec fn le_value(bytes: Seq<u8>) -> nat
    decreases bytes.len(),
{
    if bytes.len() == 0 {
        0
    } else {
        bytes[0] as nat + 256 * le_value(bytes.drop_first())
    }
}

/// The number that the bytes spell, most significant byte first.
pub open spec fn be_value(bytes: Seq<u8>) -> nat
    decreases bytes.len(),
{
    if bytes.len() == 0 {
        0
    } else {
        be_value(bytes.drop_last()) * 256 + bytes.last() as nat
    }
}

/// The number that the bytes spell in the given byte order. Where the byte
/// order is not applicable the bytes are read least significant first.
pub open spec fn word(endian: Endian, bytes: Seq<u8>) -> nat {
    if endian is Big {
        be_value(bytes)
    } else {
        le_value(bytes)
    }
}

/// The `width` bytes that spell `value`, least significant byte first.
pub open spec fn le_bytes(value: nat, width: nat) -> Seq<u8>
    decreases width,
{
    if width == 0 {
        Seq::empty()
    } else {
        seq![(value % 256) as u8] + le_bytes(value / 256, (width - 1) as nat)
    }
}

/// The `width` bytes that spell `value`, most significant byte first.
pub open spec fn be_bytes(value: nat, width: nat) -> Seq<u8>
    decreases width,
{
    if width == 0 {
        Seq::empty()
    } else {
        be_bytes(value / 256, (width - 1) as nat).push((value % 256) as u8)
    }
}

/// The `width` bytes that spell `value` in the given byte order.
pub open spec fn word_bytes(endian: Endian, value: nat, width: nat) -> Seq<u8> {
    if endian is Big {
        be_bytes(value, width)
    } else {
        le_bytes(value, width)
    }
}

/// The powers of 256 that the element widths need.
pub proof fn lemma_radix_powers()
    ensures
        radix_power(1) == 0x100,
        radix_power(2) == 0x1_0000,
        radix_power(4) == 0x1_0000_0000,
        radix_power(8) == 0x1_0000_0000_0000_0000,
{
    assert(radix_power(0) == 1);
    assert(radix_power(1) == 0x100);
    assert(radix_power(2) == 0x1_0000);
    assert(radix_power(3) == 0x100_0000);
    assert(radix_power(4) == 0x1_0000_0000);
    assert(radix_power(5) == 0x100_0000_0000);
    assert(radix_power(6) == 0x1_0000_0000_0000);
    assert(radix_power(7) == 0x100_0000_0000_0000);
    assert(radix_power(8) == 0x1_0000_0000_0000_0000);
}

/// `n` bytes spell a number below 256 to the power `n`, least significant
/// byte first.
pub proof fn lemma_le_value_bound(bytes: Seq<u8>)
    ensures
        le_value(bytes) < radix_power(bytes.len()),
    decreases bytes.len(),
{
    if bytes.len() > 0 {
        lemma_le_value_bound(bytes.drop_first());
    }
}

/// `n` bytes spell a number below 256 to the power `n`, most significant
/// byte first.
pub proof fn lemma_be_value_bound(bytes: Seq<u8>)
    ensures
        be_value(bytes) < radix_power(bytes.len()),
    decreases bytes.len(),
{
    if bytes.len() > 0 {
        lemma_be_value_bound(bytes.drop_last());
    }
}

/// Bytes spell a number below 256 to the power of their count, in either
/// byte order.
pub proof fn lemma_word_bound(endian: Endian, bytes: Seq<u8>)
    ensures
        word(endian, bytes) < radix_power(bytes.len()),
{
    lemma_le_value_bound(bytes);
    lemma_be_value_bound(bytes);
}

/// Spelling a number and reading it back gives the number, least
/// significant byte first.
pub proof fn lemma_le_round_trip(value: nat, width: nat)
    requires
        value < radix_power(width),
    ensures
        le_bytes(value, width).len() == width,
        le_value(le_bytes(value, width)) == value,
    decreases width,
{
    if width > 0 {
        let rest = le_bytes(value / 256, (width - 1) as nat);
        lemma_le_round_trip(value / 256, (width - 1) as nat);
        let all = le_bytes(value, width);
        assert(all.drop_first() =~= rest);
        assert(all[0] == (value % 256) as u8);
    }
}

/// Spelling a number and reading it back gives the number, most
/// significant byte first.
pub proof fn lemma_be_round_trip(value: nat, width: nat)
    requires
        value < radix_power(width),
    ensures
        be_bytes(value, width).len() == width,
        be_value(be_bytes(value, width)) == value,
    decreases width,
{
    if width > 0 {
        let rest = be_bytes(value / 256, (width - 1) as nat);
        lemma_be_round_trip(value / 256, (width - 1) as nat);
        let all = be_bytes(value, width);
        assert(all.drop_last() =~= rest);
        assert(all.last() == (value % 256) as u8);
    }
}

/// Spelling a number and reading it back gives the number, in either byte
/// order.
pub proof fn lemma_word_round_trip(endian: Endian, value: nat, width: nat)
    requires
        value < radix_power(width),
    ensures
        word_bytes(endian, value, width).len() == width,
        word(endian, word_bytes(endian, value, width)) == value,
{
    lemma_le_round_trip(value, width);
    lemma_be_round_trip(value, width);
}

/// `byteorder::LittleEndian::read_uint`: the unsigned integer that the
/// first `nbytes` bytes of `buf` spell, least significant byte first. The
/// outside function panics unless `1 <= nbytes <= 8` and `buf` has that
/// many bytes.
#[verifier::external_body]
fn read_uint_le(buf: &[u8], nbytes: usize) -> (value: u64)
    requires
        1 <= nbytes <= 8,
        nbytes <= buf@.len(),
    ensures
        value == le_value(buf@.subrange(0, nbytes as int)),
{
    <byteorder::LittleEndian as byteorder::ByteOrder>::read_uint(buf, nbytes)
}

/// `byteorder::BigEndian::read_uint`: the unsigned integer that the first
/// `nbytes` bytes of `buf` spell, most significant byte first. The outside
/// function panics unless `1 <= nbytes <= 8` and `buf` has that many bytes.
#[verifier::external_body]
fn read_uint_be(buf: &[u8], nbytes: usize) -> (value: u64)
    requires
        1 <= nbytes <= 8,
        nbytes <= buf@.len(),
    ensures
        value == be_value(buf@.subrange(0, nbytes as int)),
{
    <byteorder::BigEndian as byteorder::ByteOrder>::read_uint(buf, nbytes)
}

/// Reads the unsigned integer of `width` bytes that starts at `offset`.
pub fn read_word(endian: Endian, data: &[u8], offset: usize, width: usize) -> (value: u64)
    requires
        1 <= width <= 8,
        offset + width <= data@.len(),
    ensures
        value == word(endian, data@.subrange(offset as int, offset + width)),
        value < radix_power(width as nat),
{
    let total = data.len();
    let bytes = slice_subrange(data, offset, offset + width);
    proof {
        assert(bytes@.subrange(0, width as int) =~= bytes@);
        lemma_word_bound(endian, bytes@);
    }
    match endian {
        Endian::Big => read_uint_be(bytes, width),
        _ => read_uint_le(bytes, width),
    }
}

} // verus!
