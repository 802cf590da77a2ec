//! The LZ4 codec: a raw LZ4 block behind its uncompressed length, written
//! as four bytes, least significant first.

use crate::codecs::{decoded_or, stream_result};
use crate::error::{ZarrError, ZarrResult};
use crate::types::Endian;
use crate::wire::{le_bytes, le_value, lemma_radix_powers, read_word};
use vstd::prelude::*;
use vstd::slice::slice_subrange;
use vstd::string::StringExecFns;

verus! {

/// Number of bytes of the length in front of the block.
pub const LZ4_SIZE_PREFIX_BYTES: usize = 4;

/// What decoding a byte string as an LZ4 block gives, with room for `size`
/// bytes; `None` where the decoder reports an error.
pub uninterp spec fn lz4_block_decoded(block: Seq<u8>, size: usize) -> Option<Seq<u8>>;

/// The LZ4 block of a byte string.
pub uninterp spec fn lz4_block_encoded(data: Seq<u8>) -> Seq<u8>;

/// LZ4 with an acceleration factor.
#[derive(Debug, Clone, Copy, PartialEq, Eq, Structural)]
pub struct Lz4Codec {
    pub acceleration: i32,
}

/// The acceleration of an LZ4 codec whose configuration names none.
pub fn default_acceleration() -> (acceleration: i32)
    ensures
        acceleration == 1,
{
    1
}

impl Default for Lz4Codec {
    fn default() -> (codec: Lz4Codec)
        ensures
            codec == (Lz4Codec { acceleration: 1 }),
    {
        Lz4Codec { acceleration: 1 }
    }
}

/// `lz4_flex::block::decompress`: the decoded bytes of the LZ4 block, for
/// which room for `size` bytes is made, or the text of the decoder's error;
/// built with its checked decoder, the outside function reports a block
/// that needs more room as an error. The outcome is the one that
/// `lz4_block_decoded` names. Room for more than `isize::MAX` bytes cannot
/// be made.
#[verifier::external_body]
fn lz4_inflate(block: &[u8], size: usize) -> (result: Result<Vec<u8>, String>)
    requires
        size <= isize::MAX,
    ensures
        stream_result(result, lz4_block_decoded(block@, size)),
{
    match lz4_flex::block::decompress(block, size) {
        Ok(out) => Ok(out),
        Err(e) => Err(e.to_string()),
    }
}

/// `lz4_flex::block::compress`: the LZ4 block of `data`, which is the one
/// that `lz4_block_encoded` names.
#[verifier::external_body]
fn lz4_deflate(data: &[u8]) -> (block: Vec<u8>)
    ensures
        block@ == lz4_block_encoded(data@),
{
    lz4_flex::block::compress(data)
}

/// What decoding a framed LZ4 chunk gives: the block behind the four
/// length bytes, decoded with room for that length, provided that it has
/// exactly that length. `None` where the length bytes are missing, the
/// length is more than a buffer can have, the block does not decode, or
/// the length differs.
pub open spec fn lz4_decoded(data: Seq<u8>) -> Option<Seq<u8>> {
    if data.len() < 4 || le_value(data.subrange(0, 4)) > isize::MAX {
        None
    } else {
        let size = le_value(data.subrange(0, 4)) as usize;
        match lz4_block_decoded(data.skip(4), size) {
            Some(out) if out.len() == size => Some(out),
            _ => None,
        }
    }
}

/// The framed LZ4 chunk of a byte string: the low 32 bits of its length as
/// four bytes, least significant first, then its LZ4 block.
pub open spec fn lz4_encoded(data: Seq<u8>) -> Seq<u8> {
    le_bytes((data.len() as u32) as nat, 4) + lz4_block_encoded(data)
}

/// The framing is sound: where the block decoder gives back what the block
/// encoder was given, decoding the framed chunk of a byte string gives back
/// the byte string. That holds for every byte string whose length the four
/// prefix bytes and a buffer can hold.
pub proof fn lemma_lz4_framing_round_trip(data: Seq<u8>)
    requires
        data.len() <= u32::MAX,
        data.len() <= isize::MAX,
    ensures
        lz4_encoded(data).subrange(0, 4) == le_bytes(data.len(), 4),
        le_value(lz4_encoded(data).subrange(0, 4)) == data.len(),
        lz4_block_decoded(lz4_block_encoded(data), data.len() as usize) == Some(data)
            ==> lz4_decoded(lz4_encoded(data)) == Some(data),
{
    let prefix = le_bytes(data.len(), 4);
    let framed = lz4_encoded(data);
    lemma_radix_powers();
    crate::wire::lemma_le_round_trip(data.len(), 4);
    assert((data.len() as u32) as nat == data.len());
    assert(framed.subrange(0, 4) =~= prefix);
    assert(framed.skip(4) =~= lz4_block_encoded(data));
}

/// The four bytes of a 32-bit number, least significant first.
fn size_prefix(size: u32) -> (bytes: Vec<u8>)
    ensures
        bytes@ == le_bytes(size as nat, 4),
{
    let mut bytes: Vec<u8> = Vec::new();
    bytes.push((size % 256) as u8);
    bytes.push(((size / 256) % 256) as u8);
    bytes.push(((size / 65536) % 256) as u8);
    bytes.push((size / 16777216) as u8);
    proof {
        let v = size as nat;
        reveal_with_fuel(le_bytes, 5);
        assert(v / 256 / 256 == v / 65536);
        assert(v / 256 / 256 / 256 == v / 16777216);
        assert((v / 16777216) % 256 == v / 16777216);
        assert(bytes@ =~= le_bytes(v, 4));
    }
    bytes
}

/// What the block decoder's outcome becomes: its bytes where they have the
/// expected length, a decode error where they have another length or the
/// decoder failed.
pub fn sized_outcome(raw: Result<Vec<u8>, String>, expected: usize) -> (result: ZarrResult<Vec<u8>>)
    ensures
        match raw {
            Ok(bytes) => if bytes@.len() == expected {
                result == Ok::<Vec<u8>, ZarrError>(bytes)
            } else {
                result matches Err(ZarrError::Decode(_))
            },
            Err(message) => result == Err::<Vec<u8>, ZarrError>(ZarrError::Decode(message)),
        },
{
    match raw {
        Ok(decompressed) => {
            if decompressed.len() != expected {
                Err(ZarrError::Decode(String::from_str("LZ4 decompression error: unexpected length")))
            } else {
                Ok(decompressed)
            }
        },
        Err(message) => Err(ZarrError::Decode(message)),
    }
}

impl Lz4Codec {
    /// Decode an LZ4 block that has a 4-byte little-endian size prefix
    /// (matching the Zarr / numcodecs convention).
    pub fn decode(&self, data: &[u8]) -> (result: ZarrResult<Vec<u8>>)
        ensures
            decoded_or(result, lz4_decoded(data@)),
    {
        if data.len() < LZ4_SIZE_PREFIX_BYTES {
            return Err(
                ZarrError::Decode(
                    String::from_str("LZ4 decode: compressed buffer missing 4-byte size prefix"),
                ),
            );
        }
        let prefix = read_word(Endian::Little, data, 0, LZ4_SIZE_PREFIX_BYTES);
        proof {
            lemma_radix_powers();
        }
        if prefix > isize::MAX as u64 {
            return Err(ZarrError::Decode(String::from_str("LZ4 decode: size out of range")));
        }
        let dest_size = prefix as usize;
        let payload = slice_subrange(data, LZ4_SIZE_PREFIX_BYTES, data.len());
        proof {
            assert(payload@ =~= data@.skip(4));
        }
        sized_outcome(lz4_inflate(payload, dest_size), dest_size)
    }

    /// Encode an LZ4 block, prepending a 4-byte little-endian size prefix.
    pub fn encode(&self, data: &[u8]) -> (result: ZarrResult<Vec<u8>>)
        ensures
            result matches Ok(out) && out@ == lz4_encoded(data@),
    {
        let orig_size = #[verifier::truncate]
        (data.len() as u32);
        let compressed = lz4_deflate(data);
        let mut out = size_prefix(orig_size);
        let mut i: usize = 0;
        while i < compressed.len()
            invariant
                i <= compressed@.len(),
                out@ == le_bytes(orig_size as nat, 4) + compressed@.take(i as int),
            decreases compressed@.len() - i,
        {
            out.push(compressed[i]);
            proof {
                assert(compressed@.take(i + 1) =~= compressed@.take(i as int).push(
                    compressed@[i as int],
                ));
                assert(le_bytes(orig_size as nat, 4) + compressed@.take(i + 1) =~= (le_bytes(
                    orig_size as nat,
                    4,
                ) + compressed@.take(i as int)).push(compressed@[i as int]));
            }
            i += 1;
        }
        proof {
            assert(compressed@.take(compressed@.len() as int) =~= compressed@);
        }
        Ok(out)
    }
}

} // verus!
