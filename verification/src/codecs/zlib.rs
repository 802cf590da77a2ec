//! The zlib codec.

use crate::codecs::{decode_outcome, decoded_or, encode_outcome, encoded_or, stream_result};
use crate::error::ZarrResult;
use vstd::prelude::*;

verus! {

/// What decoding a byte string as a zlib stream gives; `None` where the
/// decoder reports an error.
pub uninterp spec fn zlib_decoded(data: Seq<u8>) -> Option<Seq<u8>>;

/// The zlib stream of a byte string at a compression level; `None` where
/// the encoder reports an error.
pub uninterp spec fn zlib_encoded(data: Seq<u8>, level: u32) -> Option<Seq<u8>>;

/// Zlib with a compression level from 0 to 9.
#[derive(Debug, Clone, Copy, PartialEq, Eq, Structural)]
pub struct ZlibCodec {
    pub level: u32,
}

/// The level of a zlib codec whose configuration names none.
pub fn default_level() -> (level: u32)
    ensures
        level == 1,
{
    1
}

impl Default for ZlibCodec {
    fn default() -> (codec: ZlibCodec)
        ensures
            codec == (ZlibCodec { level: 1 }),
    {
        ZlibCodec { level: 1 }
    }
}

/// `flate2::read::ZlibDecoder`, read to its end: the decoded bytes of the
/// zlib stream in `data`, or the text of the decoder's error. The outcome is
/// the one that `zlib_decoded` names.
#[verifier::external_body]
fn zlib_inflate(data: &[u8]) -> (result: Result<Vec<u8>, String>)
    ensures
        stream_result(result, zlib_decoded(data@)),
{
    let mut decoder = flate2::read::ZlibDecoder::new(data);
    let mut out = Vec::new();
    match std::io::Read::read_to_end(&mut decoder, &mut out) {
        Ok(_) => Ok(out),
        Err(e) => Err(e.to_string()),
    }
}

/// `flate2::read::ZlibEncoder`, read to its end: the zlib stream of `data`
/// at the given level, or the text of the encoder's error. The outcome is
/// the one that `zlib_encoded` names.
#[verifier::external_body]
fn zlib_deflate(data: &[u8], level: u32) -> (result: Result<Vec<u8>, String>)
    requires
        level <= 9,
    ensures
        stream_result(result, zlib_encoded(data@, level)),
{
    let mut encoder = flate2::read::ZlibEncoder::new(data, flate2::Compression::new(level));
    let mut out = Vec::new();
    match std::io::Read::read_to_end(&mut encoder, &mut out) {
        Ok(_) => Ok(out),
        Err(e) => Err(e.to_string()),
    }
}

impl ZlibCodec {
    /// The level handed to the encoder: the codec's level, at most 9.
    pub open spec fn effective_level(self) -> u32 {
        if self.level < 9 {
            self.level
        } else {
            9
        }
    }

    /// Decode a zlib stream.
    pub fn decode(&self, data: &[u8]) -> (result: ZarrResult<Vec<u8>>)
        ensures
            decoded_or(result, zlib_decoded(data@)),
    {
        decode_outcome(zlib_inflate(data))
    }

    /// Encode as a zlib stream.
    pub fn encode(&self, data: &[u8]) -> (result: ZarrResult<Vec<u8>>)
        ensures
            encoded_or(result, zlib_encoded(data@, self.effective_level())),
    {
        let level = if self.level < 9 {
            self.level
        } else {
            9
        };
        encode_outcome(zlib_deflate(data, level))
    }
}

} // verus!
