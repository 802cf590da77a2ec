//! The gzip codec.

use crate::codecs::{decode_outcome, decoded_or, encode_outcome, encoded_or, stream_result};
use crate::error::ZarrResult;
use vstd::prelude::*;

verus! {

/// What decoding a byte string as a gzip stream gives; `None` where the
/// decoder reports an error.
pub uninterp spec fn gzip_decoded(data: Seq<u8>) -> Option<Seq<u8>>;

/// The gzip stream of a byte string at a compression level; `None` where
/// the encoder reports an error.
pub uninterp spec fn gzip_encoded(data: Seq<u8>, level: u32) -> Option<Seq<u8>>;

/// Gzip with a compression level from 0 to 9.
#[derive(Debug, Clone, Copy, PartialEq, Eq, Structural)]
pub struct GzipCodec {
    pub level: u32,
}

/// The level of a gzip codec whose configuration names none.
pub fn default_level() -> (level: u32)
    ensures
        level == 5,
{
    5
}

impl Default for GzipCodec {
    fn default() -> (codec: GzipCodec)
        ensures
            codec == (GzipCodec { level: 5 }),
    {
        GzipCodec { level: 5 }
    }
}

/// `flate2::read::GzDecoder`, read to its end: the decoded bytes of the
/// gzip stream in `data`, or the text of the decoder's error. The outcome is
/// the one that `gzip_decoded` names.
#[verifier::external_body]
fn gzip_inflate(data: &[u8]) -> (result: Result<Vec<u8>, String>)
    ensures
        stream_result(result, gzip_decoded(data@)),
{
    let mut decoder = flate2::read::GzDecoder::new(data);
    let mut out = Vec::new();
    match std::io::Read::read_to_end(&mut decoder, &mut out) {
        Ok(_) => Ok(out),
        Err(e) => Err(e.to_string()),
    }
}

/// `flate2::read::GzEncoder`, read to its end: the gzip stream of `data`
/// at the given level, or the text of the encoder's error. The outcome is
/// the one that `gzip_encoded` names.
#[verifier::external_body]
fn gzip_deflate(data: &[u8], level: u32) -> (result: Result<Vec<u8>, String>)
    requires
        level <= 9,
    ensures
        stream_result(result, gzip_encoded(data@, level)),
{
    let mut encoder = flate2::read::GzEncoder::new(data, flate2::Compression::new(level));
    let mut out = Vec::new();
    match std::io::Read::read_to_end(&mut encoder, &mut out) {
        Ok(_) => Ok(out),
        Err(e) => Err(e.to_string()),
    }
}

impl GzipCodec {
    /// The level handed to the encoder: the codec's level, at most 9.
    pub open spec fn effective_level(self) -> u32 {
        if self.level < 9 {
            self.level
        } else {
            9
        }
    }

    /// Decode a gzip stream.
    pub fn decode(&self, data: &[u8]) -> (result: ZarrResult<Vec<u8>>)
        ensures
            decoded_or(result, gzip_decoded(data@)),
    {
        decode_outcome(gzip_inflate(data))
    }

    /// Encode as a gzip stream.
    pub fn encode(&self, data: &[u8]) -> (result: ZarrResult<Vec<u8>>)
        ensures
            encoded_or(result, gzip_encoded(data@, self.effective_level())),
    {
        let level = if self.level < 9 {
            self.level
        } else {
            9
        };
        encode_outcome(gzip_deflate(data, level))
    }
}

} // verus!
