//! The zstd codec.

use crate::codecs::{decode_outcome, decoded_or, encode_outcome, encoded_or, stream_result};
use crate::error::ZarrResult;
use vstd::prelude::*;

verus! {

/// What decoding a byte string as a sequence of zstd frames gives; `None`
/// where the decoder reports an error.
pub uninterp spec fn zstd_decoded(data: Seq<u8>) -> Option<Seq<u8>>;

/// The zstd frame of a byte string at a compression level; `None` where
/// the encoder reports an error.
pub uninterp spec fn zstd_encoded(data: Seq<u8>, level: i32) -> Option<Seq<u8>>;

/// Zstd with a compression level.
#[derive(Debug, Clone, Copy, PartialEq, Eq, Structural)]
pub struct ZstdCodec {
    pub level: i32,
}

/// The level of a zstd codec whose configuration names none.
pub fn default_level() -> (level: i32)
    ensures
        level == 5,
{
    5
}

impl Default for ZstdCodec {
    fn default() -> (codec: ZstdCodec)
        ensures
            codec == (ZstdCodec { level: 5 }),
    {
        ZstdCodec { level: 5 }
    }
}

/// `zstd::stream::decode_all`: the decoded bytes of the zstd frames in
/// `data`, whether or not they record their size, or the text of the
/// decoder's error. The outcome is the one that `zstd_decoded` names.
#[verifier::external_body]
fn zstd_inflate(data: &[u8]) -> (result: Result<Vec<u8>, String>)
    ensures
        stream_result(result, zstd_decoded(data@)),
{
    match zstd::stream::decode_all(data) {
        Ok(out) => Ok(out),
        Err(e) => Err(e.to_string()),
    }
}

/// `zstd::bulk::compress`: the zstd frame of `data` at the given level, or
/// the text of the encoder's error. The outcome is the one that
/// `zstd_encoded` names.
#[verifier::external_body]
fn zstd_deflate(data: &[u8], level: i32) -> (result: Result<Vec<u8>, String>)
    ensures
        stream_result(result, zstd_encoded(data@, level)),
{
    match zstd::bulk::compress(data, level) {
        Ok(out) => Ok(out),
        Err(e) => Err(e.to_string()),
    }
}

impl ZstdCodec {
    /// Decode a zstd stream; the frames need not record their size.
    pub fn decode(&self, data: &[u8]) -> (result: ZarrResult<Vec<u8>>)
        ensures
            decoded_or(result, zstd_decoded(data@)),
    {
        decode_outcome(zstd_inflate(data))
    }

    /// Encode as a zstd frame at the codec's level.
    pub fn encode(&self, data: &[u8]) -> (result: ZarrResult<Vec<u8>>)
        ensures
            encoded_or(result, zstd_encoded(data@, self.level)),
    {
        encode_outcome(zstd_deflate(data, self.level))
    }
}

} // verus!
