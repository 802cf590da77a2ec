//! The sharding codec's description.

use crate::json::JsonValue;
use vstd::prelude::*;

verus! {

/// Sharding codec (placeholder).
///
/// Full shard decoding requires additional context (inner chunk shape,
/// index codec, inner codecs) that goes beyond simple byte-in / byte-out.
/// This struct captures the configuration so higher-level code can
/// detect and handle sharded arrays.
#[derive(Debug, PartialEq, Eq)]
pub struct ShardingCodec {
    pub chunk_shape: Vec<usize>,
    pub codecs: Vec<JsonValue>,
}

impl Default for ShardingCodec {
    fn default() -> (codec: ShardingCodec)
        ensures
            codec.chunk_shape@.len() == 0,
            codec.codecs@.len() == 0,
    {
        ShardingCodec { chunk_shape: Vec::new(), codecs: Vec::new() }
    }
}

} // verus!
