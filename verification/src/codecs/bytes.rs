//! The bytes codec: a pass-through that records the byte order of the
//! elements.

use crate::error::ZarrResult;
use crate::text::{lowercase, same_text, to_lowercase};
use crate::types::Endian;
use vstd::prelude::*;
use vstd::slice::slice_to_vec;

verus! {

/// Bytes codec: pass-through that records endianness metadata.
/// Actual endian conversion happens at the typed-interpretation layer,
/// not during raw byte decoding.
#[derive(Debug, Clone, Copy, PartialEq, Eq, Structural)]
pub struct BytesCodec {
    pub endian: Option<Endian>,
}

impl Default for BytesCodec {
    fn default() -> (codec: BytesCodec)
        ensures
            codec == (BytesCodec { endian: Some(Endian::Little) }),
    {
        BytesCodec { endian: Some(Endian::Little) }
    }
}

impl BytesCodec {
    pub fn new(endian: Endian) -> (codec: BytesCodec)
        ensures
            codec == (BytesCodec { endian: Some(endian) }),
    {
        BytesCodec { endian: Some(endian) }
    }

    /// The bytes as they are.
    pub fn decode(&self, data: &[u8]) -> (result: ZarrResult<Vec<u8>>)
        ensures
            result matches Ok(out) && out@ == data@,
    {
        Ok(slice_to_vec(data))
    }

    /// The bytes as they are.
    pub fn encode(&self, data: &[u8]) -> (result: ZarrResult<Vec<u8>>)
        ensures
            result matches Ok(out) && out@ == data@,
    {
        Ok(slice_to_vec(data))
    }
}

/// The byte order with exactly the given name: `little`, `big`, or one of
/// `not_applicable`, `na` and the empty name.
pub open spec fn endian_named(name: Seq<char>) -> Option<Endian> {
    if name == "little"@ {
        Some(Endian::Little)
    } else if name == "big"@ {
        Some(Endian::Big)
    } else if name == "not_applicable"@ || name == "na"@ || name == ""@ {
        Some(Endian::NotApplicable)
    } else {
        None
    }
}

/// The byte order with exactly the given name.
pub fn endian_from_name(name: &str) -> (endian: Option<Endian>)
    ensures
        endian == endian_named(name@),
{
    if same_text(name, "little") {
        Some(Endian::Little)
    } else if same_text(name, "big") {
        Some(Endian::Big)
    } else if same_text(name, "not_applicable") || same_text(name, "na") || same_text(name, "") {
        Some(Endian::NotApplicable)
    } else {
        None
    }
}

/// The byte order that a name stands for, whatever its case.
pub fn parse_endian(name: &str) -> (endian: Option<Endian>)
    ensures
        endian == endian_named(lowercase(name@)),
{
    endian_from_name(to_lowercase(name).as_str())
}

/// The name by which a byte order is written.
pub fn endian_name(endian: Endian) -> (name: &'static str)
    ensures
        name@ == match endian {
            Endian::Little => "little"@,
            Endian::Big => "big"@,
            Endian::NotApplicable => "not_applicable"@,
        },
{
    match endian {
        Endian::Little => "little",
        Endian::Big => "big",
        Endian::NotApplicable => "not_applicable",
    }
}

} // verus!
