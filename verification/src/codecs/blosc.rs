//! The blosc codec's description: sub-compressor, level, shuffle mode,
//! element size and block size. The blosc library itself is not called
//! from here.

use crate::json::{Json, JsonValue};
use crate::text::{lowercase, same_text, to_lowercase};
use crate::types::Endian;
use crate::wire::{le_value, lemma_radix_powers, read_word};
use vstd::prelude::*;
use vstd::string::StringExecFns;

verus! {

/// The compressor that blosc runs inside its frame.
#[derive(Debug, Clone, Copy, PartialEq, Eq, Structural)]
pub enum BloscCname {
    Lz4,
    Lz4hc,
    Blosclz,
    Zstd,
    Snappy,
    Zlib,
}

impl BloscCname {
    /// The name by which blosc knows the compressor.
    pub open spec fn spec_name(self) -> Seq<char> {
        match self {
            BloscCname::Lz4 => "lz4"@,
            BloscCname::Lz4hc => "lz4hc"@,
            BloscCname::Blosclz => "blosclz"@,
            BloscCname::Zstd => "zstd"@,
            BloscCname::Snappy => "snappy"@,
            BloscCname::Zlib => "zlib"@,
        }
    }

    /// The name by which blosc knows the compressor.
    pub fn name(&self) -> (name: &'static str)
        ensures
            name@ == self.spec_name(),
    {
        match self {
            BloscCname::Lz4 => "lz4",
            BloscCname::Lz4hc => "lz4hc",
            BloscCname::Blosclz => "blosclz",
            BloscCname::Zstd => "zstd",
            BloscCname::Snappy => "snappy",
            BloscCname::Zlib => "zlib",
        }
    }
}

/// How blosc reorders the bytes of the elements before it compresses.
#[derive(Debug, Clone, Copy, PartialEq, Eq, Structural)]
pub enum BloscShuffle {
    NoShuffle,
    Shuffle,
    BitShuffle,
}

impl BloscShuffle {
    /// The number by which blosc knows the shuffle mode.
    pub open spec fn spec_code(self) -> i32 {
        match self {
            BloscShuffle::NoShuffle => 0,
            BloscShuffle::Shuffle => 1,
            BloscShuffle::BitShuffle => 2,
        }
    }

    /// The number by which blosc knows the shuffle mode.
    pub fn code(&self) -> (code: i32)
        ensures
            code == self.spec_code(),
    {
        match self {
            BloscShuffle::NoShuffle => 0,
            BloscShuffle::Shuffle => 1,
            BloscShuffle::BitShuffle => 2,
        }
    }

    /// The shuffle mode of a number: 0, 1 or 2.
    pub open spec fn of_code(code: i64) -> Option<BloscShuffle> {
        if code == 0 {
            Some(BloscShuffle::NoShuffle)
        } else if code == 1 {
            Some(BloscShuffle::Shuffle)
        } else if code == 2 {
            Some(BloscShuffle::BitShuffle)
        } else {
            None
        }
    }

    /// The shuffle mode of a number: 0, 1 or 2.
    pub fn from_code(code: i64) -> (shuffle: Option<BloscShuffle>)
        ensures
            shuffle == BloscShuffle::of_code(code),
    {
        if code == 0 {
            Some(BloscShuffle::NoShuffle)
        } else if code == 1 {
            Some(BloscShuffle::Shuffle)
        } else if code == 2 {
            Some(BloscShuffle::BitShuffle)
        } else {
            None
        }
    }
}

/// Description of a blosc codec.
#[derive(Debug, Clone, Copy, PartialEq, Eq, Structural)]
pub struct BloscCodec {
    pub typesize: Option<usize>,
    pub cname: BloscCname,
    pub clevel: i32,
    pub shuffle: Option<BloscShuffle>,
    pub blocksize: usize,
}

/// The sub-compressor of a blosc codec whose configuration names none.
pub fn default_cname() -> (cname: BloscCname)
    ensures
        cname == BloscCname::Zstd,
{
    BloscCname::Zstd
}

/// The level of a blosc codec whose configuration names none.
pub fn default_clevel() -> (clevel: i32)
    ensures
        clevel == 5,
{
    5
}

impl Default for BloscCodec {
    fn default() -> (codec: BloscCodec)
        ensures
            codec == (BloscCodec {
                typesize: None,
                cname: BloscCname::Zstd,
                clevel: 5,
                shuffle: Some(BloscShuffle::NoShuffle),
                blocksize: 0,
            }),
    {
        BloscCodec {
            typesize: None,
            cname: BloscCname::Zstd,
            clevel: 5,
            shuffle: Some(BloscShuffle::NoShuffle),
            blocksize: 0,
        }
    }
}

impl BloscCodec {
    /// The shuffle mode that compression uses: the codec's own, or none.
    pub fn effective_shuffle(&self) -> (shuffle: BloscShuffle)
        ensures
            shuffle == match self.shuffle {
                Some(s) => s,
                None => BloscShuffle::NoShuffle,
            },
    {
        match self.shuffle {
            Some(s) => s,
            None => BloscShuffle::NoShuffle,
        }
    }

    /// The element size that compression uses: the codec's own, or one byte.
    pub fn effective_typesize(&self) -> (typesize: usize)
        ensures
            typesize == match self.typesize {
                Some(t) => t,
                None => 1usize,
            },
    {
        match self.typesize {
            Some(t) => t,
            None => 1,
        }
    }
}

/// The shuffle mode with exactly the given name: `noshuffle`, `shuffle`
/// or `bitshuffle`, or one of the digit strings `0`, `1` and `2`.
pub open spec fn shuffle_named(name: Seq<char>) -> Option<BloscShuffle> {
    if name == "noshuffle"@ || name == "0"@ {
        Some(BloscShuffle::NoShuffle)
    } else if name == "shuffle"@ || name == "1"@ {
        Some(BloscShuffle::Shuffle)
    } else if name == "bitshuffle"@ || name == "2"@ {
        Some(BloscShuffle::BitShuffle)
    } else {
        None
    }
}

/// The shuffle mode that a JSON value stands for: one of the integers 0, 1
/// and 2, or the name of a shuffle mode in any case.
pub open spec fn shuffle_of(value: Json) -> Option<BloscShuffle> {
    match value.as_i64() {
        Some(n) => BloscShuffle::of_code(n),
        None => match value.as_str() {
            Some(text) => shuffle_named(lowercase(text)),
            None => None,
        },
    }
}

/// The shuffle mode with exactly the given name.
pub fn shuffle_from_name(name: &str) -> (shuffle: Option<BloscShuffle>)
    ensures
        shuffle == shuffle_named(name@),
{
    if same_text(name, "noshuffle") || same_text(name, "0") {
        Some(BloscShuffle::NoShuffle)
    } else if same_text(name, "shuffle") || same_text(name, "1") {
        Some(BloscShuffle::Shuffle)
    } else if same_text(name, "bitshuffle") || same_text(name, "2") {
        Some(BloscShuffle::BitShuffle)
    } else {
        None
    }
}

/// The shuffle mode that a JSON value stands for.
pub fn parse_shuffle(value: &JsonValue) -> (shuffle: Option<BloscShuffle>)
    ensures
        shuffle == shuffle_of(value@),
{
    match value.as_i64() {
        Some(n) => BloscShuffle::from_code(n),
        None => match value.as_str() {
            Some(text) => shuffle_from_name(to_lowercase(text).as_str()),
            None => None,
        },
    }
}

/// The blosc sub-compressor with exactly the given name.
pub open spec fn cname_named(name: Seq<char>) -> Option<BloscCname> {
    if name == "lz4"@ {
        Some(BloscCname::Lz4)
    } else if name == "lz4hc"@ {
        Some(BloscCname::Lz4hc)
    } else if name == "blosclz"@ {
        Some(BloscCname::Blosclz)
    } else if name == "zstd"@ {
        Some(BloscCname::Zstd)
    } else if name == "snappy"@ {
        Some(BloscCname::Snappy)
    } else if name == "zlib"@ {
        Some(BloscCname::Zlib)
    } else {
        None
    }
}

/// The blosc sub-compressor with exactly the given name.
pub fn cname_from_name(name: &str) -> (cname: Option<BloscCname>)
    ensures
        cname == cname_named(name@),
{
    if same_text(name, "lz4") {
        Some(BloscCname::Lz4)
    } else if same_text(name, "lz4hc") {
        Some(BloscCname::Lz4hc)
    } else if same_text(name, "blosclz") {
        Some(BloscCname::Blosclz)
    } else if same_text(name, "zstd") {
        Some(BloscCname::Zstd)
    } else if same_text(name, "snappy") {
        Some(BloscCname::Snappy)
    } else if same_text(name, "zlib") {
        Some(BloscCname::Zlib)
    } else {
        None
    }
}

/// Number of bytes of the header at the start of a blosc frame.
pub const BLOSC_HEADER_BYTES: usize = 16;

/// The header of a blosc frame.
#[derive(Debug, Clone, Copy, PartialEq, Eq, Structural)]
pub struct BloscHeader {
    /// Version of the frame format.
    pub version: u8,
    /// Version of the format of the compressor inside the frame.
    pub versionlz: u8,
    /// Shuffle and copy flags, and the compressor's number.
    pub flags: u8,
    /// Bytes per element.
    pub typesize: u8,
    /// Bytes of the data before compression.
    pub nbytes: u32,
    /// Bytes per block.
    pub blocksize: u32,
    /// Bytes of the frame.
    pub cbytes: u32,
}

/// The header that the first sixteen bytes of a frame spell: four single
/// bytes, then three numbers of four bytes each, least significant byte
/// first. `None` for fewer bytes.
pub open spec fn header_of(data: Seq<u8>) -> Option<BloscHeader> {
    if data.len() < 16 {
        None
    } else {
        Some(
            BloscHeader {
                version: data[0],
                versionlz: data[1],
                flags: data[2],
                typesize: data[3],
                nbytes: le_value(data.subrange(4, 8)) as u32,
                blocksize: le_value(data.subrange(8, 12)) as u32,
                cbytes: le_value(data.subrange(12, 16)) as u32,
            },
        )
    }
}

/// Reads the header of a blosc frame.
pub fn read_header(data: &[u8]) -> (header: Option<BloscHeader>)
    ensures
        header == header_of(data@),
{
    if data.len() < BLOSC_HEADER_BYTES {
        return None;
    }
    let nbytes = read_word(Endian::Little, data, 4, 4);
    let blocksize = read_word(Endian::Little, data, 8, 4);
    let cbytes = read_word(Endian::Little, data, 12, 4);
    proof {
        lemma_radix_powers();
    }
    Some(
        BloscHeader {
            version: data[0],
            versionlz: data[1],
            flags: data[2],
            typesize: data[3],
            nbytes: nbytes as u32,
            blocksize: blocksize as u32,
            cbytes: cbytes as u32,
        },
    )
}

} // verus!
