//! The fixed-scale-offset codec: stored integers stand for floating-point
//! numbers by a scale and an offset.
//!
//! The library tells which integers a chunk holds and packs the resulting
//! single-precision bit patterns; the multiplication and the addition are
//! floating-point arithmetic and are done by the caller.

use crate::error::{ZarrError, ZarrResult};
use crate::text::same_text;
use crate::types::Endian;
use crate::wire::{le_bytes, lemma_radix_powers, read_word, word};
use vstd::prelude::*;
use vstd::string::StringExecFns;

verus! {

/// Description of a fixed-scale-offset codec.
#[derive(Debug, PartialEq, Eq)]
pub struct FixedScaleOffsetCodec {
    /// Double-precision bit pattern of the scale.
    pub scale: u64,
    /// Double-precision bit pattern of the offset.
    pub offset: u64,
    /// Name of the decoded element type.
    pub dtype: String,
    /// Name of the stored element type.
    pub astype: String,
}

/// The stored integer types that can be decoded.
#[derive(Debug, Clone, Copy, PartialEq, Eq, Structural)]
pub enum StoredInt {
    Int16,
    Int32,
    UInt16,
    UInt32,
}

impl StoredInt {
    /// Bytes per stored element.
    pub open spec fn spec_width(self) -> usize {
        match self {
            StoredInt::Int16 | StoredInt::UInt16 => 2,
            StoredInt::Int32 | StoredInt::UInt32 => 4,
        }
    }

    /// Bytes per stored element.
    pub fn width(&self) -> (width: usize)
        ensures
            width == self.spec_width(),
    {
        match self {
            StoredInt::Int16 | StoredInt::UInt16 => 2,
            StoredInt::Int32 | StoredInt::UInt32 => 4,
        }
    }

    /// The integer that the bytes of one element spell, least significant
    /// byte first.
    pub open spec fn value(self, bytes: Seq<u8>) -> i64 {
        let raw = word(Endian::Little, bytes);
        match self {
            StoredInt::Int16 => ((raw as u16) as i16) as i64,
            StoredInt::Int32 => ((raw as u32) as i32) as i64,
            StoredInt::UInt16 => (raw as u16) as i64,
            StoredInt::UInt32 => (raw as u32) as i64,
        }
    }
}

/// The stored integer type of a conversion that can be decoded: a 16- or
/// 32-bit integer, signed or not, that stands for a single-precision
/// number. `None` for every other pair of type names.
pub open spec fn stored_int(astype: Seq<char>, dtype: Seq<char>) -> Option<StoredInt> {
    if dtype != "float32"@ {
        None
    } else if astype == "int16"@ {
        Some(StoredInt::Int16)
    } else if astype == "int32"@ {
        Some(StoredInt::Int32)
    } else if astype == "uint16"@ {
        Some(StoredInt::UInt16)
    } else if astype == "uint32"@ {
        Some(StoredInt::UInt32)
    } else {
        None
    }
}

/// The integers that a byte string holds: as many as fit whole.
pub open spec fn stored_values(kind: StoredInt, data: Seq<u8>) -> Seq<i64> {
    let w = kind.spec_width() as int;
    Seq::new((data.len() as int / w) as nat, |i: int| kind.value(data.subrange(i * w, i * w + w)))
}

/// The bytes of single-precision bit patterns, each as four bytes, least
/// significant first.
pub open spec fn packed(bits: Seq<u32>) -> Seq<u8>
    decreases bits.len(),
{
    if bits.len() == 0 {
        Seq::empty()
    } else {
        packed(bits.drop_last()) + le_bytes(bits.last() as nat, 4)
    }
}

impl FixedScaleOffsetCodec {
    /// The stored integer type, or a decode error where the conversion is
    /// not one that can be decoded.
    pub fn conversion(&self) -> (result: ZarrResult<StoredInt>)
        ensures
            match stored_int(self.astype@, self.dtype@) {
                Some(kind) => result == Ok::<StoredInt, ZarrError>(kind),
                None => result matches Err(ZarrError::Decode(_)),
            },
    {
        let unsupported = Err(
            ZarrError::Decode(String::from_str("Unsupported FixedScaleOffset conversion")),
        );
        if !same_text(self.dtype.as_str(), "float32") {
            unsupported
        } else if same_text(self.astype.as_str(), "int16") {
            Ok(StoredInt::Int16)
        } else if same_text(self.astype.as_str(), "int32") {
            Ok(StoredInt::Int32)
        } else if same_text(self.astype.as_str(), "uint16") {
            Ok(StoredInt::UInt16)
        } else if same_text(self.astype.as_str(), "uint32") {
            Ok(StoredInt::UInt32)
        } else {
            unsupported
        }
    }

    /// The stored integers of a chunk, in order; a decode error where the
    /// conversion is not one that can be decoded.
    pub fn decode_elements(&self, data: &[u8]) -> (result: ZarrResult<Vec<i64>>)
        ensures
            match stored_int(self.astype@, self.dtype@) {
                Some(kind) => result matches Ok(values) && values@ == stored_values(kind, data@),
                None => result matches Err(ZarrError::Decode(_)),
            },
    {
        let kind = match self.conversion() {
            Ok(kind) => kind,
            Err(e) => {
                return Err(e);
            },
        };
        let w = kind.width();
        let count = data.len() / w;
        let mut out: Vec<i64> = Vec::new();
        let mut i: usize = 0;
        while i < count
            invariant
                i <= count,
                w == kind.spec_width(),
                count == data@.len() as int / w as int,
                data@.len() <= usize::MAX,
                out@.len() == i,
                forall|j: int|
                    0 <= j < i ==> out@[j] == kind.value(data@.subrange(j * w, j * w + w)),
            decreases count - i,
        {
            proof {
                assert(i * w + w <= data@.len()) by (nonlinear_arith)
                    requires
                        i < count,
                        count == data@.len() as int / w as int,
                        w == 2 || w == 4,
                ;
            }
            let raw = read_word(Endian::Little, data, i * w, w);
            proof {
                lemma_radix_powers();
            }
            let value: i64 = match kind {
                StoredInt::Int16 => ((raw as u16) as i16) as i64,
                StoredInt::Int32 => ((raw as u32) as i32) as i64,
                StoredInt::UInt16 => (raw as u16) as i64,
                StoredInt::UInt32 => (raw as u32) as i64,
            };
            out.push(value);
            i += 1;
        }
        proof {
            assert(out@ =~= stored_values(kind, data@));
        }
        Ok(out)
    }

    /// Encoding is not offered.
    pub fn encode(&self, _data: &[u8]) -> (result: ZarrResult<Vec<u8>>)
        ensures
            result matches Err(ZarrError::Encode(_)),
    {
        Err(ZarrError::Encode(String::from_str("FixedScaleOffsetCodec encoding not implemented")))
    }
}

/// Packs single-precision bit patterns as bytes, each least significant
/// byte first.
pub fn pack_singles(bits: &[u32]) -> (bytes: Vec<u8>)
    ensures
        bytes@ == packed(bits@),
{
    let mut bytes: Vec<u8> = Vec::new();
    let mut i: usize = 0;
    proof {
        assert(bits@.take(0).len() == 0);
    }
    while i < bits.len()
        invariant
            i <= bits@.len(),
            bytes@ == packed(bits@.take(i as int)),
        decreases bits@.len() - i,
    {
        let x = bits[i];
        let ghost before = bytes@;
        bytes.push((x % 256) as u8);
        bytes.push(((x / 256) % 256) as u8);
        bytes.push(((x / 65536) % 256) as u8);
        bytes.push((x / 16777216) as u8);
        proof {
            let v = x as nat;
            reveal_with_fuel(le_bytes, 5);
            assert(v / 256 / 256 == v / 65536);
            assert(v / 256 / 256 / 256 == v / 16777216);
            assert((v / 16777216) % 256 == v / 16777216);
            assert(bits@.take(i + 1).drop_last() =~= bits@.take(i as int));
            assert(bits@.take(i + 1).last() == x);
            assert(bytes@ =~= before + le_bytes(v, 4));
        }
        i += 1;
    }
    proof {
        assert(bits@.take(bits@.len() as int) =~= bits@);
    }
    bytes
}

} // verus!
