//! The type model: element types, byte order, memory order, scalars, fill
//! values and typed vectors.
//!
//! Floating-point elements are held as their IEEE 754 bit patterns, so that
//! every value of the model is an integer, a boolean, a string or a byte
//! string; a complex element is the pair of the patterns of its real and
//! imaginary parts.

use crate::error::{ZarrError, ZarrResult};
use crate::shape::{checked_product, shape_product};
use crate::wire::{lemma_radix_powers, lemma_word_round_trip, read_word, word, word_bytes};
use vstd::prelude::*;
use vstd::slice::slice_to_vec;
use vstd::string::StringExecFns;

verus! {

/// Byte order of a multi-byte element.
#[derive(Debug, Clone, Copy, PartialEq, Eq, Hash, Structural)]
pub enum Endian {
    Little,
    Big,
    NotApplicable,
}

/// Memory layout of the flat array: `C` lets the last dimension vary
/// fastest, `F` the first.
#[derive(Debug, Clone, Copy, PartialEq, Eq, Hash, Structural)]
pub enum ArrayOrder {
    C,
    F,
}

impl Default for ArrayOrder {
    fn default() -> (order: ArrayOrder)
        ensures
            order == ArrayOrder::C,
    {
        ArrayOrder::C
    }
}

/// Element type of an array.
#[derive(Debug, Clone, Copy, PartialEq, Eq, Hash, Structural)]
pub enum DataType {
    Bool,
    Int8,
    Int16,
    Int32,
    Int64,
    UInt8,
    UInt16,
    UInt32,
    UInt64,
    Float16,
    Float32,
    Float64,
    Complex64,
    Complex128,
    String,
    Bytes,
}

impl DataType {
    /// Bytes per element; `None` for the two variable-length types.
    pub open spec fn width(self) -> Option<usize> {
        match self {
            DataType::Bool | DataType::Int8 | DataType::UInt8 => Some(1usize),
            DataType::Int16 | DataType::UInt16 | DataType::Float16 => Some(2usize),
            DataType::Int32 | DataType::UInt32 | DataType::Float32 => Some(4usize),
            DataType::Int64 | DataType::UInt64 | DataType::Float64 | DataType::Complex64 => Some(
                8usize,
            ),
            DataType::Complex128 => Some(16usize),
            DataType::String | DataType::Bytes => None,
        }
    }

    /// Whether elements are real or complex floating-point numbers.
    pub open spec fn is_floating(self) -> bool {
        self is Float16 || self is Float32 || self is Float64 || self is Complex64
            || self is Complex128
    }

    /// Number of bytes per element for fixed-size types.
    pub fn byte_size(&self) -> (size: Option<usize>)
        ensures
            size == self.width(),
    {
        match self {
            DataType::Bool => Some(1),
            DataType::Int8 => Some(1),
            DataType::Int16 => Some(2),
            DataType::Int32 => Some(4),
            DataType::Int64 => Some(8),
            DataType::UInt8 => Some(1),
            DataType::UInt16 => Some(2),
            DataType::UInt32 => Some(4),
            DataType::UInt64 => Some(8),
            DataType::Float16 => Some(2),
            DataType::Float32 => Some(4),
            DataType::Float64 => Some(8),
            DataType::Complex64 => Some(8),
            DataType::Complex128 => Some(16),
            DataType::String | DataType::Bytes => None,
        }
    }

    /// Executable form of [`DataType::is_floating`].
    pub fn is_float_like(&self) -> (floating: bool)
        ensures
            floating == self.is_floating(),
    {
        match self {
            DataType::Float16
            | DataType::Float32
            | DataType::Float64
            | DataType::Complex64
            | DataType::Complex128 => true,
            _ => false,
        }
    }
}

/// Bit pattern of a quiet not-a-number, half precision.
pub const HALF_NAN: u16 = 0x7e00;

/// Bit pattern of a quiet not-a-number, single precision.
pub const SINGLE_NAN: u32 = 0x7fc0_0000;

/// Bit pattern of a quiet not-a-number, double precision.
pub const DOUBLE_NAN: u64 = 0x7ff8_0000_0000_0000;

/// Mathematical model of a scalar: what a [`ZarrValue`] holds, with strings
/// and byte strings as sequences.
pub ghost enum Scalar {
    Bool(bool),
    Int8(i8),
    Int16(i16),
    Int32(i32),
    Int64(i64),
    UInt8(u8),
    UInt16(u16),
    UInt32(u32),
    UInt64(u64),
    Float16(u16),
    Float32(u32),
    Float64(u64),
    Complex64(u32, u32),
    Complex128(u64, u64),
    String(Seq<char>),
    Bytes(Seq<u8>),
    Null(DataType),
}

impl Scalar {
    /// The element type that the scalar belongs to.
    pub open spec fn data_type(self) -> DataType {
        match self {
            Scalar::Bool(_) => DataType::Bool,
            Scalar::Int8(_) => DataType::Int8,
            Scalar::Int16(_) => DataType::Int16,
            Scalar::Int32(_) => DataType::Int32,
            Scalar::Int64(_) => DataType::Int64,
            Scalar::UInt8(_) => DataType::UInt8,
            Scalar::UInt16(_) => DataType::UInt16,
            Scalar::UInt32(_) => DataType::UInt32,
            Scalar::UInt64(_) => DataType::UInt64,
            Scalar::Float16(_) => DataType::Float16,
            Scalar::Float32(_) => DataType::Float32,
            Scalar::Float64(_) => DataType::Float64,
            Scalar::Complex64(_, _) => DataType::Complex64,
            Scalar::Complex128(_, _) => DataType::Complex128,
            Scalar::String(_) => DataType::String,
            Scalar::Bytes(_) => DataType::Bytes,
            Scalar::Null(dtype) => dtype,
        }
    }

    /// The zero, false or empty scalar of an element type.
    pub open spec fn zero(dtype: DataType) -> Scalar {
        match dtype {
            DataType::Bool => Scalar::Bool(false),
            DataType::Int8 => Scalar::Int8(0),
            DataType::Int16 => Scalar::Int16(0),
            DataType::Int32 => Scalar::Int32(0),
            DataType::Int64 => Scalar::Int64(0),
            DataType::UInt8 => Scalar::UInt8(0),
            DataType::UInt16 => Scalar::UInt16(0),
            DataType::UInt32 => Scalar::UInt32(0),
            DataType::UInt64 => Scalar::UInt64(0),
            DataType::Float16 => Scalar::Float16(0),
            DataType::Float32 => Scalar::Float32(0),
            DataType::Float64 => Scalar::Float64(0),
            DataType::Complex64 => Scalar::Complex64(0, 0),
            DataType::Complex128 => Scalar::Complex128(0, 0),
            DataType::String => Scalar::String(Seq::empty()),
            DataType::Bytes => Scalar::Bytes(Seq::empty()),
        }
    }

    /// The not-a-number scalar of a floating-point type: a quiet
    /// not-a-number, beside a zero imaginary part where the type is complex.
    /// The zero scalar for the other element types.
    pub open spec fn not_a_number(dtype: DataType) -> Scalar {
        match dtype {
            DataType::Float16 => Scalar::Float16(HALF_NAN),
            DataType::Float32 => Scalar::Float32(SINGLE_NAN),
            DataType::Float64 => Scalar::Float64(DOUBLE_NAN),
            DataType::Complex64 => Scalar::Complex64(SINGLE_NAN, 0),
            DataType::Complex128 => Scalar::Complex128(DOUBLE_NAN, 0),
            _ => Scalar::zero(dtype),
        }
    }
}

/// A single element of any type, or the marker of a missing element.
#[derive(Debug, PartialEq, Eq)]
pub enum ZarrValue {
    Bool(bool),
    Int8(i8),
    Int16(i16),
    Int32(i32),
    Int64(i64),
    UInt8(u8),
    UInt16(u16),
    UInt32(u32),
    UInt64(u64),
    /// Half-precision bit pattern.
    Float16(u16),
    /// Single-precision bit pattern.
    Float32(u32),
    /// Double-precision bit pattern.
    Float64(u64),
    /// Single-precision bit patterns of the real and the imaginary part.
    Complex64(u32, u32),
    /// Double-precision bit patterns of the real and the imaginary part.
    Complex128(u64, u64),
    String(String),
    Bytes(Vec<u8>),
    Null(DataType),
}

impl View for ZarrValue {
    type V = Scalar;

    open spec fn view(&self) -> Scalar {
        match self {
            ZarrValue::Bool(v) => Scalar::Bool(*v),
            ZarrValue::Int8(v) => Scalar::Int8(*v),
            ZarrValue::Int16(v) => Scalar::Int16(*v),
            ZarrValue::Int32(v) => Scalar::Int32(*v),
            ZarrValue::Int64(v) => Scalar::Int64(*v),
            ZarrValue::UInt8(v) => Scalar::UInt8(*v),
            ZarrValue::UInt16(v) => Scalar::UInt16(*v),
            ZarrValue::UInt32(v) => Scalar::UInt32(*v),
            ZarrValue::UInt64(v) => Scalar::UInt64(*v),
            ZarrValue::Float16(v) => Scalar::Float16(*v),
            ZarrValue::Float32(v) => Scalar::Float32(*v),
            ZarrValue::Float64(v) => Scalar::Float64(*v),
            ZarrValue::Complex64(re, im) => Scalar::Complex64(*re, *im),
            ZarrValue::Complex128(re, im) => Scalar::Complex128(*re, *im),
            ZarrValue::String(s) => Scalar::String(s@),
            ZarrValue::Bytes(b) => Scalar::Bytes(b@),
            ZarrValue::Null(dtype) => Scalar::Null(*dtype),
        }
    }
}

impl Clone for ZarrValue {
    fn clone(&self) -> (copy: ZarrValue)
        ensures
            copy@ == self@,
    {
        match self {
            ZarrValue::Bool(v) => ZarrValue::Bool(*v),
            ZarrValue::Int8(v) => ZarrValue::Int8(*v),
            ZarrValue::Int16(v) => ZarrValue::Int16(*v),
            ZarrValue::Int32(v) => ZarrValue::Int32(*v),
            ZarrValue::Int64(v) => ZarrValue::Int64(*v),
            ZarrValue::UInt8(v) => ZarrValue::UInt8(*v),
            ZarrValue::UInt16(v) => ZarrValue::UInt16(*v),
            ZarrValue::UInt32(v) => ZarrValue::UInt32(*v),
            ZarrValue::UInt64(v) => ZarrValue::UInt64(*v),
            ZarrValue::Float16(v) => ZarrValue::Float16(*v),
            ZarrValue::Float32(v) => ZarrValue::Float32(*v),
            ZarrValue::Float64(v) => ZarrValue::Float64(*v),
            ZarrValue::Complex64(re, im) => ZarrValue::Complex64(*re, *im),
            ZarrValue::Complex128(re, im) => ZarrValue::Complex128(*re, *im),
            ZarrValue::String(s) => ZarrValue::String(s.clone()),
            ZarrValue::Bytes(b) => ZarrValue::Bytes(b.clone()),
            ZarrValue::Null(dtype) => ZarrValue::Null(*dtype),
        }
    }
}

impl ZarrValue {
    /// Return the [`DataType`] that this value belongs to.
    pub fn data_type(&self) -> (dtype: DataType)
        ensures
            dtype == self@.data_type(),
    {
        match self {
            ZarrValue::Bool(_) => DataType::Bool,
            ZarrValue::Int8(_) => DataType::Int8,
            ZarrValue::Int16(_) => DataType::Int16,
            ZarrValue::Int32(_) => DataType::Int32,
            ZarrValue::Int64(_) => DataType::Int64,
            ZarrValue::UInt8(_) => DataType::UInt8,
            ZarrValue::UInt16(_) => DataType::UInt16,
            ZarrValue::UInt32(_) => DataType::UInt32,
            ZarrValue::UInt64(_) => DataType::UInt64,
            ZarrValue::Float16(_) => DataType::Float16,
            ZarrValue::Float32(_) => DataType::Float32,
            ZarrValue::Float64(_) => DataType::Float64,
            ZarrValue::Complex64(_, _) => DataType::Complex64,
            ZarrValue::Complex128(_, _) => DataType::Complex128,
            ZarrValue::String(_) => DataType::String,
            ZarrValue::Bytes(_) => DataType::Bytes,
            ZarrValue::Null(dtype) => *dtype,
        }
    }
}

/// Default zero/false/empty scalar for a data type.
pub fn default_scalar(dtype: DataType) -> (value: ZarrValue)
    ensures
        value@ == Scalar::zero(dtype),
{
    match dtype {
        DataType::Bool => ZarrValue::Bool(false),
        DataType::Int8 => ZarrValue::Int8(0),
        DataType::Int16 => ZarrValue::Int16(0),
        DataType::Int32 => ZarrValue::Int32(0),
        DataType::Int64 => ZarrValue::Int64(0),
        DataType::UInt8 => ZarrValue::UInt8(0),
        DataType::UInt16 => ZarrValue::UInt16(0),
        DataType::UInt32 => ZarrValue::UInt32(0),
        DataType::UInt64 => ZarrValue::UInt64(0),
        DataType::Float16 => ZarrValue::Float16(0),
        DataType::Float32 => ZarrValue::Float32(0),
        DataType::Float64 => ZarrValue::Float64(0),
        DataType::Complex64 => ZarrValue::Complex64(0, 0),
        DataType::Complex128 => ZarrValue::Complex128(0, 0),
        DataType::String => ZarrValue::String(String::new()),
        DataType::Bytes => ZarrValue::Bytes(Vec::new()),
    }
}

impl Scalar {
    /// Whether the scalar is a floating-point not-a-number: all ones in the
    /// exponent and a fraction that is not zero; for a complex scalar,
    /// whether its real part is one.
    pub open spec fn is_nan(self) -> bool {
        match self {
            Scalar::Float16(bits) => bits & 0x7c00 == 0x7c00 && bits & 0x03ff != 0,
            Scalar::Float32(bits) | Scalar::Complex64(bits, _) => bits & 0x7f80_0000
                == 0x7f80_0000 && bits & 0x007f_ffff != 0,
            Scalar::Float64(bits) | Scalar::Complex128(bits, _) => bits
                & 0x7ff0_0000_0000_0000 == 0x7ff0_0000_0000_0000 && bits
                & 0x000f_ffff_ffff_ffff != 0,
            _ => false,
        }
    }
}

/// Mathematical model of a [`FillValue`].
pub ghost enum Fill {
    Value(Scalar),
    NaN,
    Infinity,
    NegativeInfinity,
}

impl Fill {
    /// The scalar that stands in for a missing element of type `dtype`.
    ///
    /// An explicit value is used when it has the array's element type, and
    /// the zero scalar stands for one of another type. Each of the three
    /// markers, not-a-number and the two infinities alike, gives the
    /// not-a-number scalar when the elements are floating-point and the
    /// zero scalar when they are not.
    pub open spec fn scalar(self, dtype: DataType) -> Scalar {
        match self {
            Fill::Value(v) => if v.data_type() == dtype {
                v
            } else {
                Scalar::zero(dtype)
            },
            Fill::NaN | Fill::Infinity | Fill::NegativeInfinity => Scalar::not_a_number(dtype),
        }
    }
}

/// On a floating-point element type each of the three markers fills with
/// a not-a-number: an absent chunk holds no infinity.
pub proof fn lemma_markers_fill_with_nan(fill: Fill, dtype: DataType)
    requires
        !(fill is Value),
        dtype.is_floating(),
    ensures
        fill.scalar(dtype) == Scalar::not_a_number(dtype),
        fill.scalar(dtype).is_nan(),
        fill.scalar(dtype).data_type() == dtype,
{
    assert(HALF_NAN & 0x7c00 == 0x7c00 && HALF_NAN & 0x03ff != 0) by (bit_vector);
    assert(SINGLE_NAN & 0x7f80_0000 == 0x7f80_0000 && SINGLE_NAN & 0x007f_ffff != 0)
        by (bit_vector);
    assert(DOUBLE_NAN & 0x7ff0_0000_0000_0000 == 0x7ff0_0000_0000_0000 && DOUBLE_NAN
        & 0x000f_ffff_ffff_ffff != 0) by (bit_vector);
}

/// The value that elements of absent chunks take.
#[derive(Debug, PartialEq, Eq)]
pub enum FillValue {
    Value(ZarrValue),
    NaN,
    Infinity,
    NegativeInfinity,
}

impl View for FillValue {
    type V = Fill;

    open spec fn view(&self) -> Fill {
        match self {
            FillValue::Value(v) => Fill::Value(v@),
            FillValue::NaN => Fill::NaN,
            FillValue::Infinity => Fill::Infinity,
            FillValue::NegativeInfinity => Fill::NegativeInfinity,
        }
    }
}

impl Clone for FillValue {
    fn clone(&self) -> (copy: FillValue)
        ensures
            copy@ == self@,
    {
        match self {
            FillValue::Value(v) => FillValue::Value(v.clone()),
            FillValue::NaN => FillValue::NaN,
            FillValue::Infinity => FillValue::Infinity,
            FillValue::NegativeInfinity => FillValue::NegativeInfinity,
        }
    }
}

/// The not-a-number scalar of a floating-point type, or the zero scalar
/// where `dtype` is not floating-point.
fn not_a_number_scalar(dtype: DataType) -> (value: ZarrValue)
    ensures
        value@ == Scalar::not_a_number(dtype),
{
    match dtype {
        DataType::Float16 => ZarrValue::Float16(HALF_NAN),
        DataType::Float32 => ZarrValue::Float32(SINGLE_NAN),
        DataType::Float64 => ZarrValue::Float64(DOUBLE_NAN),
        DataType::Complex64 => ZarrValue::Complex64(SINGLE_NAN, 0),
        DataType::Complex128 => ZarrValue::Complex128(DOUBLE_NAN, 0),
        _ => default_scalar(dtype),
    }
}

impl FillValue {
    /// Return a concrete [`ZarrValue`] for the given dtype (used when filling
    /// chunks that are absent from storage).
    pub fn to_zarr_value(&self, dtype: DataType) -> (value: ZarrValue)
        ensures
            value@ == self@.scalar(dtype),
    {
        match self {
            FillValue::Value(v) => {
                if v.data_type() == dtype {
                    v.clone()
                } else {
                    default_scalar(dtype)
                }
            },
            FillValue::NaN | FillValue::Infinity | FillValue::NegativeInfinity => {
                not_a_number_scalar(dtype)
            },
        }
    }
}

/// Default fill value for a data type.
pub fn default_fill_value(dtype: DataType) -> (fill: FillValue)
    ensures
        fill@ == Fill::Value(Scalar::zero(dtype)),
{
    FillValue::Value(default_scalar(dtype))
}

/// Mathematical model of a typed vector: its element type, whether it has
/// a place for missing elements, and its items in order.
pub ghost struct VectorModel {
    pub dtype: DataType,
    pub nullable: bool,
    pub items: Seq<Option<Scalar>>,
}

impl VectorModel {
    /// The vector of `count` copies of `scalar`. The missing-element marker
    /// gives a nullable vector without any element present.
    pub open spec fn filled(scalar: Scalar, count: nat) -> VectorModel {
        match scalar {
            Scalar::Null(dtype) => VectorModel {
                dtype,
                nullable: true,
                items: Seq::new(count, |i: int| None::<Scalar>),
            },
            _ => VectorModel {
                dtype: scalar.data_type(),
                nullable: false,
                items: Seq::new(count, |i: int| Some(scalar)),
            },
        }
    }
}

/// Model of an element that may be missing.
pub open spec fn opt_view(item: Option<ZarrValue>) -> Option<Scalar> {
    match item {
        Some(value) => Some(value@),
        None => None,
    }
}

/// Model of a sequence of elements that may be missing.
pub open spec fn views_of(items: Seq<Option<ZarrValue>>) -> Seq<Option<Scalar>> {
    Seq::new(items.len(), |i: int| opt_view(items[i]))
}

/// A dense vector of one element type, or a vector with places for missing
/// elements.
#[derive(Debug, PartialEq, Eq)]
pub enum ZarrVectorValue {
    VBool(Vec<bool>),
    VInt8(Vec<i8>),
    VInt16(Vec<i16>),
    VInt32(Vec<i32>),
    VInt64(Vec<i64>),
    VUInt8(Vec<u8>),
    VUInt16(Vec<u16>),
    VUInt32(Vec<u32>),
    VUInt64(Vec<u64>),
    /// Half-precision bit patterns.
    VFloat16(Vec<u16>),
    /// Single-precision bit patterns.
    VFloat32(Vec<u32>),
    /// Double-precision bit patterns.
    VFloat64(Vec<u64>),
    /// Pairs of single-precision bit patterns: real part, imaginary part.
    VComplex64(Vec<(u32, u32)>),
    /// Pairs of double-precision bit patterns: real part, imaginary part.
    VComplex128(Vec<(u64, u64)>),
    VString(Vec<String>),
    VBytes(Vec<Vec<u8>>),
    VWithNulls(DataType, Vec<Option<ZarrValue>>),
}

impl View for ZarrVectorValue {
    type V = VectorModel;

    open spec fn view(&self) -> VectorModel {
        match self {
            ZarrVectorValue::VBool(v) => VectorModel {
                dtype: DataType::Bool,
                nullable: false,
                items: Seq::new(v@.len(), |i: int| Some(Scalar::Bool(v@[i]))),
            },
            ZarrVectorValue::VInt8(v) => VectorModel {
                dtype: DataType::Int8,
                nullable: false,
                items: Seq::new(v@.len(), |i: int| Some(Scalar::Int8(v@[i]))),
            },
            ZarrVectorValue::VInt16(v) => VectorModel {
                dtype: DataType::Int16,
                nullable: false,
                items: Seq::new(v@.len(), |i: int| Some(Scalar::Int16(v@[i]))),
            },
            ZarrVectorValue::VInt32(v) => VectorModel {
                dtype: DataType::Int32,
                nullable: false,
                items: Seq::new(v@.len(), |i: int| Some(Scalar::Int32(v@[i]))),
            },
            ZarrVectorValue::VInt64(v) => VectorModel {
                dtype: DataType::Int64,
                nullable: false,
                items: Seq::new(v@.len(), |i: int| Some(Scalar::Int64(v@[i]))),
            },
            ZarrVectorValue::VUInt8(v) => VectorModel {
                dtype: DataType::UInt8,
                nullable: false,
                items: Seq::new(v@.len(), |i: int| Some(Scalar::UInt8(v@[i]))),
            },
            ZarrVectorValue::VUInt16(v) => VectorModel {
                dtype: DataType::UInt16,
                nullable: false,
                items: Seq::new(v@.len(), |i: int| Some(Scalar::UInt16(v@[i]))),
            },
            ZarrVectorValue::VUInt32(v) => VectorModel {
                dtype: DataType::UInt32,
                nullable: false,
                items: Seq::new(v@.len(), |i: int| Some(Scalar::UInt32(v@[i]))),
            },
            ZarrVectorValue::VUInt64(v) => VectorModel {
                dtype: DataType::UInt64,
                nullable: false,
                items: Seq::new(v@.len(), |i: int| Some(Scalar::UInt64(v@[i]))),
            },
            ZarrVectorValue::VFloat16(v) => VectorModel {
                dtype: DataType::Float16,
                nullable: false,
                items: Seq::new(v@.len(), |i: int| Some(Scalar::Float16(v@[i]))),
            },
            ZarrVectorValue::VFloat32(v) => VectorModel {
                dtype: DataType::Float32,
                nullable: false,
                items: Seq::new(v@.len(), |i: int| Some(Scalar::Float32(v@[i]))),
            },
            ZarrVectorValue::VFloat64(v) => VectorModel {
                dtype: DataType::Float64,
                nullable: false,
                items: Seq::new(v@.len(), |i: int| Some(Scalar::Float64(v@[i]))),
            },
            ZarrVectorValue::VComplex64(v) => VectorModel {
                dtype: DataType::Complex64,
                nullable: false,
                items: Seq::new(v@.len(), |i: int| Some(Scalar::Complex64(v@[i].0, v@[i].1))),
            },
            ZarrVectorValue::VComplex128(v) => VectorModel {
                dtype: DataType::Complex128,
                nullable: false,
                items: Seq::new(v@.len(), |i: int| Some(Scalar::Complex128(v@[i].0, v@[i].1))),
            },
            ZarrVectorValue::VString(v) => VectorModel {
                dtype: DataType::String,
                nullable: false,
                items: Seq::new(v@.len(), |i: int| Some(Scalar::String(v@[i]@))),
            },
            ZarrVectorValue::VBytes(v) => VectorModel {
                dtype: DataType::Bytes,
                nullable: false,
                items: Seq::new(v@.len(), |i: int| Some(Scalar::Bytes(v@[i]@))),
            },
            ZarrVectorValue::VWithNulls(dtype, v) => VectorModel {
                dtype: *dtype,
                nullable: true,
                items: views_of(v@),
            },
        }
    }
}

impl ZarrVectorValue {
    /// Number of elements in the vector.
    pub fn len(&self) -> (count: usize)
        ensures
            count == self@.items.len(),
    {
        match self {
            ZarrVectorValue::VBool(v) => v.len(),
            ZarrVectorValue::VInt8(v) => v.len(),
            ZarrVectorValue::VInt16(v) => v.len(),
            ZarrVectorValue::VInt32(v) => v.len(),
            ZarrVectorValue::VInt64(v) => v.len(),
            ZarrVectorValue::VUInt8(v) => v.len(),
            ZarrVectorValue::VUInt16(v) => v.len(),
            ZarrVectorValue::VUInt32(v) => v.len(),
            ZarrVectorValue::VUInt64(v) => v.len(),
            ZarrVectorValue::VFloat16(v) => v.len(),
            ZarrVectorValue::VFloat32(v) => v.len(),
            ZarrVectorValue::VFloat64(v) => v.len(),
            ZarrVectorValue::VComplex64(v) => v.len(),
            ZarrVectorValue::VComplex128(v) => v.len(),
            ZarrVectorValue::VString(v) => v.len(),
            ZarrVectorValue::VBytes(v) => v.len(),
            ZarrVectorValue::VWithNulls(_, v) => v.len(),
        }
    }

    pub fn is_empty(&self) -> (empty: bool)
        ensures
            empty == (self@.items.len() == 0),
    {
        self.len() == 0
    }

    /// The element at position `i`, or `None` where it is missing.
    pub fn get(&self, i: usize) -> (item: Option<ZarrValue>)
        requires
            i < self@.items.len(),
        ensures
            opt_view(item) == self@.items[i as int],
    {
        match self {
            ZarrVectorValue::VBool(v) => Some(ZarrValue::Bool(v[i])),
            ZarrVectorValue::VInt8(v) => Some(ZarrValue::Int8(v[i])),
            ZarrVectorValue::VInt16(v) => Some(ZarrValue::Int16(v[i])),
            ZarrVectorValue::VInt32(v) => Some(ZarrValue::Int32(v[i])),
            ZarrVectorValue::VInt64(v) => Some(ZarrValue::Int64(v[i])),
            ZarrVectorValue::VUInt8(v) => Some(ZarrValue::UInt8(v[i])),
            ZarrVectorValue::VUInt16(v) => Some(ZarrValue::UInt16(v[i])),
            ZarrVectorValue::VUInt32(v) => Some(ZarrValue::UInt32(v[i])),
            ZarrVectorValue::VUInt64(v) => Some(ZarrValue::UInt64(v[i])),
            ZarrVectorValue::VFloat16(v) => Some(ZarrValue::Float16(v[i])),
            ZarrVectorValue::VFloat32(v) => Some(ZarrValue::Float32(v[i])),
            ZarrVectorValue::VFloat64(v) => Some(ZarrValue::Float64(v[i])),
            ZarrVectorValue::VComplex64(v) => Some(ZarrValue::Complex64(v[i].0, v[i].1)),
            ZarrVectorValue::VComplex128(v) => Some(ZarrValue::Complex128(v[i].0, v[i].1)),
            ZarrVectorValue::VString(v) => Some(ZarrValue::String(v[i].clone())),
            ZarrVectorValue::VBytes(v) => Some(ZarrValue::Bytes(v[i].clone())),
            ZarrVectorValue::VWithNulls(_, v) => match &v[i] {
                Some(value) => Some(value.clone()),
                None => None,
            },
        }
    }

    /// Convert to `Vec<Option<ZarrValue>>`, wrapping each element.
    pub fn to_maybe_values(&self) -> (values: Vec<Option<ZarrValue>>)
        ensures
            views_of(values@) == self@.items,
    {
        let mut out: Vec<Option<ZarrValue>> = Vec::new();
        let mut i: usize = 0;
        match self {
            ZarrVectorValue::VBool(v) => {
                while i < v.len()
                    invariant
                        i <= v.len(),
                        out@.len() == i,
                        forall|j: int|
                            0 <= j < i ==> opt_view(#[trigger] out@[j]) == Some(Scalar::Bool(v@[j])),
                    decreases v.len() - i,
                {
                    out.push(Some(ZarrValue::Bool(v[i])));
                    i += 1;
                }
            },
            ZarrVectorValue::VInt8(v) => {
                while i < v.len()
                    invariant
                        i <= v.len(),
                        out@.len() == i,
                        forall|j: int|
                            0 <= j < i ==> opt_view(#[trigger] out@[j]) == Some(Scalar::Int8(v@[j])),
                    decreases v.len() - i,
                {
                    out.push(Some(ZarrValue::Int8(v[i])));
                    i += 1;
                }
            },
            ZarrVectorValue::VInt16(v) => {
                while i < v.len()
                    invariant
                        i <= v.len(),
                        out@.len() == i,
                        forall|j: int|
                            0 <= j < i ==> opt_view(#[trigger] out@[j]) == Some(Scalar::Int16(v@[j])),
                    decreases v.len() - i,
                {
                    out.push(Some(ZarrValue::Int16(v[i])));
                    i += 1;
                }
            },
            ZarrVectorValue::VInt32(v) => {
                while i < v.len()
                    invariant
                        i <= v.len(),
                        out@.len() == i,
                        forall|j: int|
                            0 <= j < i ==> opt_view(#[trigger] out@[j]) == Some(Scalar::Int32(v@[j])),
                    decreases v.len() - i,
                {
                    out.push(Some(ZarrValue::Int32(v[i])));
                    i += 1;
                }
            },
            ZarrVectorValue::VInt64(v) => {
                while i < v.len()
                    invariant
                        i <= v.len(),
                        out@.len() == i,
                        forall|j: int|
                            0 <= j < i ==> opt_view(#[trigger] out@[j]) == Some(Scalar::Int64(v@[j])),
                    decreases v.len() - i,
                {
                    out.push(Some(ZarrValue::Int64(v[i])));
                    i += 1;
                }
            },
            ZarrVectorValue::VUInt8(v) => {
                while i < v.len()
                    invariant
                        i <= v.len(),
                        out@.len() == i,
                        forall|j: int|
                            0 <= j < i ==> opt_view(#[trigger] out@[j]) == Some(Scalar::UInt8(v@[j])),
                    decreases v.len() - i,
                {
                    out.push(Some(ZarrValue::UInt8(v[i])));
                    i += 1;
                }
            },
            ZarrVectorValue::VUInt16(v) => {
                while i < v.len()
                    invariant
                        i <= v.len(),
                        out@.len() == i,
                        forall|j: int|
                            0 <= j < i ==> opt_view(#[trigger] out@[j]) == Some(Scalar::UInt16(v@[j])),
                    decreases v.len() - i,
                {
                    out.push(Some(ZarrValue::UInt16(v[i])));
                    i += 1;
                }
            },
            ZarrVectorValue::VUInt32(v) => {
                while i < v.len()
                    invariant
                        i <= v.len(),
                        out@.len() == i,
                        forall|j: int|
                            0 <= j < i ==> opt_view(#[trigger] out@[j]) == Some(Scalar::UInt32(v@[j])),
                    decreases v.len() - i,
                {
                    out.push(Some(ZarrValue::UInt32(v[i])));
                    i += 1;
                }
            },
            ZarrVectorValue::VUInt64(v) => {
                while i < v.len()
                    invariant
                        i <= v.len(),
                        out@.len() == i,
                        forall|j: int|
                            0 <= j < i ==> opt_view(#[trigger] out@[j]) == Some(Scalar::UInt64(v@[j])),
                    decreases v.len() - i,
                {
                    out.push(Some(ZarrValue::UInt64(v[i])));
                    i += 1;
                }
            },
            ZarrVectorValue::VFloat16(v) => {
                while i < v.len()
                    invariant
                        i <= v.len(),
                        out@.len() == i,
                        forall|j: int|
                            0 <= j < i ==> opt_view(#[trigger] out@[j]) == Some(Scalar::Float16(v@[j])),
                    decreases v.len() - i,
                {
                    out.push(Some(ZarrValue::Float16(v[i])));
                    i += 1;
                }
            },
            ZarrVectorValue::VFloat32(v) => {
                while i < v.len()
                    invariant
                        i <= v.len(),
                        out@.len() == i,
                        forall|j: int|
                            0 <= j < i ==> opt_view(#[trigger] out@[j]) == Some(Scalar::Float32(v@[j])),
                    decreases v.len() - i,
                {
                    out.push(Some(ZarrValue::Float32(v[i])));
                    i += 1;
                }
            },
            ZarrVectorValue::VFloat64(v) => {
                while i < v.len()
                    invariant
                        i <= v.len(),
                        out@.len() == i,
                        forall|j: int|
                            0 <= j < i ==> opt_view(#[trigger] out@[j]) == Some(Scalar::Float64(v@[j])),
                    decreases v.len() - i,
                {
                    out.push(Some(ZarrValue::Float64(v[i])));
                    i += 1;
                }
            },
            ZarrVectorValue::VComplex64(v) => {
                while i < v.len()
                    invariant
                        i <= v.len(),
                        out@.len() == i,
                        forall|j: int|
                            0 <= j < i ==> opt_view(#[trigger] out@[j]) == Some(Scalar::Complex64(v@[j].0, v@[j].1)),
                    decreases v.len() - i,
                {
                    out.push(Some(ZarrValue::Complex64(v[i].0, v[i].1)));
                    i += 1;
                }
            },
            ZarrVectorValue::VComplex128(v) => {
                while i < v.len()
                    invariant
                        i <= v.len(),
                        out@.len() == i,
                        forall|j: int|
                            0 <= j < i ==> opt_view(#[trigger] out@[j]) == Some(Scalar::Complex128(v@[j].0, v@[j].1)),
                    decreases v.len() - i,
                {
                    out.push(Some(ZarrValue::Complex128(v[i].0, v[i].1)));
                    i += 1;
                }
            },
            ZarrVectorValue::VString(v) => {
                while i < v.len()
                    invariant
                        i <= v.len(),
                        out@.len() == i,
                        forall|j: int|
                            0 <= j < i ==> opt_view(#[trigger] out@[j]) == Some(Scalar::String(v@[j]@)),
                    decreases v.len() - i,
                {
                    out.push(Some(ZarrValue::String(v[i].clone())));
                    i += 1;
                }
            },
            ZarrVectorValue::VBytes(v) => {
                while i < v.len()
                    invariant
                        i <= v.len(),
                        out@.len() == i,
                        forall|j: int|
                            0 <= j < i ==> opt_view(#[trigger] out@[j]) == Some(Scalar::Bytes(v@[j]@)),
                    decreases v.len() - i,
                {
                    out.push(Some(ZarrValue::Bytes(v[i].clone())));
                    i += 1;
                }
            },
            ZarrVectorValue::VWithNulls(_, v) => {
                while i < v.len()
                    invariant
                        i <= v.len(),
                        out@.len() == i,
                        forall|j: int| 0 <= j < i ==> opt_view(#[trigger] out@[j]) == opt_view(v@[j]),
                    decreases v.len() - i,
                {
                    let item = match &v[i] {
                        Some(value) => Some(value.clone()),
                        None => None,
                    };
                    out.push(item);
                    i += 1;
                }
            },
        }
        proof {
            assert(views_of(out@) =~= self@.items);
        }
        out
    }
}

/// The vector of `count` copies of `item`.
fn repeated<T: Copy>(item: T, count: usize) -> (out: Vec<T>)
    ensures
        out@.len() == count,
        forall|i: int| 0 <= i < count ==> out@[i] == item,
{
    let mut out: Vec<T> = Vec::new();
    let mut i: usize = 0;
    while i < count
        invariant
            i <= count,
            out@.len() == i,
            forall|j: int| 0 <= j < i ==> out@[j] == item,
        decreases count - i,
    {
        out.push(item);
        i += 1;
    }
    out
}

/// Create a filled chunk vector by replicating a scalar value.
///
/// The element count of the chunk has to fit in `usize`;
/// [`checked_product`] tells whether it does.
pub fn fill_chunk(value: &ZarrValue, chunk_shape: &[usize]) -> (chunk: ZarrVectorValue)
    requires
        shape_product(chunk_shape@) <= usize::MAX,
    ensures
        chunk@ == VectorModel::filled(value@, shape_product(chunk_shape@)),
        chunk@.items.len() == shape_product(chunk_shape@),
{
    let total = match checked_product(chunk_shape) {
        Some(total) => total,
        None => 0,
    };
    let chunk = match value {
        ZarrValue::Bool(v) => ZarrVectorValue::VBool(repeated(*v, total)),
        ZarrValue::Int8(v) => ZarrVectorValue::VInt8(repeated(*v, total)),
        ZarrValue::Int16(v) => ZarrVectorValue::VInt16(repeated(*v, total)),
        ZarrValue::Int32(v) => ZarrVectorValue::VInt32(repeated(*v, total)),
        ZarrValue::Int64(v) => ZarrVectorValue::VInt64(repeated(*v, total)),
        ZarrValue::UInt8(v) => ZarrVectorValue::VUInt8(repeated(*v, total)),
        ZarrValue::UInt16(v) => ZarrVectorValue::VUInt16(repeated(*v, total)),
        ZarrValue::UInt32(v) => ZarrVectorValue::VUInt32(repeated(*v, total)),
        ZarrValue::UInt64(v) => ZarrVectorValue::VUInt64(repeated(*v, total)),
        ZarrValue::Float16(v) => ZarrVectorValue::VFloat16(repeated(*v, total)),
        ZarrValue::Float32(v) => ZarrVectorValue::VFloat32(repeated(*v, total)),
        ZarrValue::Float64(v) => ZarrVectorValue::VFloat64(repeated(*v, total)),
        ZarrValue::Complex64(re, im) => ZarrVectorValue::VComplex64(repeated((*re, *im), total)),
        ZarrValue::Complex128(re, im) => ZarrVectorValue::VComplex128(repeated((*re, *im), total)),
        ZarrValue::String(s) => {
            let mut out: Vec<String> = Vec::new();
            let mut i: usize = 0;
            while i < total
                invariant
                    i <= total,
                    out@.len() == i,
                    forall|j: int| 0 <= j < i ==> out@[j]@ == s@,
                decreases total - i,
            {
                out.push(s.clone());
                i += 1;
            }
            ZarrVectorValue::VString(out)
        },
        ZarrValue::Bytes(b) => {
            let mut out: Vec<Vec<u8>> = Vec::new();
            let mut i: usize = 0;
            while i < total
                invariant
                    i <= total,
                    out@.len() == i,
                    forall|j: int| 0 <= j < i ==> out@[j]@ == b@,
                decreases total - i,
            {
                out.push(b.clone());
                i += 1;
            }
            ZarrVectorValue::VBytes(out)
        },
        ZarrValue::Null(dtype) => {
            let mut out: Vec<Option<ZarrValue>> = Vec::new();
            let mut i: usize = 0;
            while i < total
                invariant
                    i <= total,
                    out@.len() == i,
                    forall|j: int| 0 <= j < i ==> out@[j] is None,
                decreases total - i,
            {
                out.push(None);
                i += 1;
            }
            ZarrVectorValue::VWithNulls(*dtype, out)
        },
    };
    proof {
        let model = VectorModel::filled(value@, shape_product(chunk_shape@));
        assert(chunk@.items =~= model.items);
    }
    chunk
}

/// The scalar of a fixed-size element type that its bytes spell: an integer
/// in the given byte order, a floating-point bit pattern in that order, a
/// complex number as real part then imaginary part, a boolean that is true
/// for a non-zero byte.
pub open spec fn decode_scalar(endian: Endian, dtype: DataType, bytes: Seq<u8>) -> Scalar {
    match dtype {
        DataType::Bool => Scalar::Bool(bytes[0] != 0),
        DataType::Int8 => Scalar::Int8(bytes[0] as i8),
        DataType::UInt8 => Scalar::UInt8(bytes[0]),
        DataType::Int16 => Scalar::Int16((word(endian, bytes) as u16) as i16),
        DataType::Int32 => Scalar::Int32((word(endian, bytes) as u32) as i32),
        DataType::Int64 => Scalar::Int64((word(endian, bytes) as u64) as i64),
        DataType::UInt16 => Scalar::UInt16(word(endian, bytes) as u16),
        DataType::UInt32 => Scalar::UInt32(word(endian, bytes) as u32),
        DataType::UInt64 => Scalar::UInt64(word(endian, bytes) as u64),
        DataType::Float16 => Scalar::Float16(word(endian, bytes) as u16),
        DataType::Float32 => Scalar::Float32(word(endian, bytes) as u32),
        DataType::Float64 => Scalar::Float64(word(endian, bytes) as u64),
        DataType::Complex64 => Scalar::Complex64(
            word(endian, bytes.subrange(0, 4)) as u32,
            word(endian, bytes.subrange(4, 8)) as u32,
        ),
        DataType::Complex128 => Scalar::Complex128(
            word(endian, bytes.subrange(0, 8)) as u64,
            word(endian, bytes.subrange(8, 16)) as u64,
        ),
        DataType::String | DataType::Bytes => Scalar::zero(dtype),
    }
}

/// The dense vector that a byte string spells: as many elements as fit
/// whole, each decoded from its own bytes; bytes left over at the end are
/// dropped.
pub open spec fn decoded(endian: Endian, dtype: DataType, data: Seq<u8>) -> VectorModel
    recommends
        dtype.width() is Some,
{
    let w = dtype.width().unwrap() as int;
    VectorModel {
        dtype,
        nullable: false,
        items: Seq::new(
            (data.len() as int / w) as nat,
            |i: int| Some(decode_scalar(endian, dtype, data.subrange(i * w, i * w + w))),
        ),
    }
}

/// Interpret raw bytes as a typed vector according to `endian` and `dtype`.
///
/// Fails with a decode error for the two variable-length element types,
/// whose elements cannot be told apart without length framing.
pub fn bytes_to_zarr_vector(endian: Endian, dtype: DataType, data: &[u8]) -> (result: ZarrResult<
    ZarrVectorValue,
>)
    ensures
        dtype.width() is None ==> (result matches Err(ZarrError::Decode(_))),
        dtype.width() is Some ==> (result matches Ok(vector) && vector@ == decoded(
            endian,
            dtype,
            data@,
        )),
{
    let mut i: usize = 0;
    let vector = match dtype {
        DataType::Bool => {
            let mut out: Vec<bool> = Vec::new();
            while i < data.len()
                invariant
                    i <= data@.len(),
                    out@.len() == i,
                    forall|j: int| 0 <= j < i ==> out@[j] == (data@[j] != 0),
                decreases data@.len() - i,
            {
                out.push(data[i] != 0);
                i += 1;
            }
            ZarrVectorValue::VBool(out)
        },
        DataType::Int8 => {
            let mut out: Vec<i8> = Vec::new();
            while i < data.len()
                invariant
                    i <= data@.len(),
                    out@.len() == i,
                    forall|j: int| 0 <= j < i ==> out@[j] == data@[j] as i8,
                decreases data@.len() - i,
            {
                out.push(data[i] as i8);
                i += 1;
            }
            ZarrVectorValue::VInt8(out)
        },
        DataType::UInt8 => ZarrVectorValue::VUInt8(slice_to_vec(data)),
        DataType::Int16 => {
            let count = data.len() / 2;
            let mut out: Vec<i16> = Vec::new();
            while i < count
                invariant
                    i <= count,
                    count == data@.len() / 2,
                    data@.len() <= usize::MAX,
                    out@.len() == i,
                    forall|j: int|
                        0 <= j < i ==> out@[j] == (word(endian, data@.subrange(j * 2, j * 2 + 2)) as u16) as i16,
                decreases count - i,
            {
                let value = read_word(endian, data, i * 2, 2);
                proof {
                    lemma_radix_powers();
                }
                out.push((value as u16) as i16);
                i += 1;
            }
            ZarrVectorValue::VInt16(out)
        },
        DataType::Int32 => {
            let count = data.len() / 4;
            let mut out: Vec<i32> = Vec::new();
            while i < count
                invariant
                    i <= count,
                    count == data@.len() / 4,
                    data@.len() <= usize::MAX,
                    out@.len() == i,
                    forall|j: int|
                        0 <= j < i ==> out@[j] == (word(endian, data@.subrange(j * 4, j * 4 + 4)) as u32) as i32,
                decreases count - i,
            {
                let value = read_word(endian, data, i * 4, 4);
                proof {
                    lemma_radix_powers();
                }
                out.push((value as u32) as i32);
                i += 1;
            }
            ZarrVectorValue::VInt32(out)
        },
        DataType::Int64 => {
            let count = data.len() / 8;
            let mut out: Vec<i64> = Vec::new();
            while i < count
                invariant
                    i <= count,
                    count == data@.len() / 8,
                    data@.len() <= usize::MAX,
                    out@.len() == i,
                    forall|j: int|
                        0 <= j < i ==> out@[j] == (word(endian, data@.subrange(j * 8, j * 8 + 8)) as u64) as i64,
                decreases count - i,
            {
                let value = read_word(endian, data, i * 8, 8);
                proof {
                    lemma_radix_powers();
                }
                out.push(value as i64);
                i += 1;
            }
            ZarrVectorValue::VInt64(out)
        },
        DataType::UInt16 => {
            let count = data.len() / 2;
            let mut out: Vec<u16> = Vec::new();
            while i < count
                invariant
                    i <= count,
                    count == data@.len() / 2,
                    data@.len() <= usize::MAX,
                    out@.len() == i,
                    forall|j: int|
                        0 <= j < i ==> out@[j] == word(endian, data@.subrange(j * 2, j * 2 + 2)) as u16,
                decreases count - i,
            {
                let value = read_word(endian, data, i * 2, 2);
                proof {
                    lemma_radix_powers();
                }
                out.push(value as u16);
                i += 1;
            }
            ZarrVectorValue::VUInt16(out)
        },
        DataType::UInt32 => {
            let count = data.len() / 4;
            let mut out: Vec<u32> = Vec::new();
            while i < count
                invariant
                    i <= count,
                    count == data@.len() / 4,
                    data@.len() <= usize::MAX,
                    out@.len() == i,
                    forall|j: int|
                        0 <= j < i ==> out@[j] == word(endian, data@.subrange(j * 4, j * 4 + 4)) as u32,
                decreases count - i,
            {
                let value = read_word(endian, data, i * 4, 4);
                proof {
                    lemma_radix_powers();
                }
                out.push(value as u32);
                i += 1;
            }
            ZarrVectorValue::VUInt32(out)
        },
        DataType::UInt64 => {
            let count = data.len() / 8;
            let mut out: Vec<u64> = Vec::new();
            while i < count
                invariant
                    i <= count,
                    count == data@.len() / 8,
                    data@.len() <= usize::MAX,
                    out@.len() == i,
                    forall|j: int|
                        0 <= j < i ==> out@[j] == word(endian, data@.subrange(j * 8, j * 8 + 8)) as u64,
                decreases count - i,
            {
                let value = read_word(endian, data, i * 8, 8);
                proof {
                    lemma_radix_powers();
                }
                out.push(value);
                i += 1;
            }
            ZarrVectorValue::VUInt64(out)
        },
        DataType::Float16 => {
            let count = data.len() / 2;
            let mut out: Vec<u16> = Vec::new();
            while i < count
                invariant
                    i <= count,
                    count == data@.len() / 2,
                    data@.len() <= usize::MAX,
                    out@.len() == i,
                    forall|j: int|
                        0 <= j < i ==> out@[j] == word(endian, data@.subrange(j * 2, j * 2 + 2)) as u16,
                decreases count - i,
            {
                let value = read_word(endian, data, i * 2, 2);
                proof {
                    lemma_radix_powers();
                }
                out.push(value as u16);
                i += 1;
            }
            ZarrVectorValue::VFloat16(out)
        },
        DataType::Float32 => {
            let count = data.len() / 4;
            let mut out: Vec<u32> = Vec::new();
            while i < count
                invariant
                    i <= count,
                    count == data@.len() / 4,
                    data@.len() <= usize::MAX,
                    out@.len() == i,
                    forall|j: int|
                        0 <= j < i ==> out@[j] == word(endian, data@.subrange(j * 4, j * 4 + 4)) as u32,
                decreases count - i,
            {
                let value = read_word(endian, data, i * 4, 4);
                proof {
                    lemma_radix_powers();
                }
                out.push(value as u32);
                i += 1;
            }
            ZarrVectorValue::VFloat32(out)
        },
        DataType::Float64 => {
            let count = data.len() / 8;
            let mut out: Vec<u64> = Vec::new();
            while i < count
                invariant
                    i <= count,
                    count == data@.len() / 8,
                    data@.len() <= usize::MAX,
                    out@.len() == i,
                    forall|j: int|
                        0 <= j < i ==> out@[j] == word(endian, data@.subrange(j * 8, j * 8 + 8)) as u64,
                decreases count - i,
            {
                let value = read_word(endian, data, i * 8, 8);
                proof {
                    lemma_radix_powers();
                }
                out.push(value);
                i += 1;
            }
            ZarrVectorValue::VFloat64(out)
        },
        DataType::Complex64 => {
            let count = data.len() / 8;
            let mut out: Vec<(u32, u32)> = Vec::new();
            while i < count
                invariant
                    i <= count,
                    count == data@.len() / 8,
                    data@.len() <= usize::MAX,
                    out@.len() == i,
                    forall|j: int|
                        0 <= j < i ==> out@[j] == (
                            word(endian, data@.subrange(j * 8, j * 8 + 4)) as u32,
                            word(endian, data@.subrange(j * 8 + 4, j * 8 + 8)) as u32,
                        ),
                decreases count - i,
            {
                let re = read_word(endian, data, i * 8, 4);
                let im = read_word(endian, data, i * 8 + 4, 4);
                proof {
                    lemma_radix_powers();
                }
                out.push((re as u32, im as u32));
                i += 1;
            }
            ZarrVectorValue::VComplex64(out)
        },
        DataType::Complex128 => {
            let count = data.len() / 16;
            let mut out: Vec<(u64, u64)> = Vec::new();
            while i < count
                invariant
                    i <= count,
                    count == data@.len() / 16,
                    data@.len() <= usize::MAX,
                    out@.len() == i,
                    forall|j: int|
                        0 <= j < i ==> out@[j] == (
                            word(endian, data@.subrange(j * 16, j * 16 + 8)) as u64,
                            word(endian, data@.subrange(j * 16 + 8, j * 16 + 16)) as u64,
                        ),
                decreases count - i,
            {
                let re = read_word(endian, data, i * 16, 8);
                let im = read_word(endian, data, i * 16 + 8, 8);
                proof {
                    lemma_radix_powers();
                }
                out.push((re, im));
                i += 1;
            }
            ZarrVectorValue::VComplex128(out)
        },
        DataType::String | DataType::Bytes => {
            return Err(
                ZarrError::Decode(
                    String::from_str(
                        "Cannot interpret raw bytes as String/Bytes vector without length info",
                    ),
                ),
            );
        },
    };
    proof {
        let model = decoded(endian, dtype, data@);
        let w = dtype.width().unwrap() as int;
        assert(vector@.items.len() == model.items.len());
        assert forall|j: int| 0 <= j < model.items.len() implies vector@.items[j]
            == model.items[j] by {
            assert(0 <= j * w && j * w + w <= data@.len()) by (nonlinear_arith)
                requires
                    0 <= j < data@.len() as int / w,
                    w > 0,
            ;
            let piece = data@.subrange(j * w, j * w + w);
            assert(piece[0] == data@[j * w]);
            if w == 8 {
                assert(piece.subrange(0, 4) =~= data@.subrange(j * 8, j * 8 + 4));
                assert(piece.subrange(4, 8) =~= data@.subrange(j * 8 + 4, j * 8 + 8));
            }
            if w == 16 {
                assert(piece.subrange(0, 8) =~= data@.subrange(j * 16, j * 16 + 8));
                assert(piece.subrange(8, 16) =~= data@.subrange(j * 16 + 8, j * 16 + 16));
            }
        }
        assert(vector@.items =~= model.items);
    }
    Ok(vector)
}

/// The bytes that spell a scalar of a fixed-size element type: the
/// inverse of [`decode_scalar`]. A true boolean is the byte 1.
pub open spec fn encode_scalar(endian: Endian, scalar: Scalar) -> Seq<u8> {
    match scalar {
        Scalar::Bool(b) => seq![if b { 1u8 } else { 0u8 }],
        Scalar::Int8(v) => seq![v as u8],
        Scalar::UInt8(v) => seq![v],
        Scalar::Int16(v) => word_bytes(endian, (v as u16) as nat, 2),
        Scalar::Int32(v) => word_bytes(endian, (v as u32) as nat, 4),
        Scalar::Int64(v) => word_bytes(endian, (v as u64) as nat, 8),
        Scalar::UInt16(v) => word_bytes(endian, v as nat, 2),
        Scalar::UInt32(v) => word_bytes(endian, v as nat, 4),
        Scalar::UInt64(v) => word_bytes(endian, v as nat, 8),
        Scalar::Float16(v) => word_bytes(endian, v as nat, 2),
        Scalar::Float32(v) => word_bytes(endian, v as nat, 4),
        Scalar::Float64(v) => word_bytes(endian, v as nat, 8),
        Scalar::Complex64(re, im) => word_bytes(endian, re as nat, 4) + word_bytes(
            endian,
            im as nat,
            4,
        ),
        Scalar::Complex128(re, im) => word_bytes(endian, re as nat, 8) + word_bytes(
            endian,
            im as nat,
            8,
        ),
        Scalar::String(_) | Scalar::Bytes(_) | Scalar::Null(_) => Seq::empty(),
    }
}

/// The bytes that spell a sequence of scalars, one behind the other.
pub open spec fn encode_items(endian: Endian, items: Seq<Scalar>) -> Seq<u8>
    decreases items.len(),
{
    if items.len() == 0 {
        Seq::empty()
    } else {
        encode_items(endian, items.drop_last()) + encode_scalar(endian, items.last())
    }
}

/// Whether a scalar is an element of a fixed-size type.
pub open spec fn is_fixed_size(scalar: Scalar) -> bool {
    !(scalar is Null) && scalar.data_type().width() is Some
}

/// Encoding a scalar of a fixed-size type in either byte order and
/// decoding the bytes gives back the scalar.
pub proof fn lemma_scalar_round_trip(endian: Endian, scalar: Scalar)
    requires
        is_fixed_size(scalar),
    ensures
        encode_scalar(endian, scalar).len() == scalar.data_type().width().unwrap(),
        decode_scalar(endian, scalar.data_type(), encode_scalar(endian, scalar)) == scalar,
{
    lemma_radix_powers();
    let bytes = encode_scalar(endian, scalar);
    match scalar {
        Scalar::Bool(b) => {},
        Scalar::Int8(v) => {
            assert((v as u8) as i8 == v) by (bit_vector);
        },
        Scalar::UInt8(v) => {},
        Scalar::Int16(v) => {
            lemma_word_round_trip(endian, (v as u16) as nat, 2);
            assert((v as u16) as i16 == v) by (bit_vector);
        },
        Scalar::Int32(v) => {
            lemma_word_round_trip(endian, (v as u32) as nat, 4);
            assert((v as u32) as i32 == v) by (bit_vector);
        },
        Scalar::Int64(v) => {
            lemma_word_round_trip(endian, (v as u64) as nat, 8);
            assert((v as u64) as i64 == v) by (bit_vector);
        },
        Scalar::UInt16(v) => {
            lemma_word_round_trip(endian, v as nat, 2);
        },
        Scalar::UInt32(v) => {
            lemma_word_round_trip(endian, v as nat, 4);
        },
        Scalar::UInt64(v) => {
            lemma_word_round_trip(endian, v as nat, 8);
        },
        Scalar::Float16(v) => {
            lemma_word_round_trip(endian, v as nat, 2);
        },
        Scalar::Float32(v) => {
            lemma_word_round_trip(endian, v as nat, 4);
        },
        Scalar::Float64(v) => {
            lemma_word_round_trip(endian, v as nat, 8);
        },
        Scalar::Complex64(re, im) => {
            lemma_word_round_trip(endian, re as nat, 4);
            lemma_word_round_trip(endian, im as nat, 4);
            assert(bytes.subrange(0, 4) =~= word_bytes(endian, re as nat, 4));
            assert(bytes.subrange(4, 8) =~= word_bytes(endian, im as nat, 4));
        },
        Scalar::Complex128(re, im) => {
            lemma_word_round_trip(endian, re as nat, 8);
            lemma_word_round_trip(endian, im as nat, 8);
            assert(bytes.subrange(0, 8) =~= word_bytes(endian, re as nat, 8));
            assert(bytes.subrange(8, 16) =~= word_bytes(endian, im as nat, 8));
        },
        _ => {},
    }
}

/// The bytes of `n` encoded scalars of one fixed-size type are `n` times
/// the width, and those of each scalar stand in its own place.
pub proof fn lemma_encoded_layout(endian: Endian, dtype: DataType, items: Seq<Scalar>, i: int)
    requires
        dtype.width() is Some,
        forall|k: int|
            0 <= k < items.len() ==> is_fixed_size(#[trigger] items[k]) && items[k].data_type()
                == dtype,
        0 <= i < items.len(),
    ensures
        encode_items(endian, items).len() == items.len() * dtype.width().unwrap(),
        0 <= i * dtype.width().unwrap() && i * dtype.width().unwrap() + dtype.width().unwrap()
            <= encode_items(endian, items).len(),
        encode_items(endian, items).subrange(
            i * dtype.width().unwrap(),
            i * dtype.width().unwrap() + dtype.width().unwrap(),
        ) == encode_scalar(endian, items[i]),
    decreases items.len(),
{
    let w = dtype.width().unwrap() as int;
    let n = items.len() as int;
    let data = encode_items(endian, items);
    let front = items.drop_last();
    let prefix = encode_items(endian, front);
    let last = encode_scalar(endian, items.last());
    lemma_scalar_round_trip(endian, items.last());
    assert(last.len() == w);
    if n > 1 {
        lemma_encoded_layout(endian, dtype, front, 0);
    }
    assert(prefix.len() == (n - 1) * w) by {
        if n == 1 {
            assert(front.len() == 0);
        }
    }
    assert(data.len() == n * w) by (nonlinear_arith)
        requires
            data.len() == (n - 1) * w + w,
    ;
    assert(0 <= i * w && i * w + w <= n * w) by (nonlinear_arith)
        requires
            0 <= i < n,
            w > 0,
    ;
    if i < n - 1 {
        lemma_encoded_layout(endian, dtype, front, i);
        assert(i * w + w <= (n - 1) * w) by (nonlinear_arith)
            requires
                0 <= i < n - 1,
                w > 0,
        ;
        assert(data.subrange(i * w, i * w + w) =~= prefix.subrange(i * w, i * w + w));
    } else {
        assert(data.subrange(i * w, i * w + w) =~= last);
    }
}

/// Encoding the elements of a vector of a fixed-size type in either byte
/// order and reading the bytes as a typed vector gives back the elements.
pub proof fn lemma_vector_round_trip(endian: Endian, dtype: DataType, items: Seq<Scalar>)
    requires
        dtype.width() is Some,
        forall|i: int|
            0 <= i < items.len() ==> is_fixed_size(#[trigger] items[i]) && items[i].data_type()
                == dtype,
    ensures
        decoded(endian, dtype, encode_items(endian, items)).items == Seq::new(
            items.len(),
            |i: int| Some(items[i]),
        ),
{
    let w = dtype.width().unwrap() as int;
    let n = items.len() as int;
    let data = encode_items(endian, items);
    let got = decoded(endian, dtype, data).items;
    if n == 0 {
        assert(data.len() == 0);
        assert(0int / w == 0);
    } else {
        lemma_encoded_layout(endian, dtype, items, 0);
        assert((n * w) / w == n) by (nonlinear_arith)
            requires
                w > 0,
        ;
    }
    assert(got.len() == n);
    assert forall|i: int| 0 <= i < n implies got[i] == Some(items[i]) by {
        lemma_encoded_layout(endian, dtype, items, i);
        lemma_scalar_round_trip(endian, items[i]);
    }
    assert(got =~= Seq::new(items.len(), |i: int| Some(items[i])));
}

} // verus!
