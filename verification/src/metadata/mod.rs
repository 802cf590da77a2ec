//! Metadata rules: the fill value of an array, read from JSON with the
//! element type in hand.

pub mod v2;

use crate::json::{Json, JsonNumber, JsonValue};
use crate::text::same_text;
use crate::types::{DataType, Fill, FillValue, Scalar, ZarrValue};
use vstd::prelude::*;
use vstd::string::{StrSliceExecFns, StringExecFns};
use vstd::utf8::encode_utf8;

verus! {

/// The fill value that a JSON number gives for an element type, or `None`
/// where the number does not suit the type.
///
/// An integer type takes the matching integer reading and asks that it is
/// in range. A floating-point type takes the floating-point reading at its
/// own precision; for a complex type that is the real part, beside a zero
/// imaginary part. A boolean is true for a non-zero integer. The two
/// variable-length types take no number.
pub open spec fn numeric_fill(dtype: DataType, n: JsonNumber) -> Option<Fill> {
    match dtype {
        DataType::Int8 => match n.int {
            Some(i) if i8::MIN <= i <= i8::MAX => Some(Fill::Value(Scalar::Int8(i as i8))),
            _ => None,
        },
        DataType::Int16 => match n.int {
            Some(i) if i16::MIN <= i <= i16::MAX => Some(Fill::Value(Scalar::Int16(i as i16))),
            _ => None,
        },
        DataType::Int32 => match n.int {
            Some(i) if i32::MIN <= i <= i32::MAX => Some(Fill::Value(Scalar::Int32(i as i32))),
            _ => None,
        },
        DataType::Int64 => match n.int {
            Some(i) => Some(Fill::Value(Scalar::Int64(i))),
            None => None,
        },
        DataType::UInt8 => match n.uint {
            Some(u) if u <= u8::MAX => Some(Fill::Value(Scalar::UInt8(u as u8))),
            _ => None,
        },
        DataType::UInt16 => match n.uint {
            Some(u) if u <= u16::MAX => Some(Fill::Value(Scalar::UInt16(u as u16))),
            _ => None,
        },
        DataType::UInt32 => match n.uint {
            Some(u) if u <= u32::MAX => Some(Fill::Value(Scalar::UInt32(u as u32))),
            _ => None,
        },
        DataType::UInt64 => match n.uint {
            Some(u) => Some(Fill::Value(Scalar::UInt64(u))),
            None => None,
        },
        DataType::Float16 => match n.double {
            Some(_) => Some(Fill::Value(Scalar::Float16(n.half))),
            None => None,
        },
        DataType::Float32 => match n.double {
            Some(_) => Some(Fill::Value(Scalar::Float32(n.single))),
            None => None,
        },
        DataType::Float64 => match n.double {
            Some(bits) => Some(Fill::Value(Scalar::Float64(bits))),
            None => None,
        },
        DataType::Complex64 => match n.double {
            Some(_) => Some(Fill::Value(Scalar::Complex64(n.single, 0))),
            None => None,
        },
        DataType::Complex128 => match n.double {
            Some(bits) => Some(Fill::Value(Scalar::Complex128(bits, 0))),
            None => None,
        },
        DataType::Bool => match n.int {
            Some(i) => Some(Fill::Value(Scalar::Bool(i != 0))),
            None => None,
        },
        DataType::String | DataType::Bytes => None,
    }
}

/// The fill value that a JSON value gives for an element type, or `None`
/// where the value does not suit the type.
///
/// `null` gives the not-a-number marker whatever the type. The strings
/// `NaN`, `Infinity` and `-Infinity` give their markers for floating-point
/// types only. Any other string is the fill value of a string array as it
/// stands, and of a byte-string array as its UTF-8 bytes. A boolean suits
/// the boolean type only. A number goes by [`numeric_fill`]. Arrays and
/// objects suit no type.
pub open spec fn fill_of_json(dtype: DataType, value: Json) -> Option<Fill> {
    match value {
        Json::Null => Some(Fill::NaN),
        Json::String(s) => if s == "NaN"@ {
            if dtype.is_floating() {
                Some(Fill::NaN)
            } else {
                None
            }
        } else if s == "Infinity"@ {
            if dtype.is_floating() {
                Some(Fill::Infinity)
            } else {
                None
            }
        } else if s == "-Infinity"@ {
            if dtype.is_floating() {
                Some(Fill::NegativeInfinity)
            } else {
                None
            }
        } else {
            match dtype {
                DataType::String => Some(Fill::Value(Scalar::String(s))),
                DataType::Bytes => Some(Fill::Value(Scalar::Bytes(encode_utf8(s)))),
                _ => None,
            }
        },
        Json::Bool(b) => match dtype {
            DataType::Bool => Some(Fill::Value(Scalar::Bool(b))),
            _ => None,
        },
        Json::Number(n) => numeric_fill(dtype, n),
        _ => None,
    }
}

/// A fill value that was read from JSON agrees with the element type: an
/// explicit value is a scalar of that type, and a floating-point marker
/// stands with a floating-point type unless the JSON value was `null`.
pub proof fn lemma_fill_agrees_with_type(dtype: DataType, value: Json)
    requires
        fill_of_json(dtype, value) is Some,
    ensures
        match fill_of_json(dtype, value).unwrap() {
            Fill::Value(scalar) => scalar.data_type() == dtype && !(scalar is Null),
            _ => dtype.is_floating() || value is Null,
        },
{
}

/// Whether a parse result agrees with what the rules give.
pub open spec fn fill_result_matches(result: Result<FillValue, String>, expected: Option<Fill>) -> bool {
    match expected {
        Some(fill) => result matches Ok(found) && found@ == fill,
        None => result is Err,
    }
}

/// A floating-point marker, accepted for floating-point types only.
fn special_fill(dtype: DataType, marker: FillValue) -> (result: Result<FillValue, String>)
    requires
        !(marker is Value),
    ensures
        fill_result_matches(
            result,
            if dtype.is_floating() {
                Some(marker@)
            } else {
                None
            },
        ),
{
    if dtype.is_float_like() {
        Ok(marker)
    } else {
        Err(String::from_str("special floating-point fill value given for a type without one"))
    }
}

/// Parse a fill value from a JSON value, given the target data type.
/// Handles special string values like "NaN", "Infinity", "-Infinity",
/// JSON null, and normal numeric/bool/string values.
pub fn parse_fill_value(dtype: DataType, value: &JsonValue) -> (result: Result<FillValue, String>)
    ensures
        fill_result_matches(result, fill_of_json(dtype, value@)),
{
    match value {
        JsonValue::Null => Ok(FillValue::NaN),
        JsonValue::String(s) => {
            if same_text(s.as_str(), "NaN") {
                special_fill(dtype, FillValue::NaN)
            } else if same_text(s.as_str(), "Infinity") {
                special_fill(dtype, FillValue::Infinity)
            } else if same_text(s.as_str(), "-Infinity") {
                special_fill(dtype, FillValue::NegativeInfinity)
            } else {
                match dtype {
                    DataType::String => Ok(FillValue::Value(ZarrValue::String(s.clone()))),
                    DataType::Bytes => Ok(
                        FillValue::Value(ZarrValue::Bytes(s.as_str().as_bytes_vec())),
                    ),
                    _ => Err(
                        String::from_str("string fill value given for a type that is not textual"),
                    ),
                }
            }
        },
        JsonValue::Bool(b) => match dtype {
            DataType::Bool => Ok(FillValue::Value(ZarrValue::Bool(*b))),
            _ => Err(String::from_str("boolean fill value given for a type that is not boolean")),
        },
        JsonValue::Number(n) => parse_numeric_fill(dtype, n),
        _ => Err(String::from_str("Unexpected fill_value JSON")),
    }
}

/// The fill value that a JSON number gives for the element type.
pub fn parse_numeric_fill(dtype: DataType, n: &JsonNumber) -> (result: Result<FillValue, String>)
    ensures
        fill_result_matches(result, numeric_fill(dtype, *n)),
{
    match dtype {
        DataType::Int8 => match n.int {
            Some(i) => {
                if -128 <= i && i <= 127 {
                    Ok(FillValue::Value(ZarrValue::Int8(i as i8)))
                } else {
                    Err(String::from_str("Value out of range for Int8"))
                }
            },
            None => Err(String::from_str("Expected int for Int8")),
        },
        DataType::Int16 => match n.int {
            Some(i) => {
                if -32768 <= i && i <= 32767 {
                    Ok(FillValue::Value(ZarrValue::Int16(i as i16)))
                } else {
                    Err(String::from_str("Value out of range for Int16"))
                }
            },
            None => Err(String::from_str("Expected int for Int16")),
        },
        DataType::Int32 => match n.int {
            Some(i) => {
                if -2147483648 <= i && i <= 2147483647 {
                    Ok(FillValue::Value(ZarrValue::Int32(i as i32)))
                } else {
                    Err(String::from_str("Value out of range for Int32"))
                }
            },
            None => Err(String::from_str("Expected int for Int32")),
        },
        DataType::Int64 => match n.int {
            Some(i) => Ok(FillValue::Value(ZarrValue::Int64(i))),
            None => Err(String::from_str("Expected int for Int64")),
        },
        DataType::UInt8 => match n.uint {
            Some(u) => {
                if u <= 255 {
                    Ok(FillValue::Value(ZarrValue::UInt8(u as u8)))
                } else {
                    Err(String::from_str("Value out of range for UInt8"))
                }
            },
            None => Err(String::from_str("Expected uint for UInt8")),
        },
        DataType::UInt16 => match n.uint {
            Some(u) => {
                if u <= 65535 {
                    Ok(FillValue::Value(ZarrValue::UInt16(u as u16)))
                } else {
                    Err(String::from_str("Value out of range for UInt16"))
                }
            },
            None => Err(String::from_str("Expected uint for UInt16")),
        },
        DataType::UInt32 => match n.uint {
            Some(u) => {
                if u <= 4294967295 {
                    Ok(FillValue::Value(ZarrValue::UInt32(u as u32)))
                } else {
                    Err(String::from_str("Value out of range for UInt32"))
                }
            },
            None => Err(String::from_str("Expected uint for UInt32")),
        },
        DataType::UInt64 => match n.uint {
            Some(u) => Ok(FillValue::Value(ZarrValue::UInt64(u))),
            None => Err(String::from_str("Expected uint for UInt64")),
        },
        DataType::Float16 => match n.double {
            Some(_) => Ok(FillValue::Value(ZarrValue::Float16(n.half))),
            None => Err(String::from_str("Expected float for Float16")),
        },
        DataType::Float32 => match n.double {
            Some(_) => Ok(FillValue::Value(ZarrValue::Float32(n.single))),
            None => Err(String::from_str("Expected float for Float32")),
        },
        DataType::Float64 => match n.double {
            Some(bits) => Ok(FillValue::Value(ZarrValue::Float64(bits))),
            None => Err(String::from_str("Expected float for Float64")),
        },
        DataType::Complex64 => match n.double {
            Some(_) => Ok(FillValue::Value(ZarrValue::Complex64(n.single, 0))),
            None => Err(String::from_str("Expected float for Complex64")),
        },
        DataType::Complex128 => match n.double {
            Some(bits) => Ok(FillValue::Value(ZarrValue::Complex128(bits, 0))),
            None => Err(String::from_str("Expected float for Complex128")),
        },
        DataType::Bool => match n.int {
            Some(i) => Ok(FillValue::Value(ZarrValue::Bool(i != 0))),
            None => Err(String::from_str("Expected int for Bool")),
        },
        DataType::String | DataType::Bytes => Err(
            String::from_str("Expected string fill value, got number"),
        ),
    }
}

} // verus!
