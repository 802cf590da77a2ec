//! The error type shared by every fallible operation of the crate.

use vstd::prelude::*;
use vstd::string::StringExecFns;

verus! {

/// The kind of a failure, without its message.
#[derive(Debug, Clone, Copy, PartialEq, Eq, Hash, Structural)]
pub enum ErrorKind {
    Io,
    Json,
    Metadata,
    Decode,
    Encode,
    TypeConversion,
    Storage,
    Codec,
    NotFound,
    Other,
}

/// The closed set of failures. Each variant carries a human-readable
/// message; contracts speak of the variant only.
#[derive(Debug, PartialEq, Eq)]
pub enum ZarrError {
    /// A backend filesystem call failed.
    Io(String),
    /// The metadata document is not JSON.
    Json(String),
    /// The metadata is JSON but not a valid array or group description.
    Metadata(String),
    /// A codec could not decode its input, or the framing does not match.
    Decode(String),
    /// A codec could not encode its input.
    Encode(String),
    /// A typed vector cannot be converted to the requested element type.
    TypeConversion(String),
    /// The storage backend failed for a reason other than I/O.
    Storage(String),
    /// The codec is unknown or misconfigured.
    Codec(String),
    /// The `.zarray` document or the chunk key does not exist.
    NotFound(String),
    /// Anything else, such as a key of the wrong dimensionality.
    Other(String),
}

pub type ZarrResult<T> = Result<T, ZarrError>;

impl Clone for ZarrError {
    fn clone(&self) -> (copy: ZarrError)
        ensures
            copy == *self,
    {
        match self {
            ZarrError::Io(m) => ZarrError::Io(m.clone()),
            ZarrError::Json(m) => ZarrError::Json(m.clone()),
            ZarrError::Metadata(m) => ZarrError::Metadata(m.clone()),
            ZarrError::Decode(m) => ZarrError::Decode(m.clone()),
            ZarrError::Encode(m) => ZarrError::Encode(m.clone()),
            ZarrError::TypeConversion(m) => ZarrError::TypeConversion(m.clone()),
            ZarrError::Storage(m) => ZarrError::Storage(m.clone()),
            ZarrError::Codec(m) => ZarrError::Codec(m.clone()),
            ZarrError::NotFound(m) => ZarrError::NotFound(m.clone()),
            ZarrError::Other(m) => ZarrError::Other(m.clone()),
        }
    }
}

impl ZarrError {
    /// The kind of the failure.
    pub open spec fn spec_kind(&self) -> ErrorKind {
        match self {
            ZarrError::Io(_) => ErrorKind::Io,
            ZarrError::Json(_) => ErrorKind::Json,
            ZarrError::Metadata(_) => ErrorKind::Metadata,
            ZarrError::Decode(_) => ErrorKind::Decode,
            ZarrError::Encode(_) => ErrorKind::Encode,
            ZarrError::TypeConversion(_) => ErrorKind::TypeConversion,
            ZarrError::Storage(_) => ErrorKind::Storage,
            ZarrError::Codec(_) => ErrorKind::Codec,
            ZarrError::NotFound(_) => ErrorKind::NotFound,
            ZarrError::Other(_) => ErrorKind::Other,
        }
    }

    /// The kind of the failure.
    #[verifier::when_used_as_spec(spec_kind)]
    pub fn kind(&self) -> (kind: ErrorKind)
        ensures
            kind == self.spec_kind(),
    {
        match self {
            ZarrError::Io(_) => ErrorKind::Io,
            ZarrError::Json(_) => ErrorKind::Json,
            ZarrError::Metadata(_) => ErrorKind::Metadata,
            ZarrError::Decode(_) => ErrorKind::Decode,
            ZarrError::Encode(_) => ErrorKind::Encode,
            ZarrError::TypeConversion(_) => ErrorKind::TypeConversion,
            ZarrError::Storage(_) => ErrorKind::Storage,
            ZarrError::Codec(_) => ErrorKind::Codec,
            ZarrError::NotFound(_) => ErrorKind::NotFound,
            ZarrError::Other(_) => ErrorKind::Other,
        }
    }

    /// The text that the error variant puts in front of its message.
    pub open spec fn prefix(self) -> Seq<char> {
        match self {
            ZarrError::Io(_) => "I/O error: "@,
            ZarrError::Json(_) => "JSON error: "@,
            ZarrError::Metadata(_) => "Metadata error: "@,
            ZarrError::Decode(_) => "Decode error: "@,
            ZarrError::Encode(_) => "Encode error: "@,
            ZarrError::TypeConversion(_) => "Type conversion error: "@,
            ZarrError::Storage(_) => "Storage error: "@,
            ZarrError::Codec(_) => "Codec error: "@,
            ZarrError::NotFound(_) => "Not found: "@,
            ZarrError::Other(_) => ""@,
        }
    }

    /// The message carried by the error, whatever its variant.
    pub open spec fn detail(self) -> Seq<char> {
        match self {
            ZarrError::Io(m) => m@,
            ZarrError::Json(m) => m@,
            ZarrError::Metadata(m) => m@,
            ZarrError::Decode(m) => m@,
            ZarrError::Encode(m) => m@,
            ZarrError::TypeConversion(m) => m@,
            ZarrError::Storage(m) => m@,
            ZarrError::Codec(m) => m@,
            ZarrError::NotFound(m) => m@,
            ZarrError::Other(m) => m@,
        }
    }

    /// Renders the error as one line: the variant's prefix, then the message.
    pub fn message(&self) -> (text: String)
        ensures
            text@ == self.prefix() + self.detail(),
    {
        match self {
            ZarrError::Io(m) => String::from_str("I/O error: ").concat(m.as_str()),
            ZarrError::Json(m) => String::from_str("JSON error: ").concat(m.as_str()),
            ZarrError::Metadata(m) => String::from_str("Metadata error: ").concat(m.as_str()),
            ZarrError::Decode(m) => String::from_str("Decode error: ").concat(m.as_str()),
            ZarrError::Encode(m) => String::from_str("Encode error: ").concat(m.as_str()),
            ZarrError::TypeConversion(m) => String::from_str("Type conversion error: ").concat(
                m.as_str(),
            ),
            ZarrError::Storage(m) => String::from_str("Storage error: ").concat(m.as_str()),
            ZarrError::Codec(m) => String::from_str("Codec error: ").concat(m.as_str()),
            ZarrError::NotFound(m) => String::from_str("Not found: ").concat(m.as_str()),
            ZarrError::Other(m) => String::from_str("").concat(m.as_str()),
        }
    }
}

} // verus!
