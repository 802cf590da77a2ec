//! Read-path library for chunked N-dimensional arrays in the Zarr v2 layout:
//! metadata parsing, index arithmetic, codec pipelines and typed decoding of
//! chunk bytes.

pub mod array;
pub mod codecs;
pub mod error;
pub mod group;
pub mod json;
pub mod merge;
pub mod metadata;
pub mod shape;
pub mod text;
pub mod types;
pub mod v2;
pub mod wire;

pub use array::{UnifiedMetadata, UnifiedZarrArray};
pub use error::{ErrorKind, ZarrError, ZarrResult};
pub use group::{UnifiedGroupMetadata, UnifiedZarrGroup};
pub use types::{ArrayOrder, DataType, Endian, FillValue, ZarrValue, ZarrVectorValue};
