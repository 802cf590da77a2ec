//! The codec set and the decode pipeline.

pub mod blosc;
pub mod bytes;
pub mod fixedscaleoffset;
pub mod gzip;
pub mod lz4;
pub mod parse;
pub mod sharding;
pub mod zlib;
pub mod zstd;

pub use parse::{parse_codec, parse_codecs};

use crate::error::{ErrorKind, ZarrError, ZarrResult};
use crate::json::Json;
use crate::text::same_text;
use crate::types::Endian;
use vstd::prelude::*;
use vstd::slice::slice_to_vec;
use vstd::string::StringExecFns;

verus! {

/// Whether a wrapper's result is the outcome that a name stands for: the
/// bytes where there are some, an error text where there are none.
pub open spec fn stream_result(result: Result<Vec<u8>, String>, named: Option<Seq<u8>>) -> bool {
    match named {
        Some(bytes) => result matches Ok(out) && out@ == bytes,
        None => result is Err,
    }
}

/// Whether a decode result is the expected bytes, or a decode error where
/// none are expected.
pub open spec fn decoded_or(result: ZarrResult<Vec<u8>>, expected: Option<Seq<u8>>) -> bool {
    match expected {
        Some(bytes) => result matches Ok(out) && out@ == bytes,
        None => result matches Err(ZarrError::Decode(_)),
    }
}

/// Whether an encode result is the expected bytes, or an encode error
/// where none are expected.
pub open spec fn encoded_or(result: ZarrResult<Vec<u8>>, expected: Option<Seq<u8>>) -> bool {
    match expected {
        Some(bytes) => result matches Ok(out) && out@ == bytes,
        None => result matches Err(ZarrError::Encode(_)),
    }
}

/// What a decoder's outcome becomes: its bytes, or a decode error with the
/// decoder's message.
pub fn decode_outcome(raw: Result<Vec<u8>, String>) -> (result: ZarrResult<Vec<u8>>)
    ensures
        match raw {
            Ok(bytes) => result == Ok::<Vec<u8>, ZarrError>(bytes),
            Err(message) => result == Err::<Vec<u8>, ZarrError>(ZarrError::Decode(message)),
        },
{
    match raw {
        Ok(bytes) => Ok(bytes),
        Err(message) => Err(ZarrError::Decode(message)),
    }
}

/// What an encoder's outcome becomes: its bytes, or an encode error with
/// the encoder's message.
pub fn encode_outcome(raw: Result<Vec<u8>, String>) -> (result: ZarrResult<Vec<u8>>)
    ensures
        match raw {
            Ok(bytes) => result == Ok::<Vec<u8>, ZarrError>(bytes),
            Err(message) => result == Err::<Vec<u8>, ZarrError>(ZarrError::Encode(message)),
        },
{
    match raw {
        Ok(bytes) => Ok(bytes),
        Err(message) => Err(ZarrError::Encode(message)),
    }
}

/// The kinds of codec.
#[derive(Debug, Clone, Copy, PartialEq, Eq, Hash, Structural)]
pub enum CodecId {
    Bytes,
    Gzip,
    Blosc,
    Zlib,
    Zstd,
    Lz4,
    Sharding,
    FixedScaleOffset,
}

impl CodecId {
    /// The name of the codec kind in array metadata.
    pub open spec fn spec_name(self) -> Seq<char> {
        match self {
            CodecId::Bytes => "bytes"@,
            CodecId::Gzip => "gzip"@,
            CodecId::Blosc => "blosc"@,
            CodecId::Zlib => "zlib"@,
            CodecId::Zstd => "zstd"@,
            CodecId::Lz4 => "lz4"@,
            CodecId::Sharding => "sharding_indexed"@,
            CodecId::FixedScaleOffset => "numcodecs.fixedscaleoffset"@,
        }
    }

    /// The name of the codec kind in array metadata.
    pub fn name(&self) -> (name: &'static str)
        ensures
            name@ == self.spec_name(),
    {
        match self {
            CodecId::Bytes => "bytes",
            CodecId::Gzip => "gzip",
            CodecId::Blosc => "blosc",
            CodecId::Zlib => "zlib",
            CodecId::Zstd => "zstd",
            CodecId::Lz4 => "lz4",
            CodecId::Sharding => "sharding_indexed",
            CodecId::FixedScaleOffset => "numcodecs.fixedscaleoffset",
        }
    }
}

/// The codec kind of a name, if the name is one.
pub open spec fn codec_id_of(name: Seq<char>) -> Option<CodecId> {
    if name == "bytes"@ {
        Some(CodecId::Bytes)
    } else if name == "gzip"@ {
        Some(CodecId::Gzip)
    } else if name == "blosc"@ {
        Some(CodecId::Blosc)
    } else if name == "zlib"@ {
        Some(CodecId::Zlib)
    } else if name == "zstd"@ {
        Some(CodecId::Zstd)
    } else if name == "lz4"@ {
        Some(CodecId::Lz4)
    } else if name == "sharding_indexed"@ {
        Some(CodecId::Sharding)
    } else if name == "numcodecs.fixedscaleoffset"@ {
        Some(CodecId::FixedScaleOffset)
    } else {
        None
    }
}

/// Map a codec name string to its [`CodecId`].
pub fn lookup_codec_id(name: &str) -> (id: Option<CodecId>)
    ensures
        id == codec_id_of(name@),
{
    if same_text(name, "bytes") {
        Some(CodecId::Bytes)
    } else if same_text(name, "gzip") {
        Some(CodecId::Gzip)
    } else if same_text(name, "blosc") {
        Some(CodecId::Blosc)
    } else if same_text(name, "zlib") {
        Some(CodecId::Zlib)
    } else if same_text(name, "zstd") {
        Some(CodecId::Zstd)
    } else if same_text(name, "lz4") {
        Some(CodecId::Lz4)
    } else if same_text(name, "sharding_indexed") {
        Some(CodecId::Sharding)
    } else if same_text(name, "numcodecs.fixedscaleoffset") {
        Some(CodecId::FixedScaleOffset)
    } else {
        None
    }
}

/// A codec of any kind.
#[derive(Debug, PartialEq, Eq)]
pub enum AnyCodec {
    Bytes(bytes::BytesCodec),
    Gzip(gzip::GzipCodec),
    Blosc(blosc::BloscCodec),
    Zlib(zlib::ZlibCodec),
    Zstd(zstd::ZstdCodec),
    Lz4(lz4::Lz4Codec),
    Sharding(sharding::ShardingCodec),
    FixedScaleOffset(fixedscaleoffset::FixedScaleOffsetCodec),
}

/// Mathematical model of a codec.
pub ghost enum CodecModel {
    Bytes(bytes::BytesCodec),
    Gzip(gzip::GzipCodec),
    Blosc(blosc::BloscCodec),
    Zlib(zlib::ZlibCodec),
    Zstd(zstd::ZstdCodec),
    Lz4(lz4::Lz4Codec),
    Sharding { chunk_shape: Seq<usize>, codecs: Seq<Json> },
    FixedScaleOffset { scale: u64, offset: u64, dtype: Seq<char>, astype: Seq<char> },
}

impl View for AnyCodec {
    type V = CodecModel;

    open spec fn view(&self) -> CodecModel {
        match self {
            AnyCodec::Bytes(c) => CodecModel::Bytes(*c),
            AnyCodec::Gzip(c) => CodecModel::Gzip(*c),
            AnyCodec::Blosc(c) => CodecModel::Blosc(*c),
            AnyCodec::Zlib(c) => CodecModel::Zlib(*c),
            AnyCodec::Zstd(c) => CodecModel::Zstd(*c),
            AnyCodec::Lz4(c) => CodecModel::Lz4(*c),
            AnyCodec::Sharding(c) => CodecModel::Sharding {
                chunk_shape: c.chunk_shape@,
                codecs: Seq::new(c.codecs@.len(), |i: int| c.codecs@[i]@),
            },
            AnyCodec::FixedScaleOffset(c) => CodecModel::FixedScaleOffset {
                scale: c.scale,
                offset: c.offset,
                dtype: c.dtype@,
                astype: c.astype@,
            },
        }
    }
}

/// What one codec makes of its input.
pub ghost enum StepModel {
    /// The codec's output.
    Ready(Seq<u8>),
    /// The codec's work is done outside this library.
    Deferred,
    /// The codec fails with an error of this kind.
    Failed(ErrorKind),
}

/// The step of a decoder whose output a name stands for.
pub open spec fn decode_step(named: Option<Seq<u8>>) -> StepModel {
    match named {
        Some(bytes) => StepModel::Ready(bytes),
        None => StepModel::Failed(ErrorKind::Decode),
    }
}

/// The step of an encoder whose output a name stands for.
pub open spec fn encode_step(named: Option<Seq<u8>>) -> StepModel {
    match named {
        Some(bytes) => StepModel::Ready(bytes),
        None => StepModel::Failed(ErrorKind::Encode),
    }
}

/// What a codec hands back: its output, or the notice that its work is
/// done outside this library (blosc, fixed-scale-offset).
#[derive(Debug, PartialEq, Eq)]
pub enum CodecOutput {
    Ready(Vec<u8>),
    Deferred,
}

/// Whether a codec's result is the step that the model gives.
pub open spec fn step_matches(result: ZarrResult<CodecOutput>, model: StepModel) -> bool {
    match model {
        StepModel::Ready(bytes) => result matches Ok(CodecOutput::Ready(out)) && out@ == bytes,
        StepModel::Deferred => result matches Ok(CodecOutput::Deferred),
        StepModel::Failed(kind) => result matches Err(e) && e.kind() == kind,
    }
}

impl AnyCodec {
    /// The kind of the codec.
    pub open spec fn spec_codec_id(self) -> CodecId {
        match self {
            AnyCodec::Bytes(_) => CodecId::Bytes,
            AnyCodec::Gzip(_) => CodecId::Gzip,
            AnyCodec::Blosc(_) => CodecId::Blosc,
            AnyCodec::Zlib(_) => CodecId::Zlib,
            AnyCodec::Zstd(_) => CodecId::Zstd,
            AnyCodec::Lz4(_) => CodecId::Lz4,
            AnyCodec::Sharding(_) => CodecId::Sharding,
            AnyCodec::FixedScaleOffset(_) => CodecId::FixedScaleOffset,
        }
    }

    /// The byte order that the codec records, if it is a bytes codec that
    /// records one.
    pub open spec fn spec_bytes_endian(self) -> Option<Endian> {
        match self {
            AnyCodec::Bytes(c) => c.endian,
            _ => None,
        }
    }

    /// What decoding makes of `data`.
    ///
    /// The bytes codec hands the bytes on. Gzip, zlib, zstd and LZ4 give
    /// their decoded bytes or a decode error. Sharding fails with a codec
    /// error, for want of context. Blosc and fixed-scale-offset are
    /// deferred.
    pub open spec fn decode_model(self, data: Seq<u8>) -> StepModel {
        match self {
            AnyCodec::Bytes(_) => StepModel::Ready(data),
            AnyCodec::Gzip(_) => decode_step(gzip::gzip_decoded(data)),
            AnyCodec::Zlib(_) => decode_step(zlib::zlib_decoded(data)),
            AnyCodec::Zstd(_) => decode_step(zstd::zstd_decoded(data)),
            AnyCodec::Lz4(_) => decode_step(lz4::lz4_decoded(data)),
            AnyCodec::Sharding(_) => StepModel::Failed(ErrorKind::Codec),
            AnyCodec::Blosc(_) | AnyCodec::FixedScaleOffset(_) => StepModel::Deferred,
        }
    }

    /// What encoding makes of `data`.
    ///
    /// The bytes codec hands the bytes on. Gzip, zlib, zstd and LZ4 give
    /// their encoded bytes or an encode error. Sharding fails with a codec
    /// error and fixed-scale-offset with an encode error. Blosc is
    /// deferred.
    pub open spec fn encode_model(self, data: Seq<u8>) -> StepModel {
        match self {
            AnyCodec::Bytes(_) => StepModel::Ready(data),
            AnyCodec::Gzip(c) => encode_step(gzip::gzip_encoded(data, c.effective_level())),
            AnyCodec::Zlib(c) => encode_step(zlib::zlib_encoded(data, c.effective_level())),
            AnyCodec::Zstd(c) => encode_step(zstd::zstd_encoded(data, c.level)),
            AnyCodec::Lz4(_) => StepModel::Ready(lz4::lz4_encoded(data)),
            AnyCodec::Sharding(_) => StepModel::Failed(ErrorKind::Codec),
            AnyCodec::FixedScaleOffset(_) => StepModel::Failed(ErrorKind::Encode),
            AnyCodec::Blosc(_) => StepModel::Deferred,
        }
    }

    pub fn codec_id(&self) -> (id: CodecId)
        ensures
            id == self.spec_codec_id(),
    {
        match self {
            AnyCodec::Bytes(_) => CodecId::Bytes,
            AnyCodec::Gzip(_) => CodecId::Gzip,
            AnyCodec::Blosc(_) => CodecId::Blosc,
            AnyCodec::Zlib(_) => CodecId::Zlib,
            AnyCodec::Zstd(_) => CodecId::Zstd,
            AnyCodec::Lz4(_) => CodecId::Lz4,
            AnyCodec::Sharding(_) => CodecId::Sharding,
            AnyCodec::FixedScaleOffset(_) => CodecId::FixedScaleOffset,
        }
    }

    /// Decode bytes using this codec.
    pub fn decode(&self, data: &[u8]) -> (result: ZarrResult<CodecOutput>)
        ensures
            step_matches(result, self.decode_model(data@)),
    {
        let decoded = match self {
            AnyCodec::Bytes(c) => c.decode(data),
            AnyCodec::Gzip(c) => c.decode(data),
            AnyCodec::Zlib(c) => c.decode(data),
            AnyCodec::Zstd(c) => c.decode(data),
            AnyCodec::Lz4(c) => c.decode(data),
            AnyCodec::Sharding(_) => Err(
                ZarrError::Codec(
                    String::from_str("Sharding codec decoding requires additional context"),
                ),
            ),
            AnyCodec::Blosc(_) | AnyCodec::FixedScaleOffset(_) => {
                return Ok(CodecOutput::Deferred);
            },
        };
        match decoded {
            Ok(out) => Ok(CodecOutput::Ready(out)),
            Err(e) => Err(e),
        }
    }

    /// Encode bytes using this codec.
    pub fn encode(&self, data: &[u8]) -> (result: ZarrResult<CodecOutput>)
        ensures
            step_matches(result, self.encode_model(data@)),
    {
        let encoded = match self {
            AnyCodec::Bytes(c) => c.encode(data),
            AnyCodec::Gzip(c) => c.encode(data),
            AnyCodec::Zlib(c) => c.encode(data),
            AnyCodec::Zstd(c) => c.encode(data),
            AnyCodec::Lz4(c) => c.encode(data),
            AnyCodec::Sharding(_) => Err(
                ZarrError::Codec(
                    String::from_str("Sharding codec encoding requires additional context"),
                ),
            ),
            AnyCodec::FixedScaleOffset(c) => c.encode(data),
            AnyCodec::Blosc(_) => {
                return Ok(CodecOutput::Deferred);
            },
        };
        match encoded {
            Ok(out) => Ok(CodecOutput::Ready(out)),
            Err(e) => Err(e),
        }
    }

    /// Get the bytes-codec endian config, if this is a BytesCodec.
    pub fn bytes_endian(&self) -> (endian: Option<Endian>)
        ensures
            endian == self.spec_bytes_endian(),
    {
        match self {
            AnyCodec::Bytes(c) => c.endian,
            _ => None,
        }
    }
}

/// Where a pipeline stands.
pub ghost enum PipelineModel {
    /// Every codec has run; these are the decoded bytes.
    Finished(Seq<u8>),
    /// The codec at `index` is one whose work is done outside this library;
    /// it is to decode `input`, and the codecs in front of it follow.
    Pending { index: int, input: Seq<u8> },
    /// A codec failed with an error of this kind.
    Failed(ErrorKind),
}

/// What the codecs in front of position `upto` make of `data`, run from
/// the last of them to the first: each decodes what the one behind it gave.
/// The run stops at the first failure and at the first deferred codec.
pub open spec fn pipeline_model(codecs: Seq<AnyCodec>, upto: int, data: Seq<u8>) -> PipelineModel
    decreases upto,
{
    if upto <= 0 {
        PipelineModel::Finished(data)
    } else {
        match codecs[upto - 1].decode_model(data) {
            StepModel::Ready(out) => pipeline_model(codecs, upto - 1, out),
            StepModel::Deferred => PipelineModel::Pending { index: upto - 1, input: data },
            StepModel::Failed(kind) => PipelineModel::Failed(kind),
        }
    }
}

/// Where a pipeline stands: at its end, or in front of a codec whose work
/// is done outside this library.
#[derive(Debug, PartialEq, Eq)]
pub enum PipelineState {
    Finished(Vec<u8>),
    Pending { index: usize, input: Vec<u8> },
}

/// Whether a pipeline's result is what the model gives.
pub open spec fn pipeline_matches(result: ZarrResult<PipelineState>, model: PipelineModel) -> bool {
    match model {
        PipelineModel::Finished(bytes) => result matches Ok(PipelineState::Finished(out)) && out@
            == bytes,
        PipelineModel::Pending { index, input } => result matches Ok(
            PipelineState::Pending { index: at, input: held },
        ) && at == index && held@ == input,
        PipelineModel::Failed(kind) => result matches Err(e) && e.kind() == kind,
    }
}

/// Runs the codecs in front of position `upto` on `data`, from the last of
/// them to the first.
///
/// To go on behind a pending codec, hand the pending index and that
/// codec's output back to this function.
pub fn resume_codec_pipeline(codecs: &[AnyCodec], upto: usize, data: Vec<u8>) -> (result:
    ZarrResult<PipelineState>)
    requires
        upto <= codecs@.len(),
    ensures
        pipeline_matches(result, pipeline_model(codecs@, upto as int, data@)),
{
    let mut buf = data;
    let mut at: usize = upto;
    while at > 0
        invariant
            at <= upto,
            upto <= codecs@.len(),
            pipeline_model(codecs@, at as int, buf@) == pipeline_model(codecs@, upto as int, data@),
        decreases at,
    {
        match codecs[at - 1].decode(buf.as_slice()) {
            Ok(CodecOutput::Ready(out)) => {
                buf = out;
            },
            Ok(CodecOutput::Deferred) => {
                return Ok(PipelineState::Pending { index: at - 1, input: buf });
            },
            Err(e) => {
                return Err(e);
            },
        }
        at -= 1;
    }
    Ok(PipelineState::Finished(buf))
}

/// Apply a list of codecs to decode data. Codecs are applied in *reverse* order
/// (last codec decodes first): the last codec of the list was the first to run
/// when the chunk was written.
pub fn apply_codec_pipeline(codecs: &[AnyCodec], data: &[u8]) -> (result: ZarrResult<
    PipelineState,
>)
    ensures
        pipeline_matches(result, pipeline_model(codecs@, codecs@.len() as int, data@)),
{
    resume_codec_pipeline(codecs, codecs.len(), slice_to_vec(data))
}

} // verus!
