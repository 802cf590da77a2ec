//! Codecs from their JSON description: an object with the codec's `name`
//! and, under `configuration`, an object with the codec's settings.

use crate::codecs::blosc::{
    cname_from_name, cname_named, parse_shuffle, shuffle_of, BloscCname, BloscCodec, BloscShuffle,
};
use crate::codecs::bytes::{endian_named, parse_endian, BytesCodec};
use crate::codecs::fixedscaleoffset::FixedScaleOffsetCodec;
use crate::codecs::gzip::GzipCodec;
use crate::codecs::lz4::Lz4Codec;
use crate::codecs::sharding::ShardingCodec;
use crate::codecs::zlib::ZlibCodec;
use crate::codecs::zstd::ZstdCodec;
use crate::codecs::{codec_id_of, lookup_codec_id, AnyCodec, CodecId, CodecModel};
use crate::error::{ZarrError, ZarrResult};
use crate::json::{find_member, lemma_object_model, lookup, members_model, Json, JsonValue};
use crate::text::lowercase;
use crate::types::Endian;
use vstd::prelude::*;
use vstd::string::StringExecFns;

verus! {

/// The unsigned integer under `key`: the default where the member is
/// missing, the member where it is an unsigned integer of at most `max`,
/// and `None` for any other member.
pub open spec fn uint_member(members: Seq<(Seq<char>, Json)>, key: Seq<char>, default: u64, max: u64) -> Option<
    u64,
> {
    match lookup(members, key) {
        None => Some(default),
        Some(value) => match value.as_u64() {
            Some(u) if u <= max => Some(u),
            _ => None,
        },
    }
}

/// The signed integer under `key`: the default where the member is
/// missing, the member where it is an integer from `min` to `max`, and
/// `None` for any other member.
pub open spec fn int_member(
    members: Seq<(Seq<char>, Json)>,
    key: Seq<char>,
    default: i64,
    min: i64,
    max: i64,
) -> Option<i64> {
    match lookup(members, key) {
        None => Some(default),
        Some(value) => match value.as_i64() {
            Some(i) if min <= i <= max => Some(i),
            _ => None,
        },
    }
}

/// The string under `key`, which must be there.
pub open spec fn text_member(members: Seq<(Seq<char>, Json)>, key: Seq<char>) -> Option<Seq<char>> {
    match lookup(members, key) {
        Some(Json::String(text)) => Some(text),
        _ => None,
    }
}

/// The double-precision bit pattern of the number under `key`, which must
/// be there.
pub open spec fn double_member(members: Seq<(Seq<char>, Json)>, key: Seq<char>) -> Option<u64> {
    match lookup(members, key) {
        Some(Json::Number(n)) => n.double,
        _ => None,
    }
}

/// The settings of a bytes codec; `None` where they are malformed.
pub open spec fn bytes_settings(members: Seq<(Seq<char>, Json)>) -> Option<BytesCodec> {
    match lookup(members, "endian"@) {
        None => Some(BytesCodec { endian: None }),
        Some(Json::Null) => Some(BytesCodec { endian: None }),
        Some(Json::String(name)) => match endian_named(lowercase(name)) {
            Some(endian) => Some(BytesCodec { endian: Some(endian) }),
            None => None,
        },
        Some(_) => None,
    }
}

/// The settings of a blosc codec; `None` where they are malformed.
pub open spec fn blosc_settings(members: Seq<(Seq<char>, Json)>) -> Option<BloscCodec> {
    let typesize = match lookup(members, "typesize"@) {
        None => Some(None::<usize>),
        Some(Json::Null) => Some(None::<usize>),
        Some(value) => match value.as_u64() {
            Some(u) if u <= usize::MAX => Some(Some(u as usize)),
            _ => None,
        },
    };
    let cname = match lookup(members, "cname"@) {
        None => Some(BloscCname::Zstd),
        Some(Json::String(name)) => cname_named(name),
        Some(_) => None,
    };
    let shuffle = match lookup(members, "shuffle"@) {
        None => Some(None::<BloscShuffle>),
        Some(Json::Null) => Some(None::<BloscShuffle>),
        Some(value) => match shuffle_of(value) {
            Some(mode) => Some(Some(mode)),
            None => None,
        },
    };
    match (
        typesize,
        cname,
        int_member(members, "clevel"@, 5, i32::MIN as i64, i32::MAX as i64),
        shuffle,
        uint_member(members, "blocksize"@, 0, usize::MAX as u64),
    ) {
        (Some(typesize), Some(cname), Some(clevel), Some(shuffle), Some(blocksize)) => Some(
            BloscCodec {
                typesize,
                cname,
                clevel: clevel as i32,
                shuffle,
                blocksize: blocksize as usize,
            },
        ),
        _ => None,
    }
}

/// The list of extents under `chunk_shape` of a sharding codec: empty
/// where the member is missing.
pub open spec fn shard_shape(members: Seq<(Seq<char>, Json)>) -> Option<Seq<usize>> {
    match lookup(members, "chunk_shape"@) {
        None => Some(Seq::empty()),
        Some(value) => crate::metadata::v2::extent_list(value),
    }
}

/// The inner codec descriptions under `codecs` of a sharding codec: empty
/// where the member is missing.
pub open spec fn shard_codecs(members: Seq<(Seq<char>, Json)>) -> Option<Seq<Json>> {
    match lookup(members, "codecs"@) {
        None => Some(Seq::empty()),
        Some(Json::Array(items)) => Some(items),
        Some(_) => None,
    }
}

/// The codec of kind `id` with the given settings, or `None` where the
/// settings do not suit a fixed-scale-offset codec, the one kind whose
/// settings have no default. For the other kinds malformed settings give
/// the codec's default.
pub open spec fn codec_of_settings(id: CodecId, settings: Option<Seq<(Seq<char>, Json)>>) -> Option<
    CodecModel,
> {
    let members = match settings {
        Some(members) => members,
        None => Seq::empty(),
    };
    let usable = settings is Some;
    match id {
        CodecId::Bytes => Some(
            CodecModel::Bytes(
                match bytes_settings(members) {
                    Some(codec) if usable => codec,
                    _ => BytesCodec { endian: Some(Endian::Little) },
                },
            ),
        ),
        CodecId::Gzip => Some(
            CodecModel::Gzip(
                match uint_member(members, "level"@, 5, u32::MAX as u64) {
                    Some(level) if usable => GzipCodec { level: level as u32 },
                    _ => GzipCodec { level: 5 },
                },
            ),
        ),
        CodecId::Zlib => Some(
            CodecModel::Zlib(
                match uint_member(members, "level"@, 1, u32::MAX as u64) {
                    Some(level) if usable => ZlibCodec { level: level as u32 },
                    _ => ZlibCodec { level: 1 },
                },
            ),
        ),
        CodecId::Zstd => Some(
            CodecModel::Zstd(
                match int_member(members, "level"@, 5, i32::MIN as i64, i32::MAX as i64) {
                    Some(level) if usable => ZstdCodec { level: level as i32 },
                    _ => ZstdCodec { level: 5 },
                },
            ),
        ),
        CodecId::Lz4 => Some(
            CodecModel::Lz4(
                match int_member(members, "acceleration"@, 1, i32::MIN as i64, i32::MAX as i64) {
                    Some(acceleration) if usable => Lz4Codec { acceleration: acceleration as i32 },
                    _ => Lz4Codec { acceleration: 1 },
                },
            ),
        ),
        CodecId::Blosc => Some(
            CodecModel::Blosc(
                match blosc_settings(members) {
                    Some(codec) if usable => codec,
                    _ => BloscCodec {
                        typesize: None,
                        cname: BloscCname::Zstd,
                        clevel: 5,
                        shuffle: Some(BloscShuffle::NoShuffle),
                        blocksize: 0,
                    },
                },
            ),
        ),
        CodecId::Sharding => Some(
            match (shard_shape(members), shard_codecs(members)) {
                (Some(chunk_shape), Some(codecs)) if usable => CodecModel::Sharding {
                    chunk_shape,
                    codecs,
                },
                _ => CodecModel::Sharding { chunk_shape: Seq::empty(), codecs: Seq::empty() },
            },
        ),
        CodecId::FixedScaleOffset => match (
            double_member(members, "scale"@),
            double_member(members, "offset"@),
            text_member(members, "dtype"@),
            text_member(members, "astype"@),
        ) {
            (Some(scale), Some(offset), Some(dtype), Some(astype)) if usable => Some(
                CodecModel::FixedScaleOffset { scale, offset, dtype, astype },
            ),
            _ => None,
        },
    }
}

/// The settings of a codec description: the members of the object under
/// `configuration`, none where that member is missing or `null`. The outer
/// `None` marks settings that are no object.
pub open spec fn settings_of(members: Seq<(Seq<char>, Json)>) -> Option<Seq<(Seq<char>, Json)>> {
    match lookup(members, "configuration"@) {
        None => Some(Seq::empty()),
        Some(Json::Null) => Some(Seq::empty()),
        Some(Json::Object(settings)) => Some(settings),
        Some(_) => None,
    }
}

/// The codec that a JSON description stands for, or `None` where it stands
/// for none: the description is an object, its `name` is the name of a
/// codec kind, and the settings suit the kind or the kind has a default.
pub open spec fn codec_of_json(value: Json) -> Option<CodecModel> {
    match value {
        Json::Object(members) => match text_member(members, "name"@) {
            Some(name) => match codec_id_of(name) {
                Some(id) => codec_of_settings(id, settings_of(members)),
                None => None,
            },
            None => None,
        },
        _ => None,
    }
}

/// Reads an unsigned integer member.
fn read_uint(members: &Vec<(String, JsonValue)>, key: &str, default: u64, max: u64) -> (value:
    Option<u64>)
    ensures
        value == uint_member(members_model(members@), key@, default, max),
{
    match find_member(members, key) {
        None => Some(default),
        Some(found) => match found.as_u64() {
            Some(u) => if u <= max {
                Some(u)
            } else {
                None
            },
            None => None,
        },
    }
}

/// Reads a signed integer member.
fn read_int(members: &Vec<(String, JsonValue)>, key: &str, default: i64, min: i64, max: i64) -> (value:
    Option<i64>)
    ensures
        value == int_member(members_model(members@), key@, default, min, max),
{
    match find_member(members, key) {
        None => Some(default),
        Some(found) => match found.as_i64() {
            Some(i) => if min <= i && i <= max {
                Some(i)
            } else {
                None
            },
            None => None,
        },
    }
}

/// Reads a string member.
fn read_text(members: &Vec<(String, JsonValue)>, key: &str) -> (value: Option<String>)
    ensures
        crate::metadata::v2::opt_text(value) == text_member(members_model(members@), key@),
{
    match find_member(members, key) {
        Some(found) => match found {
            JsonValue::String(text) => Some(text.clone()),
            _ => None,
        },
        None => None,
    }
}

/// Reads a number member as a double-precision bit pattern.
fn read_double(members: &Vec<(String, JsonValue)>, key: &str) -> (value: Option<u64>)
    ensures
        value == double_member(members_model(members@), key@),
{
    match find_member(members, key) {
        Some(found) => match found {
            JsonValue::Number(n) => n.double,
            _ => None,
        },
        None => None,
    }
}

/// Reads the settings of a bytes codec.
fn read_bytes_settings(members: &Vec<(String, JsonValue)>) -> (codec: Option<BytesCodec>)
    ensures
        codec == bytes_settings(members_model(members@)),
{
    match find_member(members, "endian") {
        None => Some(BytesCodec { endian: None }),
        Some(found) => match found {
            JsonValue::Null => Some(BytesCodec { endian: None }),
            JsonValue::String(name) => match parse_endian(name.as_str()) {
                Some(endian) => Some(BytesCodec { endian: Some(endian) }),
                None => None,
            },
            _ => None,
        },
    }
}

/// Reads the settings of a blosc codec.
fn read_blosc_settings(members: &Vec<(String, JsonValue)>) -> (codec: Option<BloscCodec>)
    ensures
        codec == blosc_settings(members_model(members@)),
{
    let typesize: Option<Option<usize>> = match find_member(members, "typesize") {
        None => Some(None),
        Some(found) => match found {
            JsonValue::Null => Some(None),
            _ => match found.as_u64() {
                Some(u) => if u <= usize::MAX as u64 {
                    Some(Some(u as usize))
                } else {
                    None
                },
                None => None,
            },
        },
    };
    let cname: Option<BloscCname> = match find_member(members, "cname") {
        None => Some(BloscCname::Zstd),
        Some(found) => match found {
            JsonValue::String(name) => cname_from_name(name.as_str()),
            _ => None,
        },
    };
    let shuffle: Option<Option<BloscShuffle>> = match find_member(members, "shuffle") {
        None => Some(None),
        Some(found) => match found {
            JsonValue::Null => Some(None),
            _ => match parse_shuffle(found) {
                Some(mode) => Some(Some(mode)),
                None => None,
            },
        },
    };
    let clevel = read_int(members, "clevel", 5, -2147483648, 2147483647);
    let blocksize = read_uint(members, "blocksize", 0, usize::MAX as u64);
    match (typesize, cname, clevel, shuffle, blocksize) {
        (Some(typesize), Some(cname), Some(clevel), Some(shuffle), Some(blocksize)) => Some(
            BloscCodec {
                typesize,
                cname,
                clevel: clevel as i32,
                shuffle,
                blocksize: blocksize as usize,
            },
        ),
        _ => None,
    }
}

/// Reads the settings of a sharding codec.
fn read_sharding_settings(members: &Vec<(String, JsonValue)>) -> (codec: Option<ShardingCodec>)
    ensures
        match (shard_shape(members_model(members@)), shard_codecs(members_model(members@))) {
            (Some(chunk_shape), Some(codecs)) => codec matches Some(found)
                && AnyCodec::Sharding(found)@ == (CodecModel::Sharding { chunk_shape, codecs }),
            _ => codec is None,
        },
{
    let chunk_shape = match find_member(members, "chunk_shape") {
        None => Vec::new(),
        Some(found) => match crate::metadata::v2::parse_extents(found) {
            Some(extents) => extents,
            None => {
                return None;
            },
        },
    };
    let codecs = match find_member(members, "codecs") {
        None => Vec::new(),
        Some(found) => match found {
            JsonValue::Array(items) => {
                let ghost model = found@->Array_0;
                let mut out: Vec<JsonValue> = Vec::new();
                let mut i: usize = 0;
                while i < items.len()
                    invariant
                        i <= items@.len(),
                        model.len() == items@.len(),
                        forall|j: int| 0 <= j < items@.len() ==> #[trigger] model[j] == items@[j]@,
                        out@.len() == i,
                        forall|j: int| 0 <= j < i ==> (#[trigger] out@[j])@ == model[j],
                    decreases items@.len() - i,
                {
                    out.push(items[i].clone());
                    i += 1;
                }
                proof {
                    assert(Seq::new(out@.len(), |i: int| out@[i]@) =~= model);
                }
                out
            },
            _ => {
                return None;
            },
        },
    };
    let codec = ShardingCodec { chunk_shape, codecs };
    proof {
        let model = AnyCodec::Sharding(codec)@;
        assert(model->Sharding_chunk_shape =~= shard_shape(members_model(members@)).unwrap());
        assert(model->Sharding_codecs =~= shard_codecs(members_model(members@)).unwrap());
    }
    Some(codec)
}

/// The codec of kind `id` with the given settings, which are `None` where
/// the description's settings are no object.
fn codec_from_settings(id: CodecId, settings: Option<&Vec<(String, JsonValue)>>) -> (codec:
    Option<AnyCodec>)
    ensures
        match codec_of_settings(
            id,
            match settings {
                Some(members) => Some(members_model(members@)),
                None => None,
            },
        ) {
            Some(model) => codec matches Some(found) && found@ == model,
            None => codec is None,
        },
{
    match id {
        CodecId::Bytes => {
            let read = match settings {
                Some(members) => read_bytes_settings(members),
                None => None,
            };
            Some(
                AnyCodec::Bytes(
                    match read {
                        Some(codec) => codec,
                        None => BytesCodec { endian: Some(Endian::Little) },
                    },
                ),
            )
        },
        CodecId::Gzip => {
            let read = match settings {
                Some(members) => read_uint(members, "level", 5, 0xffff_ffff),
                None => None,
            };
            Some(
                AnyCodec::Gzip(
                    match read {
                        Some(level) => GzipCodec { level: level as u32 },
                        None => GzipCodec { level: 5 },
                    },
                ),
            )
        },
        CodecId::Zlib => {
            let read = match settings {
                Some(members) => read_uint(members, "level", 1, 0xffff_ffff),
                None => None,
            };
            Some(
                AnyCodec::Zlib(
                    match read {
                        Some(level) => ZlibCodec { level: level as u32 },
                        None => ZlibCodec { level: 1 },
                    },
                ),
            )
        },
        CodecId::Zstd => {
            let read = match settings {
                Some(members) => read_int(members, "level", 5, -2147483648, 2147483647),
                None => None,
            };
            Some(
                AnyCodec::Zstd(
                    match read {
                        Some(level) => ZstdCodec { level: level as i32 },
                        None => ZstdCodec { level: 5 },
                    },
                ),
            )
        },
        CodecId::Lz4 => {
            let read = match settings {
                Some(members) => read_int(members, "acceleration", 1, -2147483648, 2147483647),
                None => None,
            };
            Some(
                AnyCodec::Lz4(
                    match read {
                        Some(acceleration) => Lz4Codec { acceleration: acceleration as i32 },
                        None => Lz4Codec { acceleration: 1 },
                    },
                ),
            )
        },
        CodecId::Blosc => {
            let read = match settings {
                Some(members) => read_blosc_settings(members),
                None => None,
            };
            Some(
                AnyCodec::Blosc(
                    match read {
                        Some(codec) => codec,
                        None => BloscCodec {
                            typesize: None,
                            cname: BloscCname::Zstd,
                            clevel: 5,
                            shuffle: Some(BloscShuffle::NoShuffle),
                            blocksize: 0,
                        },
                    },
                ),
            )
        },
        CodecId::Sharding => {
            let read = match settings {
                Some(members) => read_sharding_settings(members),
                None => None,
            };
            let codec = match read {
                Some(codec) => codec,
                None => ShardingCodec { chunk_shape: Vec::new(), codecs: Vec::new() },
            };
            proof {
                let model = AnyCodec::Sharding(codec)@;
                if read is None {
                    assert(model->Sharding_chunk_shape =~= Seq::<usize>::empty());
                    assert(model->Sharding_codecs =~= Seq::<Json>::empty());
                }
            }
            Some(AnyCodec::Sharding(codec))
        },
        CodecId::FixedScaleOffset => {
            let members = match settings {
                Some(members) => members,
                None => {
                    return None;
                },
            };
            match (
                read_double(members, "scale"),
                read_double(members, "offset"),
                read_text(members, "dtype"),
                read_text(members, "astype"),
            ) {
                (Some(scale), Some(offset), Some(dtype), Some(astype)) => Some(
                    AnyCodec::FixedScaleOffset(
                        FixedScaleOffsetCodec { scale, offset, dtype, astype },
                    ),
                ),
                _ => None,
            }
        },
    }
}

/// Parse a single codec from a JSON value (V3 `{ "name": ..., "configuration": ... }` format).
///
/// Fails with a codec error where the value describes no codec.
pub fn parse_codec(value: &JsonValue) -> (result: ZarrResult<AnyCodec>)
    ensures
        match codec_of_json(value@) {
            Some(model) => result matches Ok(codec) && codec@ == model,
            None => result matches Err(ZarrError::Codec(_)),
        },
{
    let members = match value {
        JsonValue::Object(members) => members,
        _ => {
            return Err(ZarrError::Codec(String::from_str("Invalid codec envelope")));
        },
    };
    proof {
        lemma_object_model(*members);
    }
    let name = match find_member(members, "name") {
        Some(found) => match found {
            JsonValue::String(name) => name,
            _ => {
                return Err(ZarrError::Codec(String::from_str("Invalid codec envelope")));
            },
        },
        None => {
            return Err(ZarrError::Codec(String::from_str("Invalid codec envelope")));
        },
    };
    let id = match lookup_codec_id(name.as_str()) {
        Some(id) => id,
        None => {
            return Err(ZarrError::Codec(String::from_str("Unknown codec")));
        },
    };
    let empty: Vec<(String, JsonValue)> = Vec::new();
    proof {
        assert(members_model(empty@) =~= Seq::empty());
    }
    let settings: Option<&Vec<(String, JsonValue)>> = match find_member(members, "configuration") {
        None => Some(&empty),
        Some(found) => match found {
            JsonValue::Null => Some(&empty),
            JsonValue::Object(settings) => {
                proof {
                    lemma_object_model(*settings);
                }
                Some(settings)
            },
            _ => None,
        },
    };
    match codec_from_settings(id, settings) {
        Some(codec) => Ok(codec),
        None => Err(ZarrError::Codec(String::from_str("Failed to parse FixedScaleOffsetCodec"))),
    }
}

/// Parse a list of codecs from JSON values: every codec in order, or the
/// error of the first value that describes none.
pub fn parse_codecs(values: &[JsonValue]) -> (result: ZarrResult<Vec<AnyCodec>>)
    ensures
        match result {
            Ok(codecs) => codecs@.len() == values@.len() && forall|i: int|
                0 <= i < values@.len() ==> codec_of_json(values@[i]@) == Some(
                    (#[trigger] codecs@[i])@,
                ),
            Err(e) => e is Codec && exists|i: int|
                0 <= i < values@.len() && codec_of_json(#[trigger] values@[i]@) is None,
        },
{
    let mut codecs: Vec<AnyCodec> = Vec::new();
    let mut i: usize = 0;
    while i < values.len()
        invariant
            i <= values@.len(),
            codecs@.len() == i,
            forall|j: int| 0 <= j < i ==> codec_of_json(values@[j]@) == Some((#[trigger] codecs@[j])@),
        decreases values@.len() - i,
    {
        match parse_codec(&values[i]) {
            Ok(codec) => {
                codecs.push(codec);
            },
            Err(e) => {
                proof {
                    assert(codec_of_json(values@[i as int]@) is None);
                }
                return Err(e);
            },
        }
        i += 1;
    }
    Ok(codecs)
}

} // verus!
