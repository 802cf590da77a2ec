//! Opening Zarr v2 arrays and groups: from a compressor description to a
//! codec list, from a chunk's grid coordinates to its storage key, and from
//! metadata documents to arrays and groups.

use crate::array::{
    format_key, key_text, lemma_key_round_trip, linear_offset, lemma_offset_inverse,
    UnifiedMetadata, UnifiedZarrArray,
};
use crate::codecs::blosc::{
    cname_from_name, cname_named, parse_shuffle, shuffle_of, BloscCname, BloscCodec,
};
use crate::codecs::bytes::BytesCodec;
use crate::codecs::gzip::GzipCodec;
use crate::codecs::lz4::Lz4Codec;
use crate::codecs::zlib::ZlibCodec;
use crate::codecs::zstd::ZstdCodec;
use crate::codecs::AnyCodec;
use crate::error::{ErrorKind, ZarrError, ZarrResult};
use crate::group::{UnifiedGroupMetadata, UnifiedZarrGroup};
use crate::json::{find_member, lookup, members_model, Json, JsonValue};
use crate::metadata::v2::{
    array_metadata, chunk_grid, keys_of, texts_of, CompressorModel,
    ZarrCompressor, ZarrConsolidatedMetadata, ZarrV2Metadata,
};
use crate::shape::{in_bounds, lemma_unravel_in_bounds, unravel};
use crate::text::{chars_of, lowercase, parse_i64, parse_signed, same_text, to_lowercase};
use crate::types::{ArrayOrder, Endian};
use vstd::prelude::*;
use vstd::string::StringExecFns;

verus! {

/// The integer under `key` of a compressor's configuration: a JSON
/// integer, or a string that spells one in decimal.
pub open spec fn config_int(config: Seq<(Seq<char>, Json)>, key: Seq<char>) -> Option<i64> {
    match lookup(config, key) {
        Some(value) => match value.as_i64() {
            Some(n) => Some(n),
            None => match value.as_str() {
                Some(text) => parse_signed(text),
                None => None,
            },
        },
        None => None,
    }
}

/// The integer under `key`, or `default` where there is none.
pub open spec fn config_int_or(config: Seq<(Seq<char>, Json)>, key: Seq<char>, default: i64) -> i64 {
    match config_int(config, key) {
        Some(n) => n,
        None => default,
    }
}

/// A level kept within 0 and 9.
pub open spec fn clamp_level(level: i32) -> i32 {
    if level < 0 {
        0
    } else if level > 9 {
        9
    } else {
        level
    }
}

/// An unsigned level of at most 9.
pub open spec fn cap_level(level: u32) -> u32 {
    if level > 9 {
        9
    } else {
        level
    }
}

/// The blosc sub-compressor that a name stands for, whatever its case.
pub open spec fn blosc_cname_of(name: Seq<char>) -> Option<BloscCname> {
    cname_named(lowercase(name))
}

/// The sub-compressor of a blosc description: the one that `cname` names in
/// the configuration, else the fallback, else zstd.
pub open spec fn blosc_cname_model(config: Seq<(Seq<char>, Json)>, fallback: Option<BloscCname>) -> BloscCname {
    let named = match lookup(config, "cname"@) {
        Some(value) => match value.as_str() {
            Some(text) => blosc_cname_of(text),
            None => None,
        },
        None => None,
    };
    match named {
        Some(cname) => cname,
        None => match fallback {
            Some(cname) => cname,
            None => BloscCname::Zstd,
        },
    }
}

/// The blosc codec that a compressor description stands for: level from
/// `clevel` or `level`, 5 where there is neither, kept within 0 and 9; the
/// shuffle mode under `shuffle`; the block size under `blocksize`, else 0.
pub open spec fn blosc_model(config: Seq<(Seq<char>, Json)>, fallback: Option<BloscCname>) -> BloscCodec {
    BloscCodec {
        typesize: None,
        cname: blosc_cname_model(config, fallback),
        clevel: clamp_level(
            match config_int(config, "clevel"@) {
                Some(n) => n,
                None => config_int_or(config, "level"@, 5),
            } as i32,
        ),
        shuffle: match lookup(config, "shuffle"@) {
            Some(value) => shuffle_of(value),
            None => None,
        },
        blocksize: config_int_or(config, "blocksize"@, 0) as usize,
    }
}

/// The codec list of the compressor with exactly the given name and the
/// given configuration: one codec for the compressors that are known, none
/// for the others.
pub open spec fn codecs_of_id(id: Seq<char>, config: Seq<(Seq<char>, Json)>) -> Seq<AnyCodec> {
    if id == "gzip"@ {
        seq![
            AnyCodec::Gzip(GzipCodec { level: cap_level(config_int_or(config, "level"@, 5) as u32) }),
        ]
    } else if id == "blosc"@ {
        seq![AnyCodec::Blosc(blosc_model(config, None))]
    } else if id == "zlib"@ {
        seq![
            AnyCodec::Zlib(ZlibCodec { level: cap_level(config_int_or(config, "level"@, 1) as u32) }),
        ]
    } else if id == "lz4"@ {
        seq![
            AnyCodec::Lz4(
                Lz4Codec {
                    acceleration: clamp_level(config_int_or(config, "acceleration"@, 1) as i32),
                },
            ),
        ]
    } else if id == "lz4hc"@ {
        seq![AnyCodec::Blosc(blosc_model(config, Some(BloscCname::Lz4hc)))]
    } else if id == "blosclz"@ {
        seq![AnyCodec::Blosc(blosc_model(config, Some(BloscCname::Blosclz)))]
    } else if id == "zstd"@ {
        seq![
            AnyCodec::Zstd(
                ZstdCodec { level: clamp_level(config_int_or(config, "level"@, 5) as i32) },
            ),
        ]
    } else if id == "snappy"@ {
        seq![AnyCodec::Blosc(blosc_model(config, Some(BloscCname::Snappy)))]
    } else {
        Seq::empty()
    }
}

/// The codec list of a v2 compressor: that of its name in lower case.
pub open spec fn compressor_codecs(comp: CompressorModel) -> Seq<AnyCodec> {
    codecs_of_id(lowercase(comp.id), comp.config)
}

/// The codec list of a v2 array: the compressor's codecs, then a bytes
/// codec with the byte order of the data type.
pub open spec fn codec_equivalents(compressor: Option<CompressorModel>, byte_order: Endian) -> Seq<
    AnyCodec,
> {
    match compressor {
        Some(comp) => compressor_codecs(comp),
        None => Seq::empty(),
    }.push(AnyCodec::Bytes(BytesCodec { endian: Some(byte_order) }))
}

/// The integer under `key` of a compressor's configuration.
pub fn get_config_int(config: &Vec<(String, JsonValue)>, key: &str) -> (value: Option<i64>)
    ensures
        value == config_int(members_model(config@), key@),
{
    match find_member(config, key) {
        Some(found) => match found.as_i64() {
            Some(n) => Some(n),
            None => match found.as_str() {
                Some(text) => {
                    let chars = chars_of(text);
                    parse_i64(chars.as_slice())
                },
                None => None,
            },
        },
        None => None,
    }
}

/// The blosc sub-compressor that a name stands for.
pub fn parse_blosc_cname(s: &str) -> (cname: Option<BloscCname>)
    ensures
        cname == blosc_cname_of(s@),
{
    cname_from_name(to_lowercase(s).as_str())
}

/// Keeps a level within 0 and 9.
fn clamp(level: i32) -> (clamped: i32)
    ensures
        clamped == clamp_level(level),
{
    if level < 0 {
        0
    } else if level > 9 {
        9
    } else {
        level
    }
}

/// Caps an unsigned level at 9.
fn cap(level: u32) -> (capped: u32)
    ensures
        capped == cap_level(level),
{
    if level > 9 {
        9
    } else {
        level
    }
}

/// The integer under `key`, or `default` where there is none.
fn get_config_int_or(config: &Vec<(String, JsonValue)>, key: &str, default: i64) -> (value: i64)
    ensures
        value == config_int_or(members_model(config@), key@, default),
{
    match get_config_int(config, key) {
        Some(n) => n,
        None => default,
    }
}

/// The blosc codec that a compressor description stands for.
pub fn blosc_codec_from_config(comp: &ZarrCompressor, fallback_cname: Option<BloscCname>) -> (codec:
    BloscCodec)
    ensures
        codec == blosc_model(comp@.config, fallback_cname),
{
    let named = match find_member(&comp.config, "cname") {
        Some(value) => match value.as_str() {
            Some(text) => parse_blosc_cname(text),
            None => None,
        },
        None => None,
    };
    let cname = match named {
        Some(cname) => cname,
        None => match fallback_cname {
            Some(cname) => cname,
            None => BloscCname::Zstd,
        },
    };
    let level = match get_config_int(&comp.config, "clevel") {
        Some(n) => n,
        None => get_config_int_or(&comp.config, "level", 5),
    };
    let clevel = #[verifier::truncate]
    (level as i32);
    let shuffle = match find_member(&comp.config, "shuffle") {
        Some(value) => parse_shuffle(value),
        None => None,
    };
    let blocksize = #[verifier::truncate]
    (get_config_int_or(&comp.config, "blocksize", 0) as usize);
    BloscCodec { typesize: None, cname, clevel: clamp(clevel), shuffle, blocksize }
}

/// Convert a V2 compressor JSON object to a list of codecs.
pub fn compressor_to_codecs(comp: &ZarrCompressor) -> (codecs: Vec<AnyCodec>)
    ensures
        codecs@ == compressor_codecs(comp@),
{
    let id_lower = to_lowercase(comp.id.as_str());
    codecs_for_id(id_lower.as_str(), comp)
}

/// The codec list of the compressor with exactly the name `id` and the
/// configuration of `comp`.
pub fn codecs_for_id(id: &str, comp: &ZarrCompressor) -> (codecs: Vec<AnyCodec>)
    ensures
        codecs@ == codecs_of_id(id@, comp@.config),
{
    let mut codecs: Vec<AnyCodec> = Vec::new();
    if same_text(id, "gzip") {
        let level = #[verifier::truncate]
        (get_config_int_or(&comp.config, "level", 5) as u32);
        codecs.push(AnyCodec::Gzip(GzipCodec { level: cap(level) }));
    } else if same_text(id, "blosc") {
        codecs.push(AnyCodec::Blosc(blosc_codec_from_config(comp, None)));
    } else if same_text(id, "zlib") {
        let level = #[verifier::truncate]
        (get_config_int_or(&comp.config, "level", 1) as u32);
        codecs.push(AnyCodec::Zlib(ZlibCodec { level: cap(level) }));
    } else if same_text(id, "lz4") {
        let acc = #[verifier::truncate]
        (get_config_int_or(&comp.config, "acceleration", 1) as i32);
        codecs.push(AnyCodec::Lz4(Lz4Codec { acceleration: clamp(acc) }));
    } else if same_text(id, "lz4hc") {
        codecs.push(AnyCodec::Blosc(blosc_codec_from_config(comp, Some(BloscCname::Lz4hc))));
    } else if same_text(id, "blosclz") {
        codecs.push(AnyCodec::Blosc(blosc_codec_from_config(comp, Some(BloscCname::Blosclz))));
    } else if same_text(id, "zstd") {
        let level = #[verifier::truncate]
        (get_config_int_or(&comp.config, "level", 5) as i32);
        codecs.push(AnyCodec::Zstd(ZstdCodec { level: clamp(level) }));
    } else if same_text(id, "snappy") {
        codecs.push(AnyCodec::Blosc(blosc_codec_from_config(comp, Some(BloscCname::Snappy))));
    }
    proof {
        assert(codecs@ =~= codecs_of_id(id@, comp@.config));
    }
    codecs
}

/// Build the full codec list for a V2 array (compressor codecs + endian bytes codec).
pub fn get_codec_equivalents(md: &ZarrV2Metadata) -> (codecs: Vec<AnyCodec>)
    ensures
        codecs@ == codec_equivalents(md@.compressor, md@.dtype.byte_order),
{
    let mut codecs = match &md.compressor {
        Some(comp) => compressor_to_codecs(comp),
        None => Vec::new(),
    };
    codecs.push(AnyCodec::Bytes(BytesCodec::new(md.dtype.byte_order)));
    codecs
}

/// Whether a key is among the keys of an array.
pub open spec fn is_known_key(keys: Seq<Seq<char>>, key: Seq<char>) -> bool {
    exists|k: int| 0 <= k < keys.len() && keys[k] == key
}

/// The storage key of the chunk at the given grid coordinates, or the
/// kind of error that asking for it gives: other where the dimensionality
/// is not the array's, not-found where the array has no such chunk.
pub open spec fn storage_key(shape: Seq<usize>, keys: Seq<Seq<char>>, key: Seq<usize>) -> Result<
    Seq<char>,
    ErrorKind,
> {
    if key.len() != shape.len() {
        Err(ErrorKind::Other)
    } else if !is_known_key(keys, key_text(key)) {
        Err(ErrorKind::NotFound)
    } else {
        Ok(key_text(key))
    }
}

/// Checks the grid coordinates of a chunk against the array and gives the
/// key under which the chunk is stored.
pub fn chunk_key(metadata: &UnifiedMetadata, key: &[usize]) -> (result: ZarrResult<String>)
    ensures
        match storage_key(metadata.shape@, texts_of(metadata.keys@), key@) {
            Ok(text) => result matches Ok(found) && found@ == text,
            Err(kind) => result matches Err(e) && e.kind() == kind,
        },
{
    if key.len() != metadata.shape.len() {
        return Err(
            ZarrError::Other(String::from_str("Key dimensionality must match array shape")),
        );
    }
    let key_str = format_key(key);
    let ghost keys = texts_of(metadata.keys@);
    let mut k: usize = 0;
    while k < metadata.keys.len()
        invariant
            k <= metadata.keys@.len(),
            key@.len() == metadata.shape@.len(),
            keys == texts_of(metadata.keys@),
            key_str@ == key_text(key@),
            forall|j: int| 0 <= j < k ==> keys[j] != key_str@,
        decreases metadata.keys@.len() - k,
    {
        if same_text(metadata.keys[k].as_str(), key_str.as_str()) {
            proof {
                assert(keys[k as int] == key_str@);
                assert(is_known_key(keys, key_text(key@)));
            }
            return Ok(key_str);
        }
        k += 1;
    }
    Err(ZarrError::NotFound(String::from_str("Storage key not found")))
}

/// The chunks that an array has are those whose grid coordinates lie
/// within the chunk grid.
pub proof fn lemma_known_keys(shape: Seq<usize>, chunks: Seq<usize>, key: Seq<usize>)
    requires
        shape.len() == chunks.len(),
        key.len() == shape.len(),
    ensures
        is_known_key(keys_of(shape, chunks), key_text(key)) <==> in_bounds(
            chunk_grid(shape, chunks),
            key,
        ),
{
    let grid = chunk_grid(shape, chunks);
    let keys = keys_of(shape, chunks);
    if in_bounds(grid, key) {
        lemma_offset_inverse(grid, ArrayOrder::C, key);
        let k = linear_offset(grid, ArrayOrder::C, key);
        assert(keys[k as int] == key_text(key));
    }
    if is_known_key(keys, key_text(key)) {
        let k = choose|k: int| 0 <= k < keys.len() && keys[k] == key_text(key);
        lemma_unravel_in_bounds(grid, k as nat);
        lemma_key_round_trip(unravel(grid, k as nat));
        lemma_key_round_trip(key);
        assert(unravel(grid, k as nat) == key);
    }
}

/// Open a Zarr V2 array from its `.zarray` document, which is `None` where
/// the store holds none.
///
/// A missing document gives a not-found error and a document that
/// describes no array a metadata error.
pub fn open(document: Option<&JsonValue>) -> (result: ZarrResult<UnifiedZarrArray>)
    ensures
        match document {
            None => result matches Err(ZarrError::NotFound(_)),
            Some(doc) => match array_metadata(doc@) {
                None => result matches Err(ZarrError::Metadata(_)),
                Some(model) => result matches Ok(array) && array.describes(model),
            },
        },
{
    let doc = match document {
        Some(doc) => doc,
        None => {
            return Err(ZarrError::NotFound(String::from_str("No .zarray at the given path")));
        },
    };
    match ZarrV2Metadata::parse(doc) {
        Ok(md) => Ok(array_of(&md)),
        Err(e) => Err(e),
    }
}

/// The array that v2 metadata describes.
pub fn array_of(md: &ZarrV2Metadata) -> (array: UnifiedZarrArray)
    ensures
        array.describes(md@),
{
    UnifiedZarrArray { metadata: UnifiedMetadata::from_v2(md), codecs: get_codec_equivalents(md) }
}

/// Open a group of V2 arrays from its consolidated metadata.
///
/// Fails with a metadata error unless the document's format version is 1.
pub fn open_group(consolidated: &ZarrConsolidatedMetadata, path: &str) -> (result: ZarrResult<
    UnifiedZarrGroup,
>)
    ensures
        consolidated.zarr_consolidated_format != 1 ==> (result matches Err(
            ZarrError::Metadata(_),
        )),
        consolidated.zarr_consolidated_format == 1 ==> (result matches Ok(group) && {
            &&& group.metadata.zarr_format == 2
            &&& group.metadata.consolidated
            &&& group.metadata.attributes is None
            &&& group.metadata.path@ == path@
            &&& group.arrays@.len() == consolidated.metadata@.len()
            &&& texts_of(group.metadata.array_names@) == Seq::new(
                consolidated.metadata@.len(),
                |i: int| consolidated.metadata@[i].0@,
            )
            &&& forall|i: int|
                0 <= i < consolidated.metadata@.len() ==> (#[trigger] group.arrays@[i]).0@
                    == consolidated.metadata@[i].0@ && group.arrays@[i].1.describes(
                    consolidated.metadata@[i].1@,
                )
            &&& consolidated.wf() ==> group.wf()
        }),
{
    if consolidated.zarr_consolidated_format != 1 {
        return Err(
            ZarrError::Metadata(String::from_str("Metadata is not in zarr-consolidated-v1 format")),
        );
    }
    let mut arrays: Vec<(String, UnifiedZarrArray)> = Vec::new();
    let mut names: Vec<String> = Vec::new();
    let mut i: usize = 0;
    while i < consolidated.metadata.len()
        invariant
            i <= consolidated.metadata@.len(),
            arrays@.len() == i,
            names@.len() == i,
            forall|j: int| 0 <= j < i ==> (#[trigger] names@[j])@ == consolidated.metadata@[j].0@,
            forall|j: int|
                0 <= j < i ==> (#[trigger] arrays@[j]).0@ == consolidated.metadata@[j].0@
                    && arrays@[j].1.describes(consolidated.metadata@[j].1@),
        decreases consolidated.metadata@.len() - i,
    {
        let name = &consolidated.metadata[i].0;
        names.push(name.clone());
        arrays.push((name.clone(), array_of(&consolidated.metadata[i].1)));
        i += 1;
    }
    proof {
        assert(texts_of(names@) =~= Seq::new(
            consolidated.metadata@.len(),
            |i: int| consolidated.metadata@[i].0@,
        ));
        if consolidated.wf() {
            let entries = consolidated@.metadata;
            assert forall|i: int, j: int| 0 <= i < j < arrays@.len() implies (
            #[trigger] arrays@[i]).0@ != (#[trigger] arrays@[j]).0@ by {
                assert(entries[i].0 != entries[j].0);
            }
        }
    }
    Ok(UnifiedZarrGroup { metadata: UnifiedGroupMetadata::of_arrays(path, names, true), arrays })
}

} // verus!
