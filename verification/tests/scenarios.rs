use zarr_reader::array::{
    linear_index, merge_chunks_value, parse_chunk, parse_key_string, resume_chunk, ChunkState,
    CompressionInfo, UnifiedMetadata, UnifiedZarrArray,
};
use zarr_reader::codecs::blosc::BloscCodec;
use zarr_reader::codecs::bytes::BytesCodec;
use zarr_reader::codecs::gzip::GzipCodec;
use zarr_reader::codecs::AnyCodec;
use zarr_reader::error::{ErrorKind, ZarrError, ZarrResult};
use zarr_reader::group::{collect_results, UnifiedGroupMetadata};
use zarr_reader::json::{JsonNumber, JsonValue};
use zarr_reader::merge::merge_plan;
use zarr_reader::metadata::v2::{ZarrConsolidatedMetadata, ZarrV2Metadata};
use zarr_reader::types::{
    ArrayOrder, DataType, Endian, FillValue, ZarrValue, ZarrVectorValue,
};
use zarr_reader::v2::{array_of, chunk_key, open, open_group};

fn number(n: &serde_json::Number) -> JsonNumber {
    let double = n.as_f64();
    JsonNumber {
        int: n.as_i64(),
        uint: n.as_u64(),
        double: double.map(f64::to_bits),
        single: double.map(|f| (f as f32).to_bits()).unwrap_or(0),
        half: double.map(|f| half::f16::from_f64(f).to_bits()).unwrap_or(0),
    }
}

fn convert(value: &serde_json::Value) -> JsonValue {
    match value {
        serde_json::Value::Null => JsonValue::Null,
        serde_json::Value::Bool(b) => JsonValue::Bool(*b),
        serde_json::Value::Number(n) => JsonValue::Number(number(n)),
        serde_json::Value::String(s) => JsonValue::String(s.clone()),
        serde_json::Value::Array(items) => JsonValue::Array(items.iter().map(convert).collect()),
        serde_json::Value::Object(members) => {
            JsonValue::Object(members.iter().map(|(k, v)| (k.clone(), convert(v))).collect())
        }
    }
}

fn json(text: &str) -> JsonValue {
    convert(&serde_json::from_str::<serde_json::Value>(text).unwrap())
}

/// A store in memory: blobs by key.
struct Store(Vec<(String, Vec<u8>)>);

impl Store {
    fn get(&self, key: &str) -> Option<&[u8]> {
        self.0.iter().find(|(k, _)| k == key).map(|(_, v)| v.as_slice())
    }
}

fn get_chunk(array: &UnifiedZarrArray, store: &Store, key: &[usize]) -> ZarrResult<ZarrVectorValue> {
    let key = chunk_key(&array.metadata, key)?;
    match array.decode_chunk(store.get(&key))? {
        ChunkState::Ready(chunk) => Ok(chunk),
        ChunkState::Pending { .. } => Err(ZarrError::Other("codec not at hand".into())),
    }
}

/// Every chunk of the array, then the merged array.
fn load_value(array: &UnifiedZarrArray, store: &Store) -> ZarrResult<ZarrVectorValue> {
    let results: Vec<ZarrResult<(String, ZarrVectorValue)>> = array
        .metadata
        .keys
        .iter()
        .map(|key| Ok((key.clone(), get_chunk(array, store, &parse_key_string(key))?)))
        .collect();
    merge_chunks_value(&collect_results(results)?, &array.metadata)
}

fn as_f64(value: &Option<ZarrValue>) -> f64 {
    match value {
        Some(ZarrValue::Int32(v)) => *v as f64,
        Some(ZarrValue::UInt8(v)) => *v as f64,
        Some(ZarrValue::Float32(bits)) => f32::from_bits(*bits) as f64,
        Some(ZarrValue::Float64(bits)) => f64::from_bits(*bits),
        other => panic!("{other:?}"),
    }
}

fn load(array: &UnifiedZarrArray, store: &Store) -> Vec<f64> {
    load_value(array, store).unwrap().to_maybe_values().iter().map(as_f64).collect()
}

fn open_text(text: &str) -> UnifiedZarrArray {
    open(Some(&json(text))).unwrap()
}

#[test]
fn tiny_uncompressed_array() {
    let array = open_text(
        r#"{"shape": [2, 2], "chunks": [2, 2], "dtype": "<i4", "fill_value": 0,
            "order": "C", "compressor": null}"#,
    );
    let store =
        Store(vec![("0.0".into(), vec![1, 0, 0, 0, 2, 0, 0, 0, 3, 0, 0, 0, 4, 0, 0, 0])]);
    assert_eq!(load(&array, &store), vec![1.0, 2.0, 3.0, 4.0]);
    assert_eq!(
        load_value(&array, &store).unwrap(),
        ZarrVectorValue::VWithNulls(
            DataType::Int32,
            vec![
                Some(ZarrValue::Int32(1)),
                Some(ZarrValue::Int32(2)),
                Some(ZarrValue::Int32(3)),
                Some(ZarrValue::Int32(4))
            ]
        )
    );
}

#[test]
fn edge_chunk() {
    let array = open_text(
        r#"{"shape": [3], "chunks": [2], "dtype": "<u1", "fill_value": 0, "compressor": null}"#,
    );
    let store = Store(vec![("0".into(), vec![10, 20]), ("1".into(), vec![30, 40])]);
    assert_eq!(load(&array, &store), vec![10.0, 20.0, 30.0]);
}

#[test]
fn missing_chunk_with_nan_fill() {
    let array = open_text(
        r#"{"shape": [2], "chunks": [1], "dtype": "<f4", "fill_value": "NaN",
            "compressor": null}"#,
    );
    let store = Store(vec![("0".into(), 1.5f32.to_le_bytes().to_vec())]);
    let loaded = load(&array, &store);
    assert_eq!(loaded.len(), 2);
    assert_eq!(loaded[0], 1.5);
    assert!(loaded[1].is_nan());
}

#[test]
fn fortran_order() {
    let array = open_text(
        r#"{"shape": [2, 3], "chunks": [2, 3], "dtype": "<i4", "fill_value": 0, "order": "F",
            "compressor": null}"#,
    );
    let raw: Vec<u8> = [1i32, 4, 2, 5, 3, 6].iter().flat_map(|v| v.to_le_bytes()).collect();
    let store = Store(vec![("0.0".into(), raw)]);
    let loaded = load(&array, &store);
    assert_eq!(loaded[linear_index(&[2, 3], ArrayOrder::F, &[1, 2])], 6.0);
}

#[test]
fn fortran_order_places_every_element_by_its_multi_index() {
    let array = open_text(
        r#"{"shape": [2, 3], "chunks": [2, 3], "dtype": "<i4", "fill_value": 0, "order": "F"}"#,
    );
    let raw: Vec<u8> = (0..6i32).flat_map(|v| v.to_le_bytes()).collect();
    let store = Store(vec![("0.0".into(), raw)]);
    let loaded = load(&array, &store);
    // Element number k of the chunk, counted with the last index fastest, has
    // the multi-index (k / 3, k % 3).
    for k in 0..6usize {
        let at = linear_index(&[2, 3], ArrayOrder::F, &[k / 3, k % 3]);
        assert_eq!(loaded[at], k as f64);
    }
    assert_eq!(loaded, vec![0.0, 3.0, 1.0, 4.0, 2.0, 5.0]);
}

#[test]
fn single_full_chunk_is_the_array() {
    let array = open_text(
        r#"{"shape": [3, 2], "chunks": [3, 2], "dtype": ">f8", "fill_value": 0.0}"#,
    );
    let values = [1.0f64, -2.0, 3.5, 4.25, 0.0, 1e300];
    let raw: Vec<u8> = values.iter().flat_map(|v| v.to_be_bytes()).collect();
    let store = Store(vec![("0.0".into(), raw)]);
    assert_eq!(load(&array, &store), values.to_vec());
}

#[test]
fn absent_chunks_take_the_fill_value() {
    let array = open_text(
        r#"{"shape": [5], "chunks": [2], "dtype": "<i4", "fill_value": -7}"#,
    );
    let raw: Vec<u8> = [1i32, 2].iter().flat_map(|v| v.to_le_bytes()).collect();
    let store = Store(vec![("1".into(), raw)]);
    assert_eq!(load(&array, &store), vec![-7.0, -7.0, 1.0, 2.0, -7.0]);
    let empty = Store(vec![("0".into(), vec![])]);
    assert_eq!(load(&array, &empty), vec![-7.0; 5]);
    for (dtype, marker) in [
        ("<f8", "NaN"),
        ("<f8", "Infinity"),
        ("<f8", "-Infinity"),
        ("<f4", "Infinity"),
        ("<f4", "-Infinity"),
    ] {
        let text = format!(
            r#"{{"shape": [3], "chunks": [2], "dtype": "{dtype}", "fill_value": "{marker}"}}"#
        );
        let array = open_text(&text);
        let present = if dtype == "<f8" {
            7.5f64.to_le_bytes().to_vec()
        } else {
            7.5f32.to_le_bytes().to_vec()
        };
        let loaded = load(&array, &Store(vec![("1".into(), present)]));
        assert_eq!(loaded.len(), 3);
        assert!(loaded[0].is_nan() && loaded[1].is_nan(), "{dtype} {marker}");
        assert_eq!(loaded[2], 7.5);
    }
}

#[test]
fn chunks_of_a_grid_are_laid_side_by_side() {
    let array = open_text(
        r#"{"shape": [3, 5], "chunks": [2, 2], "dtype": "|u1", "fill_value": 99}"#,
    );
    assert_eq!(array.metadata.keys, vec!["0.0", "0.1", "0.2", "1.0", "1.1", "1.2"]);
    let blob = |start: u8| (start..start + 4).collect::<Vec<u8>>();
    let store = Store(vec![
        ("0.0".into(), blob(0)),
        ("0.1".into(), blob(10)),
        ("0.2".into(), blob(20)),
        ("1.0".into(), blob(30)),
        ("1.2".into(), blob(50)),
    ]);
    let expected = vec![
        0.0, 1.0, 10.0, 11.0, 20.0, //
        2.0, 3.0, 12.0, 13.0, 22.0, //
        30.0, 31.0, 99.0, 99.0, 50.0,
    ];
    assert_eq!(load(&array, &store), expected);
}

#[test]
fn compressed_chunks_are_decoded() {
    let array = open_text(
        r#"{"shape": [4], "chunks": [4], "dtype": ">i4", "fill_value": 0,
            "compressor": {"id": "gzip", "level": 1}}"#,
    );
    let raw: Vec<u8> = [5i32, 6, 7, -8].iter().flat_map(|v| v.to_be_bytes()).collect();
    let stored = GzipCodec { level: 1 }.encode(&raw).unwrap();
    let store = Store(vec![("0".into(), stored)]);
    assert_eq!(load(&array, &store), vec![5.0, 6.0, 7.0, -8.0]);
    let broken = Store(vec![("0".into(), raw)]);
    assert_eq!(load_value(&array, &broken).unwrap_err().kind(), ErrorKind::Decode);
}

#[test]
fn chunk_getter_checks_its_key() {
    let array = open_text(
        r#"{"shape": [4, 6], "chunks": [2, 3], "dtype": "|u1", "fill_value": 7}"#,
    );
    let store = Store(vec![("1.1".into(), vec![1, 2, 3, 4, 5, 6])]);
    assert_eq!(
        get_chunk(&array, &store, &[1, 1]).unwrap(),
        ZarrVectorValue::VUInt8(vec![1, 2, 3, 4, 5, 6])
    );
    assert_eq!(
        get_chunk(&array, &store, &[1, 1]).unwrap(),
        get_chunk(&array, &store, &[1, 1]).unwrap()
    );
    assert_eq!(get_chunk(&array, &store, &[0, 0]).unwrap(), ZarrVectorValue::VUInt8(vec![7; 6]));
    match get_chunk(&array, &store, &[1]) {
        Err(ZarrError::Other(_)) => {}
        other => panic!("{other:?}"),
    }
    match get_chunk(&array, &store, &[1, 1, 0]) {
        Err(ZarrError::Other(_)) => {}
        other => panic!("{other:?}"),
    }
    match get_chunk(&array, &store, &[2, 0]) {
        Err(ZarrError::NotFound(_)) => {}
        other => panic!("{other:?}"),
    }
    match get_chunk(&array, &store, &[0, 2]) {
        Err(ZarrError::NotFound(_)) => {}
        other => panic!("{other:?}"),
    }
    assert_eq!(chunk_key(&array.metadata, &[1, 0]).unwrap(), "1.0");
}

#[test]
fn opening_an_array() {
    match open(None) {
        Err(ZarrError::NotFound(_)) => {}
        other => panic!("{other:?}"),
    }
    match open(Some(&json(r#"{"shape": [1]}"#))) {
        Err(ZarrError::Metadata(_)) => {}
        other => panic!("{other:?}"),
    }
    let doc = json(
        r#"{"shape": [4, 6], "chunks": [2, 3], "dtype": ">u2", "fill_value": 7, "order": "F",
            "compressor": {"id": "zstd", "level": 3}, "filters": [1]}"#,
    );
    let array = open(Some(&doc)).unwrap();
    let md = ZarrV2Metadata::parse(&doc).unwrap();
    assert_eq!(array, array_of(&md));
    assert_eq!(array.metadata, UnifiedMetadata::from_v2(&md));
    assert_eq!(array.metadata.shape, vec![4, 6]);
    assert_eq!(array.metadata.chunk_shape, vec![2, 3]);
    assert_eq!(array.metadata.data_type, DataType::UInt16);
    assert_eq!(array.metadata.fill_value, FillValue::Value(ZarrValue::UInt16(7)));
    assert_eq!(array.metadata.order, ArrayOrder::F);
    assert_eq!(array.metadata.zarr_format, 2);
    assert_eq!(array.metadata.attributes, None);
    assert_eq!(array.metadata.dimension_names, None);
    assert_eq!(array.metadata.keys, vec!["0.0", "0.1", "1.0", "1.1"]);
    assert_eq!(
        array.metadata.compression_info,
        CompressionInfo::V2Compression { compressor: md.compressor.clone(), filters: Some(json("[1]")) }
    );
    assert_eq!(array.codecs.len(), 2);
    assert_eq!(array.codecs[1], AnyCodec::Bytes(BytesCodec { endian: Some(Endian::Big) }));
}

#[test]
fn consolidated_group_open() {
    let doc = json(
        r#"{"zarr_consolidated_format": 1, "metadata": {
            ".zgroup": {"zarr_format": 2},
            "a/.zarray": {"shape": [1], "chunks": [1], "dtype": "<f4", "fill_value": 0.0,
                          "compressor": null, "filters": null, "order": "C", "zarr_format": 2},
            "b/.zarray": {"shape": [1], "chunks": [1], "dtype": "<i4", "fill_value": 0,
                          "compressor": null, "filters": null, "order": "C", "zarr_format": 2}
        }}"#,
    );
    let consolidated = ZarrConsolidatedMetadata::parse(&doc).unwrap();
    let group = open_group(&consolidated, "root").unwrap();
    assert_eq!(group.array_names(), &vec!["a".to_string(), "b".to_string()]);
    assert!(group.is_consolidated());
    assert_eq!(group.zarr_format(), 2);
    assert_eq!(group.path(), "root");
    assert_eq!(group.attributes(), None);
    assert_eq!(group.arrays.len(), 2);
    assert_eq!(group.get_array("a").unwrap().metadata.data_type, DataType::Float32);
    assert_eq!(group.get_array("b").unwrap().metadata.data_type, DataType::Int32);
    assert!(group.get_array("c").is_none());
    for (name, array) in &group.arrays {
        assert_eq!(group.get_array(name), Some(array));
        assert_eq!(array.metadata.attributes, None);
        assert_eq!(array.metadata.dimension_names, None);
    }
    // Every array of the group loads.
    let stores = [
        Store(vec![("0".into(), 2.5f32.to_le_bytes().to_vec())]),
        Store(vec![("0".into(), 9i32.to_le_bytes().to_vec())]),
    ];
    let loaded: Vec<(String, Vec<f64>)> = group
        .arrays
        .iter()
        .zip(stores.iter())
        .map(|((name, array), store)| (name.clone(), load(array, store)))
        .collect();
    assert_eq!(loaded, vec![("a".to_string(), vec![2.5]), ("b".to_string(), vec![9.0])]);
}

#[test]
fn group_open_needs_format_one() {
    for (text, fine) in [
        (r#"{"zarr_consolidated_format": 1, "metadata": {}}"#, true),
        (r#"{"metadata": {}}"#, true),
        (r#"{"zarr_consolidated_format": 2, "metadata": {}}"#, false),
        (r#"{"zarr_consolidated_format": 0, "metadata": {}}"#, false),
    ] {
        let consolidated = ZarrConsolidatedMetadata::parse(&json(text)).unwrap();
        match open_group(&consolidated, "") {
            Ok(group) => {
                assert!(fine);
                assert!(group.arrays.is_empty());
                assert!(group.array_names().is_empty());
            }
            Err(ZarrError::Metadata(_)) => assert!(!fine),
            other => panic!("{other:?}"),
        }
    }
}

#[test]
fn gathered_results_give_the_first_error() {
    let all: Vec<ZarrResult<u8>> = vec![Ok(1), Ok(2), Ok(3)];
    assert_eq!(collect_results(all), Ok(vec![1, 2, 3]));
    let none: Vec<ZarrResult<u8>> = vec![];
    assert_eq!(collect_results(none), Ok(vec![]));
    let mixed: Vec<ZarrResult<u8>> = vec![
        Ok(1),
        Err(ZarrError::Decode("first".into())),
        Ok(3),
        Err(ZarrError::Other("second".into())),
    ];
    assert_eq!(collect_results(mixed), Err(ZarrError::Decode("first".into())));
    let last: Vec<ZarrResult<u8>> = vec![Ok(1), Err(ZarrError::NotFound("x".into()))];
    assert_eq!(collect_results(last), Err(ZarrError::NotFound("x".into())));
}

#[test]
fn chunk_reading_by_its_cases() {
    let codecs = vec![AnyCodec::Bytes(BytesCodec::new(Endian::Big))];
    let fill = FillValue::Value(ZarrValue::UInt16(3));
    let ready = |state: ZarrResult<ChunkState>| match state.unwrap() {
        ChunkState::Ready(chunk) => chunk,
        other => panic!("{other:?}"),
    };
    assert_eq!(
        ready(parse_chunk(Some(&[1, 2, 3, 4]), DataType::UInt16, &[2], &fill, &codecs)),
        ZarrVectorValue::VUInt16(vec![0x0102, 0x0304])
    );
    assert_eq!(
        ready(parse_chunk(Some(&[1, 2, 3, 4]), DataType::UInt16, &[2], &fill, &[])),
        ZarrVectorValue::VUInt16(vec![0x0201, 0x0403])
    );
    let second = vec![
        AnyCodec::Bytes(BytesCodec { endian: None }),
        AnyCodec::Gzip(GzipCodec::default()),
        AnyCodec::Bytes(BytesCodec::new(Endian::Big)),
        AnyCodec::Bytes(BytesCodec::new(Endian::Little)),
    ];
    let stored = GzipCodec::default().encode(&[1, 2]).unwrap();
    assert_eq!(
        ready(parse_chunk(Some(&stored), DataType::UInt16, &[1], &fill, &second)),
        ZarrVectorValue::VUInt16(vec![0x0102])
    );
    assert_eq!(
        ready(parse_chunk(None, DataType::UInt16, &[2, 2], &fill, &codecs)),
        ZarrVectorValue::VUInt16(vec![3; 4])
    );
    assert_eq!(
        ready(parse_chunk(Some(&[]), DataType::UInt16, &[2, 2], &fill, &codecs)),
        ZarrVectorValue::VUInt16(vec![3; 4])
    );
    assert_eq!(
        ready(parse_chunk(None, DataType::Int8, &[3], &fill, &codecs)),
        ZarrVectorValue::VInt8(vec![0; 3])
    );
    assert_eq!(
        ready(parse_chunk(None, DataType::String, &[1], &FillValue::NaN, &codecs)),
        ZarrVectorValue::VString(vec![String::new()])
    );
    assert_eq!(
        parse_chunk(Some(b"x"), DataType::String, &[1], &fill, &codecs).unwrap_err().kind(),
        ErrorKind::Decode
    );
    assert_eq!(
        parse_chunk(None, DataType::UInt8, &[usize::MAX, 2], &fill, &codecs).unwrap_err().kind(),
        ErrorKind::Other
    );
    let with_blosc = vec![AnyCodec::Blosc(BloscCodec::default()), AnyCodec::Bytes(BytesCodec::default())];
    assert_eq!(
        parse_chunk(Some(&[9, 9]), DataType::UInt8, &[2], &fill, &with_blosc).unwrap(),
        ChunkState::Pending { index: 0, input: vec![9, 9] }
    );
    assert_eq!(
        ready(resume_chunk(DataType::UInt8, &with_blosc, 0, vec![4, 5])),
        ZarrVectorValue::VUInt8(vec![4, 5])
    );
}

fn metadata(shape: &[usize], chunk_shape: &[usize], order: ArrayOrder) -> UnifiedMetadata {
    UnifiedMetadata {
        shape: shape.to_vec(),
        chunk_shape: chunk_shape.to_vec(),
        data_type: DataType::UInt8,
        fill_value: FillValue::Value(ZarrValue::UInt8(0)),
        order,
        zarr_format: 2,
        compression_info: CompressionInfo::V2Compression { compressor: None, filters: None },
        attributes: None,
        dimension_names: None,
        keys: vec![],
    }
}

fn bytes_of(merged: ZarrVectorValue) -> Vec<u8> {
    merged
        .to_maybe_values()
        .iter()
        .map(|v| match v {
            Some(ZarrValue::UInt8(b)) => *b,
            other => panic!("{other:?}"),
        })
        .collect()
}

#[test]
fn later_chunks_are_laid_over_earlier_ones() {
    let md = metadata(&[4], &[2], ArrayOrder::C);
    let chunks = vec![
        ("0".to_string(), ZarrVectorValue::VUInt8(vec![1, 2])),
        ("1".to_string(), ZarrVectorValue::VUInt8(vec![3])),
        ("0".to_string(), ZarrVectorValue::VUInt8(vec![9])),
        ("7".to_string(), ZarrVectorValue::VUInt8(vec![5, 5])),
    ];
    assert_eq!(bytes_of(merge_chunks_value(&chunks, &md).unwrap()), vec![9, 2, 3, 0]);
    let slashed = vec![("1/0".to_string(), ZarrVectorValue::VUInt8(vec![1, 2, 3, 4]))];
    let md = metadata(&[4, 2], &[2, 2], ArrayOrder::C);
    assert_eq!(
        bytes_of(merge_chunks_value(&slashed, &md).unwrap()),
        vec![0, 0, 0, 0, 1, 2, 3, 4]
    );
    let nulls = vec![(
        "0".to_string(),
        ZarrVectorValue::VWithNulls(DataType::UInt8, vec![None, Some(ZarrValue::UInt8(2))]),
    )];
    assert_eq!(
        merge_chunks_value(&nulls, &metadata(&[3], &[2], ArrayOrder::C)).unwrap(),
        ZarrVectorValue::VWithNulls(
            DataType::UInt8,
            vec![None, Some(ZarrValue::UInt8(2)), Some(ZarrValue::UInt8(0))]
        )
    );
}

#[test]
fn merging_fails_on_keys_and_shapes_that_do_not_fit() {
    let chunk = |key: &str| vec![(key.to_string(), ZarrVectorValue::VUInt8(vec![1]))];
    let md = metadata(&[2, 2], &[1, 1], ArrayOrder::C);
    assert_eq!(merge_chunks_value(&chunk("0"), &md).unwrap_err().kind(), ErrorKind::Other);
    assert_eq!(merge_chunks_value(&chunk("0.0.0"), &md).unwrap_err().kind(), ErrorKind::Other);
    assert_eq!(merge_chunks_value(&chunk("0.x"), &md).unwrap_err().kind(), ErrorKind::Other);
    assert!(merge_chunks_value(&chunk("0.0"), &md).is_ok());
    let md = metadata(&[2, 2], &[1], ArrayOrder::C);
    assert_eq!(merge_chunks_value(&chunk("0.0"), &md).unwrap_err().kind(), ErrorKind::Metadata);
    let md = metadata(&[usize::MAX, 2], &[1, 1], ArrayOrder::C);
    assert_eq!(merge_chunks_value(&chunk("0.0"), &md).unwrap_err().kind(), ErrorKind::Other);
    let md = metadata(&[2, 0], &[1, 1], ArrayOrder::C);
    assert_eq!(bytes_of(merge_chunks_value(&chunk("0.0"), &md).unwrap()), Vec::<u8>::new());
    let md = metadata(&[], &[], ArrayOrder::F);
    assert_eq!(bytes_of(merge_chunks_value(&chunk(""), &md).unwrap()), vec![1]);
    assert_eq!(bytes_of(merge_chunks_value(&vec![], &md).unwrap()), vec![0]);
}

#[test]
fn merge_plan_names_the_source_of_every_element() {
    let keys = vec![vec![0, 0], vec![0, 1], vec![1, 0]];
    let lens = vec![4, 4, 3];
    let plan = merge_plan(&keys, &lens, &[3, 3], &[2, 2], ArrayOrder::C).unwrap();
    assert_eq!(
        plan,
        vec![
            Some((0, 0)),
            Some((0, 1)),
            Some((1, 0)),
            Some((0, 2)),
            Some((0, 3)),
            Some((1, 2)),
            Some((2, 0)),
            Some((2, 1)),
            None
        ]
    );
    let plan = merge_plan(&keys, &lens, &[3, 3], &[2, 2], ArrayOrder::F).unwrap();
    assert_eq!(
        plan,
        vec![
            Some((0, 0)),
            Some((0, 2)),
            Some((2, 0)),
            Some((0, 1)),
            Some((0, 3)),
            Some((2, 1)),
            Some((1, 0)),
            Some((1, 2)),
            None
        ]
    );
    // A chunk of an enormous shape holds few elements: only those are placed.
    let plan = merge_plan(&vec![vec![0, 0]], &vec![3], &[2, 2], &[usize::MAX, usize::MAX], ArrayOrder::C);
    assert_eq!(plan.unwrap(), vec![Some((0, 0)), Some((0, 1)), None, None]);
    let plan = merge_plan(&vec![vec![usize::MAX]], &vec![3], &[4], &[2], ArrayOrder::C);
    assert_eq!(plan.unwrap(), vec![None; 4]);
    let plan = merge_plan(&vec![vec![0]], &vec![5], &[4], &[0], ArrayOrder::C);
    assert_eq!(plan.unwrap(), vec![None; 4]);
    assert_eq!(
        merge_plan(&keys, &vec![1], &[3, 3], &[2, 2], ArrayOrder::C).unwrap_err().kind(),
        ErrorKind::Other
    );
}

#[test]
fn group_metadata_of_arrays_opened_one_by_one() {
    let names = vec!["x".to_string(), "y".to_string()];
    let metadata = UnifiedGroupMetadata::of_arrays("root/group", names.clone(), false);
    assert_eq!(
        metadata,
        UnifiedGroupMetadata {
            zarr_format: 2,
            attributes: None,
            consolidated: false,
            array_names: names,
            path: "root/group".to_string(),
        }
    );
    assert!(UnifiedGroupMetadata::of_arrays("", vec![], true).consolidated);
}
