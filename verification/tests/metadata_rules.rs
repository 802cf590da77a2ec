use zarr_reader::codecs::blosc::{BloscCname, BloscCodec, BloscShuffle};
use zarr_reader::codecs::bytes::BytesCodec;
use zarr_reader::codecs::gzip::GzipCodec;
use zarr_reader::codecs::lz4::Lz4Codec;
use zarr_reader::codecs::zlib::ZlibCodec;
use zarr_reader::codecs::zstd::ZstdCodec;
use zarr_reader::codecs::{parse_codec, parse_codecs, AnyCodec, CodecId};
use zarr_reader::error::{ErrorKind, ZarrError};
use zarr_reader::json::{JsonNumber, JsonValue};
use zarr_reader::metadata::v2::{
    array_name_of, cartesian_product, default_order, default_zarr_format, list_keys,
    numpy_format_to_dtype, parse_byte_order, parse_numpy_dtype, parse_numpy_format,
    parse_with_time_unit, NumPyFormat, V2DataType, ZarrCompressor, ZarrConsolidatedMetadata,
    ZarrV2Metadata,
};
use zarr_reader::metadata::{parse_fill_value, parse_numeric_fill};
use zarr_reader::types::{ArrayOrder, DataType, Endian, FillValue, ZarrValue};
use zarr_reader::v2::{
    blosc_codec_from_config, codecs_for_id, compressor_to_codecs, get_codec_equivalents,
    get_config_int, parse_blosc_cname,
};

fn number(n: &serde_json::Number) -> JsonNumber {
    let double = n.as_f64();
    JsonNumber {
        int: n.as_i64(),
        uint: n.as_u64(),
        double: double.map(f64::to_bits),
        single: double.map(|f| (f as f32).to_bits()).unwrap_or(0),
        half: double.map(|f| half::f16::from_f64(f).to_bits()).unwrap_or(0),
    }
}

fn convert(value: &serde_json::Value) -> JsonValue {
    match value {
        serde_json::Value::Null => JsonValue::Null,
        serde_json::Value::Bool(b) => JsonValue::Bool(*b),
        serde_json::Value::Number(n) => JsonValue::Number(number(n)),
        serde_json::Value::String(s) => JsonValue::String(s.clone()),
        serde_json::Value::Array(items) => JsonValue::Array(items.iter().map(convert).collect()),
        serde_json::Value::Object(members) => {
            JsonValue::Object(members.iter().map(|(k, v)| (k.clone(), convert(v))).collect())
        }
    }
}

fn json(text: &str) -> JsonValue {
    convert(&serde_json::from_str::<serde_json::Value>(text).unwrap())
}

fn dtype(data_type: DataType, byte_order: Endian, time_unit: Option<&str>) -> V2DataType {
    V2DataType { data_type, byte_order, time_unit: time_unit.map(|u| u.to_string()) }
}

#[test]
fn numpy_dtype_strings_of_the_four_examples() {
    assert_eq!(parse_numpy_dtype("<f8"), Ok(dtype(DataType::Float64, Endian::Little, None)));
    assert_eq!(parse_numpy_dtype("|b1"), Ok(dtype(DataType::Bool, Endian::NotApplicable, None)));
    assert_eq!(parse_numpy_dtype(">i4"), Ok(dtype(DataType::Int32, Endian::Big, None)));
    assert_eq!(
        parse_numpy_dtype("<M8[ns]"),
        Ok(dtype(DataType::Int64, Endian::Little, Some("ns")))
    );
}

#[test]
fn numpy_dtype_table() {
    let table = [
        ("b1", DataType::Bool),
        ("i1", DataType::Int8),
        ("i2", DataType::Int16),
        ("i4", DataType::Int32),
        ("i8", DataType::Int64),
        ("u1", DataType::UInt8),
        ("u2", DataType::UInt16),
        ("u4", DataType::UInt32),
        ("u8", DataType::UInt64),
        ("f2", DataType::Float16),
        ("f4", DataType::Float32),
        ("f8", DataType::Float64),
        ("c8", DataType::Complex64),
        ("c16", DataType::Complex128),
        ("S1", DataType::String),
        ("S40", DataType::String),
        ("U7", DataType::String),
        ("V3", DataType::Bytes),
        ("M8", DataType::Int64),
        ("m8", DataType::Int64),
        ("m4", DataType::Int64),
    ];
    for (code, data_type) in table {
        for (mark, endian) in
            [("<", Endian::Little), (">", Endian::Big), ("|", Endian::NotApplicable)]
        {
            let text = format!("{mark}{code}");
            assert_eq!(parse_numpy_dtype(&text), Ok(dtype(data_type, endian, None)), "{text}");
        }
    }
}

#[test]
fn numpy_dtype_strings_that_are_none() {
    let bad = [
        "", "<", "<f", "f8", "=f8", "<x8", "<f0", "<f3", "<f16", "<b2", "<i3", "<i16", "<c4",
        "<f8 ", "<f-8", "<fx", "<M", "<M[ns]", "<M8[ns", "<M0[ns]", "<Mx[ns]", "<i8[ns]", "<S0",
        "<S", "<V0", "< f8",
    ];
    for text in bad {
        assert!(parse_numpy_dtype(text).is_err(), "{text:?}");
    }
}

#[test]
fn numpy_dtype_time_units() {
    assert_eq!(parse_numpy_dtype("<m8[us]"), Ok(dtype(DataType::Int64, Endian::Little, Some("us"))));
    assert_eq!(parse_numpy_dtype(">M8[]"), Ok(dtype(DataType::Int64, Endian::Big, Some(""))));
    assert_eq!(
        parse_numpy_dtype("<M8[ns]junk"),
        Ok(dtype(DataType::Int64, Endian::Little, Some("ns")))
    );
    assert_eq!(parse_numpy_dtype("<M8[a[b]c]"), Ok(dtype(DataType::Int64, Endian::Little, Some("a[b"))));
    assert_eq!(parse_numpy_dtype("<f+8"), Ok(dtype(DataType::Float64, Endian::Little, None)));
    assert_eq!(parse_with_time_unit("8[ns]"), Ok((8, Some("ns".to_string()))));
    assert_eq!(parse_with_time_unit("8"), Ok((8, None)));
    assert_eq!(parse_with_time_unit("12[D]x"), Ok((12, Some("D".to_string()))));
    assert!(parse_with_time_unit("8[ns").is_err());
    assert!(parse_with_time_unit("[ns]").is_err());
    assert!(parse_with_time_unit("0").is_err());
    assert!(parse_with_time_unit("").is_err());
    assert!(parse_with_time_unit("8]").is_err());
}

#[test]
fn numpy_format_parts() {
    let format = parse_numpy_format("<M8[ns]").unwrap();
    assert_eq!(format.byte_order, '<');
    assert_eq!(format.type_code, 'M');
    assert_eq!(format.byte_size, 8);
    assert_eq!(format.time_unit.as_deref(), Some("ns"));
    let format = parse_numpy_format("|S12").unwrap();
    assert_eq!((format.byte_order, format.type_code, format.byte_size), ('|', 'S', 12));
    assert_eq!(format.time_unit, None);
    assert!(parse_numpy_format("<f3").is_ok());
    assert!(parse_numpy_format("<q8").is_err());
    assert_eq!(parse_byte_order('<'), Ok(Endian::Little));
    assert_eq!(parse_byte_order('>'), Ok(Endian::Big));
    assert_eq!(parse_byte_order('|'), Ok(Endian::NotApplicable));
    assert!(parse_byte_order('=').is_err());
    let odd = NumPyFormat { byte_order: '=', type_code: 'f', byte_size: 8, time_unit: None };
    assert!(numpy_format_to_dtype(&odd).is_err());
    let odd = NumPyFormat { byte_order: '<', type_code: 'f', byte_size: 3, time_unit: None };
    assert!(numpy_format_to_dtype(&odd).is_err());
    let fine = NumPyFormat {
        byte_order: '>',
        type_code: 'm',
        byte_size: 8,
        time_unit: Some("s".into()),
    };
    assert_eq!(numpy_format_to_dtype(&fine), Ok(dtype(DataType::Int64, Endian::Big, Some("s"))));
}

#[test]
fn numpy_dtype_strings_are_written_back() {
    assert_eq!(dtype(DataType::Float64, Endian::Little, None).to_numpy_string(), "<f8");
    assert_eq!(dtype(DataType::Bool, Endian::NotApplicable, None).to_numpy_string(), "|b1");
    assert_eq!(dtype(DataType::Complex128, Endian::Big, None).to_numpy_string(), ">c16");
    assert_eq!(dtype(DataType::Int64, Endian::Little, Some("ns")).to_numpy_string(), "<i8[ns]");
    assert_eq!(dtype(DataType::String, Endian::NotApplicable, None).to_numpy_string(), "|S1");
    assert_eq!(dtype(DataType::Bytes, Endian::NotApplicable, None).to_numpy_string(), "|V1");
    for text in ["<f8", ">i4", "|b1", "<u2", ">c8", "<f2"] {
        assert_eq!(parse_numpy_dtype(text).unwrap().to_numpy_string(), text);
        assert_eq!(parse_numpy_dtype(text).unwrap().clone(), parse_numpy_dtype(text).unwrap());
    }
}

#[test]
fn key_list_of_a_two_by_two_grid() {
    assert_eq!(list_keys(&[4, 6], &[2, 3]), vec!["0.0", "0.1", "1.0", "1.1"]);
}

#[test]
fn key_lists_round_up_and_follow_the_shorter_shape() {
    assert_eq!(list_keys(&[3], &[2]), vec!["0", "1"]);
    assert_eq!(list_keys(&[5, 1], &[2, 1]), vec!["0.0", "1.0", "2.0"]);
    assert_eq!(list_keys(&[0], &[2]), Vec::<String>::new());
    assert_eq!(list_keys(&[], &[]), vec![""]);
    assert_eq!(list_keys(&[4, 6], &[2]), vec!["0", "1"]);
    assert_eq!(list_keys(&[usize::MAX], &[usize::MAX]), vec!["0"]);
    assert_eq!(list_keys(&[usize::MAX], &[usize::MAX - 1]), vec!["0", "1"]);
    let keys = list_keys(&[21, 3, 2], &[2, 3, 1]);
    assert_eq!(keys.len(), 11 * 1 * 2);
    assert_eq!(keys[0], "0.0.0");
    assert_eq!(keys[1], "0.0.1");
    assert_eq!(keys[2], "1.0.0");
    assert_eq!(keys[21], "10.0.1");
    assert_eq!(cartesian_product(&[2, 2]), vec![vec![0, 0], vec![0, 1], vec![1, 0], vec![1, 1]]);
    assert_eq!(default_order(), ArrayOrder::C);
    assert_eq!(default_zarr_format(), 2);
}

#[test]
fn fill_value_null_is_the_nan_marker() {
    for dtype in [DataType::Int32, DataType::Float64, DataType::String, DataType::Bool] {
        assert_eq!(parse_fill_value(dtype, &json("null")), Ok(FillValue::NaN));
    }
}

#[test]
fn fill_value_special_strings_need_a_floating_type() {
    let floating = [
        DataType::Float16,
        DataType::Float32,
        DataType::Float64,
        DataType::Complex64,
        DataType::Complex128,
    ];
    for dtype in floating {
        assert_eq!(parse_fill_value(dtype, &json("\"NaN\"")), Ok(FillValue::NaN));
        assert_eq!(parse_fill_value(dtype, &json("\"Infinity\"")), Ok(FillValue::Infinity));
        assert_eq!(
            parse_fill_value(dtype, &json("\"-Infinity\"")),
            Ok(FillValue::NegativeInfinity)
        );
        assert!(parse_fill_value(dtype, &json("\"nan\"")).is_err());
        assert!(parse_fill_value(dtype, &json("\"\"")).is_err());
    }
    let others = [
        DataType::Bool,
        DataType::Int8,
        DataType::Int64,
        DataType::UInt16,
        DataType::String,
        DataType::Bytes,
    ];
    for dtype in others {
        for token in ["\"NaN\"", "\"Infinity\"", "\"-Infinity\""] {
            assert!(parse_fill_value(dtype, &json(token)).is_err(), "{dtype:?} {token}");
        }
    }
}

#[test]
fn fill_value_strings_and_booleans() {
    assert_eq!(
        parse_fill_value(DataType::String, &json("\"abc\"")),
        Ok(FillValue::Value(ZarrValue::String("abc".into())))
    );
    assert_eq!(
        parse_fill_value(DataType::String, &json("\"\"")),
        Ok(FillValue::Value(ZarrValue::String(String::new())))
    );
    assert_eq!(
        parse_fill_value(DataType::Bytes, &json("\"aé\"")),
        Ok(FillValue::Value(ZarrValue::Bytes("aé".as_bytes().to_vec())))
    );
    assert!(parse_fill_value(DataType::Int32, &json("\"abc\"")).is_err());
    assert!(parse_fill_value(DataType::Bool, &json("\"true\"")).is_err());
    assert_eq!(
        parse_fill_value(DataType::Bool, &json("true")),
        Ok(FillValue::Value(ZarrValue::Bool(true)))
    );
    assert_eq!(
        parse_fill_value(DataType::Bool, &json("false")),
        Ok(FillValue::Value(ZarrValue::Bool(false)))
    );
    assert!(parse_fill_value(DataType::Int8, &json("true")).is_err());
    assert!(parse_fill_value(DataType::String, &json("true")).is_err());
    assert!(parse_fill_value(DataType::Int32, &json("[1]")).is_err());
    assert!(parse_fill_value(DataType::Int32, &json("{}")).is_err());
    assert!(parse_fill_value(DataType::Float64, &json("[]")).is_err());
}

#[test]
fn fill_value_integers_are_range_checked() {
    let ok = |dtype, text: &str, value: ZarrValue| {
        assert_eq!(parse_fill_value(dtype, &json(text)), Ok(FillValue::Value(value)), "{text}");
    };
    let bad = |dtype, text: &str| {
        assert!(parse_fill_value(dtype, &json(text)).is_err(), "{dtype:?} {text}");
    };
    ok(DataType::Int8, "-128", ZarrValue::Int8(-128));
    ok(DataType::Int8, "127", ZarrValue::Int8(127));
    bad(DataType::Int8, "128");
    bad(DataType::Int8, "-129");
    bad(DataType::Int8, "1.5");
    bad(DataType::Int8, "1.0");
    ok(DataType::Int16, "-32768", ZarrValue::Int16(i16::MIN));
    ok(DataType::Int16, "32767", ZarrValue::Int16(i16::MAX));
    bad(DataType::Int16, "32768");
    bad(DataType::Int16, "-32769");
    ok(DataType::Int32, "-2147483648", ZarrValue::Int32(i32::MIN));
    ok(DataType::Int32, "2147483647", ZarrValue::Int32(i32::MAX));
    bad(DataType::Int32, "2147483648");
    bad(DataType::Int32, "-2147483649");
    ok(DataType::Int64, "-9223372036854775808", ZarrValue::Int64(i64::MIN));
    ok(DataType::Int64, "9223372036854775807", ZarrValue::Int64(i64::MAX));
    bad(DataType::Int64, "9223372036854775808");
    bad(DataType::Int64, "0.5");
    ok(DataType::UInt8, "0", ZarrValue::UInt8(0));
    ok(DataType::UInt8, "255", ZarrValue::UInt8(255));
    bad(DataType::UInt8, "256");
    bad(DataType::UInt8, "-1");
    ok(DataType::UInt16, "65535", ZarrValue::UInt16(u16::MAX));
    bad(DataType::UInt16, "65536");
    ok(DataType::UInt32, "4294967295", ZarrValue::UInt32(u32::MAX));
    bad(DataType::UInt32, "4294967296");
    ok(DataType::UInt64, "18446744073709551615", ZarrValue::UInt64(u64::MAX));
    bad(DataType::UInt64, "-1");
    bad(DataType::UInt64, "2.5");
    ok(DataType::Bool, "0", ZarrValue::Bool(false));
    ok(DataType::Bool, "1", ZarrValue::Bool(true));
    ok(DataType::Bool, "-7", ZarrValue::Bool(true));
    bad(DataType::Bool, "0.5");
    bad(DataType::Bool, "18446744073709551615");
    bad(DataType::String, "1");
    bad(DataType::Bytes, "1");
}

#[test]
fn fill_value_floats_take_the_width_of_the_type() {
    assert_eq!(
        parse_fill_value(DataType::Float64, &json("0.1")),
        Ok(FillValue::Value(ZarrValue::Float64(0.1f64.to_bits())))
    );
    assert_eq!(
        parse_fill_value(DataType::Float64, &json("3")),
        Ok(FillValue::Value(ZarrValue::Float64(3.0f64.to_bits())))
    );
    assert_eq!(
        parse_fill_value(DataType::Float32, &json("0.1")),
        Ok(FillValue::Value(ZarrValue::Float32(0.1f32.to_bits())))
    );
    assert_eq!(
        parse_fill_value(DataType::Float32, &json("-9999")),
        Ok(FillValue::Value(ZarrValue::Float32((-9999.0f32).to_bits())))
    );
    assert_eq!(
        parse_fill_value(DataType::Float16, &json("0.1")),
        Ok(FillValue::Value(ZarrValue::Float16(half::f16::from_f64(0.1).to_bits())))
    );
    assert_eq!(
        parse_fill_value(DataType::Complex64, &json("2.5")),
        Ok(FillValue::Value(ZarrValue::Complex64(2.5f32.to_bits(), 0.0f32.to_bits())))
    );
    assert_eq!(
        parse_fill_value(DataType::Complex128, &json("-2.5")),
        Ok(FillValue::Value(ZarrValue::Complex128((-2.5f64).to_bits(), 0.0f64.to_bits())))
    );
    let no_double = JsonNumber { int: Some(1), uint: Some(1), double: None, single: 0, half: 0 };
    for dtype in [
        DataType::Float16,
        DataType::Float32,
        DataType::Float64,
        DataType::Complex64,
        DataType::Complex128,
    ] {
        assert!(parse_numeric_fill(dtype, &no_double).is_err());
    }
    assert_eq!(
        parse_numeric_fill(DataType::Int8, &no_double),
        Ok(FillValue::Value(ZarrValue::Int8(1)))
    );
}

const TINY: &str = r#"{
    "shape": [2, 2], "chunks": [2, 2], "dtype": "<i4", "fill_value": 0,
    "order": "C", "compressor": null, "filters": null, "zarr_format": 2
}"#;

#[test]
fn array_metadata_of_a_tiny_array() {
    let md = ZarrV2Metadata::parse(&json(TINY)).unwrap();
    assert_eq!(md.shape, vec![2, 2]);
    assert_eq!(md.chunks, vec![2, 2]);
    assert_eq!(md.dtype, dtype(DataType::Int32, Endian::Little, None));
    assert_eq!(md.fill_value, FillValue::Value(ZarrValue::Int32(0)));
    assert_eq!(md.order, ArrayOrder::C);
    assert_eq!(md.compressor, None);
    assert_eq!(md.filters, None);
    assert_eq!(md.zarr_format, 2);
    assert_eq!(md.keys, vec!["0.0"]);
    assert_eq!(md.clone(), md);
}

#[test]
fn array_metadata_defaults_and_optional_members() {
    let md = ZarrV2Metadata::parse(&json(
        r#"{"shape": [5], "chunks": [2], "dtype": ">f8", "fill_value": "NaN"}"#,
    ))
    .unwrap();
    assert_eq!(md.order, ArrayOrder::C);
    assert_eq!(md.zarr_format, 2);
    assert_eq!(md.compressor, None);
    assert_eq!(md.filters, None);
    assert_eq!(md.fill_value, FillValue::NaN);
    assert_eq!(md.keys, vec!["0", "1", "2"]);
    let md = ZarrV2Metadata::parse(&json(
        r#"{"shape": [4, 6], "chunks": [2, 3], "dtype": "|u1", "fill_value": null,
            "order": "f", "zarr_format": 7, "extra": {"ignored": true},
            "filters": [{"id": "delta"}],
            "compressor": {"id": "zlib", "level": 3, "other": "x"}}"#,
    ))
    .unwrap();
    assert_eq!(md.order, ArrayOrder::F);
    assert_eq!(md.zarr_format, 7);
    assert_eq!(md.fill_value, FillValue::NaN);
    assert_eq!(md.filters, Some(json(r#"[{"id": "delta"}]"#)));
    assert_eq!(md.keys, vec!["0.0", "0.1", "1.0", "1.1"]);
    let compressor = md.compressor.clone().unwrap();
    assert_eq!(compressor.id, "zlib");
    assert_eq!(
        compressor.config,
        vec![("level".to_string(), json("3")), ("other".to_string(), json("\"x\""))]
    );
    assert_eq!(compressor.clone(), compressor);
    for order in ["C", "c", "F", "f"] {
        let text = format!(
            r#"{{"shape": [1], "chunks": [1], "dtype": "<i2", "fill_value": 1, "order": "{order}"}}"#
        );
        let expected = if order.eq_ignore_ascii_case("c") { ArrayOrder::C } else { ArrayOrder::F };
        assert_eq!(ZarrV2Metadata::parse(&json(&text)).unwrap().order, expected);
    }
}

#[test]
fn array_metadata_that_is_invalid() {
    let bad = [
        r#"[]"#,
        r#"null"#,
        r#""text""#,
        r#"{}"#,
        r#"{"chunks": [2], "dtype": "<i4", "fill_value": 0}"#,
        r#"{"shape": [2], "dtype": "<i4", "fill_value": 0}"#,
        r#"{"shape": [2], "chunks": [2], "fill_value": 0}"#,
        r#"{"shape": [2], "chunks": [2], "dtype": "<i4"}"#,
        r#"{"shape": [2], "chunks": [2], "dtype": 4, "fill_value": 0}"#,
        r#"{"shape": [2], "chunks": [2], "dtype": "<i3", "fill_value": 0}"#,
        r#"{"shape": [2], "chunks": [2], "dtype": "<i4", "fill_value": "NaN"}"#,
        r#"{"shape": [2], "chunks": [2], "dtype": "<i4", "fill_value": 1.5}"#,
        r#"{"shape": [2], "chunks": [2], "dtype": "<i1", "fill_value": 300}"#,
        r#"{"shape": [-2], "chunks": [2], "dtype": "<i4", "fill_value": 0}"#,
        r#"{"shape": [2.0], "chunks": [2], "dtype": "<i4", "fill_value": 0}"#,
        r#"{"shape": ["2"], "chunks": [2], "dtype": "<i4", "fill_value": 0}"#,
        r#"{"shape": 2, "chunks": [2], "dtype": "<i4", "fill_value": 0}"#,
        r#"{"shape": [2], "chunks": [0], "dtype": "<i4", "fill_value": 0}"#,
        r#"{"shape": [2, 2], "chunks": [2], "dtype": "<i4", "fill_value": 0}"#,
        r#"{"shape": [2], "chunks": [2, 2], "dtype": "<i4", "fill_value": 0}"#,
        r#"{"shape": [2], "chunks": [2], "dtype": "<i4", "fill_value": 0, "order": "X"}"#,
        r#"{"shape": [2], "chunks": [2], "dtype": "<i4", "fill_value": 0, "order": null}"#,
        r#"{"shape": [2], "chunks": [2], "dtype": "<i4", "fill_value": 0, "order": 1}"#,
        r#"{"shape": [2], "chunks": [2], "dtype": "<i4", "fill_value": 0, "zarr_format": "2"}"#,
        r#"{"shape": [2], "chunks": [2], "dtype": "<i4", "fill_value": 0, "zarr_format": -2}"#,
        r#"{"shape": [2], "chunks": [2], "dtype": "<i4", "fill_value": 0, "zarr_format": 4294967296}"#,
        r#"{"shape": [2], "chunks": [2], "dtype": "<i4", "fill_value": 0, "zarr_format": null}"#,
        r#"{"shape": [2], "chunks": [2], "dtype": "<i4", "fill_value": 0, "compressor": "gzip"}"#,
        r#"{"shape": [2], "chunks": [2], "dtype": "<i4", "fill_value": 0, "compressor": {}}"#,
        r#"{"shape": [2], "chunks": [2], "dtype": "<i4", "fill_value": 0, "compressor": {"id": 5}}"#,
        r#"{"shape": [2], "chunks": [2], "dtype": "<i4", "fill_value": 0, "compressor": [1]}"#,
    ];
    for text in bad {
        match ZarrV2Metadata::parse(&json(text)) {
            Err(ZarrError::Metadata(_)) => {}
            other => panic!("{text}: {other:?}"),
        }
    }
}

#[test]
fn array_metadata_of_an_empty_and_of_a_scalar_array() {
    let md = ZarrV2Metadata::parse(&json(
        r#"{"shape": [0, 3], "chunks": [1, 3], "dtype": "<i4", "fill_value": 0}"#,
    ))
    .unwrap();
    assert_eq!(md.keys, Vec::<String>::new());
    let md = ZarrV2Metadata::parse(&json(
        r#"{"shape": [], "chunks": [], "dtype": "<i4", "fill_value": 0}"#,
    ))
    .unwrap();
    assert_eq!(md.keys, vec![""]);
}

fn compressor(text: &str) -> ZarrCompressor {
    let md = ZarrV2Metadata::parse(&json(&format!(
        r#"{{"shape": [1], "chunks": [1], "dtype": "<i4", "fill_value": 0, "compressor": {text}}}"#
    )))
    .unwrap();
    md.compressor.unwrap()
}

#[test]
fn compressor_configuration_integers() {
    let c = compressor(r#"{"id": "x", "a": 3, "b": "-12", "c": "x", "d": 1.5, "e": null, "f": " 1"}"#);
    assert_eq!(get_config_int(&c.config, "a"), Some(3));
    assert_eq!(get_config_int(&c.config, "b"), Some(-12));
    assert_eq!(get_config_int(&c.config, "c"), None);
    assert_eq!(get_config_int(&c.config, "d"), None);
    assert_eq!(get_config_int(&c.config, "e"), None);
    assert_eq!(get_config_int(&c.config, "f"), None);
    assert_eq!(get_config_int(&c.config, "missing"), None);
    assert_eq!(get_config_int(&c.config, "id"), None);
}

#[test]
fn compressors_become_codec_lists() {
    assert_eq!(
        compressor_to_codecs(&compressor(r#"{"id": "gzip"}"#)),
        vec![AnyCodec::Gzip(GzipCodec { level: 5 })]
    );
    assert_eq!(
        compressor_to_codecs(&compressor(r#"{"id": "GZip", "level": 7}"#)),
        vec![AnyCodec::Gzip(GzipCodec { level: 7 })]
    );
    assert_eq!(
        compressor_to_codecs(&compressor(r#"{"id": "gzip", "level": 70}"#)),
        vec![AnyCodec::Gzip(GzipCodec { level: 9 })]
    );
    assert_eq!(
        compressor_to_codecs(&compressor(r#"{"id": "gzip", "level": -1}"#)),
        vec![AnyCodec::Gzip(GzipCodec { level: 9 })]
    );
    assert_eq!(
        compressor_to_codecs(&compressor(r#"{"id": "zlib"}"#)),
        vec![AnyCodec::Zlib(ZlibCodec { level: 1 })]
    );
    assert_eq!(
        compressor_to_codecs(&compressor(r#"{"id": "zlib", "level": "4"}"#)),
        vec![AnyCodec::Zlib(ZlibCodec { level: 4 })]
    );
    assert_eq!(
        compressor_to_codecs(&compressor(r#"{"id": "lz4"}"#)),
        vec![AnyCodec::Lz4(Lz4Codec { acceleration: 1 })]
    );
    assert_eq!(
        compressor_to_codecs(&compressor(r#"{"id": "lz4", "acceleration": 40}"#)),
        vec![AnyCodec::Lz4(Lz4Codec { acceleration: 9 })]
    );
    assert_eq!(
        compressor_to_codecs(&compressor(r#"{"id": "lz4", "acceleration": -4}"#)),
        vec![AnyCodec::Lz4(Lz4Codec { acceleration: 0 })]
    );
    assert_eq!(
        compressor_to_codecs(&compressor(r#"{"id": "zstd"}"#)),
        vec![AnyCodec::Zstd(ZstdCodec { level: 5 })]
    );
    assert_eq!(
        compressor_to_codecs(&compressor(r#"{"id": "zstd", "level": 22}"#)),
        vec![AnyCodec::Zstd(ZstdCodec { level: 9 })]
    );
    assert_eq!(
        compressor_to_codecs(&compressor(r#"{"id": "zstd", "level": -5}"#)),
        vec![AnyCodec::Zstd(ZstdCodec { level: 0 })]
    );
    assert_eq!(compressor_to_codecs(&compressor(r#"{"id": "bz2"}"#)), vec![]);
    assert_eq!(compressor_to_codecs(&compressor(r#"{"id": ""}"#)), vec![]);
}

#[test]
fn blosc_compressors_become_blosc_codecs() {
    let blosc = |cname, clevel, shuffle, blocksize| {
        vec![AnyCodec::Blosc(BloscCodec { typesize: None, cname, clevel, shuffle, blocksize })]
    };
    assert_eq!(
        compressor_to_codecs(&compressor(r#"{"id": "blosc"}"#)),
        blosc(BloscCname::Zstd, 5, None, 0)
    );
    assert_eq!(
        compressor_to_codecs(&compressor(
            r#"{"id": "blosc", "cname": "LZ4", "clevel": 3, "shuffle": 1, "blocksize": 64}"#
        )),
        blosc(BloscCname::Lz4, 3, Some(BloscShuffle::Shuffle), 64)
    );
    assert_eq!(
        compressor_to_codecs(&compressor(
            r#"{"id": "blosc", "cname": "nope", "level": 12, "shuffle": "BitShuffle"}"#
        )),
        blosc(BloscCname::Zstd, 9, Some(BloscShuffle::BitShuffle), 0)
    );
    assert_eq!(
        compressor_to_codecs(&compressor(
            r#"{"id": "blosc", "clevel": 2, "level": 8, "shuffle": "0"}"#
        )),
        blosc(BloscCname::Zstd, 2, Some(BloscShuffle::NoShuffle), 0)
    );
    assert_eq!(
        compressor_to_codecs(&compressor(r#"{"id": "blosc", "shuffle": 3, "clevel": -2}"#)),
        blosc(BloscCname::Zstd, 0, None, 0)
    );
    assert_eq!(
        compressor_to_codecs(&compressor(r#"{"id": "blosc", "shuffle": "2", "cname": 7}"#)),
        blosc(BloscCname::Zstd, 5, Some(BloscShuffle::BitShuffle), 0)
    );
    assert_eq!(
        compressor_to_codecs(&compressor(r#"{"id": "blosc", "shuffle": "noshuffle"}"#)),
        blosc(BloscCname::Zstd, 5, Some(BloscShuffle::NoShuffle), 0)
    );
    assert_eq!(
        compressor_to_codecs(&compressor(r#"{"id": "blosc", "shuffle": "shuffle"}"#)),
        blosc(BloscCname::Zstd, 5, Some(BloscShuffle::Shuffle), 0)
    );
    assert_eq!(
        compressor_to_codecs(&compressor(r#"{"id": "blosc", "shuffle": "1"}"#)),
        blosc(BloscCname::Zstd, 5, Some(BloscShuffle::Shuffle), 0)
    );
    assert_eq!(
        compressor_to_codecs(&compressor(r#"{"id": "blosc", "shuffle": true}"#)),
        blosc(BloscCname::Zstd, 5, None, 0)
    );
    assert_eq!(
        compressor_to_codecs(&compressor(r#"{"id": "lz4hc"}"#)),
        blosc(BloscCname::Lz4hc, 5, None, 0)
    );
    assert_eq!(
        compressor_to_codecs(&compressor(r#"{"id": "blosclz", "cname": "zlib"}"#)),
        blosc(BloscCname::Zlib, 5, None, 0)
    );
    assert_eq!(
        compressor_to_codecs(&compressor(r#"{"id": "Snappy"}"#)),
        blosc(BloscCname::Snappy, 5, None, 0)
    );
    assert_eq!(
        blosc_codec_from_config(&compressor(r#"{"id": "any"}"#), Some(BloscCname::Blosclz)).cname,
        BloscCname::Blosclz
    );
    assert_eq!(
        blosc_codec_from_config(&compressor(r#"{"id": "any", "blocksize": -1}"#), None).blocksize,
        usize::MAX
    );
    for (name, cname) in [
        ("lz4", BloscCname::Lz4),
        ("LZ4HC", BloscCname::Lz4hc),
        ("BloscLZ", BloscCname::Blosclz),
        ("zstd", BloscCname::Zstd),
        ("snappy", BloscCname::Snappy),
        ("ZLIB", BloscCname::Zlib),
    ] {
        assert_eq!(parse_blosc_cname(name), Some(cname));
    }
    assert_eq!(parse_blosc_cname("gzip"), None);
    assert_eq!(parse_blosc_cname(""), None);
}

#[test]
fn codec_list_of_an_array_ends_with_the_byte_order() {
    let md = ZarrV2Metadata::parse(&json(
        r#"{"shape": [1], "chunks": [1], "dtype": ">i4", "fill_value": 0,
            "compressor": {"id": "zlib", "level": 2}}"#,
    ))
    .unwrap();
    assert_eq!(
        get_codec_equivalents(&md),
        vec![
            AnyCodec::Zlib(ZlibCodec { level: 2 }),
            AnyCodec::Bytes(BytesCodec { endian: Some(Endian::Big) })
        ]
    );
    let md = ZarrV2Metadata::parse(&json(TINY)).unwrap();
    assert_eq!(
        get_codec_equivalents(&md),
        vec![AnyCodec::Bytes(BytesCodec { endian: Some(Endian::Little) })]
    );
    let md = ZarrV2Metadata::parse(&json(
        r#"{"shape": [1], "chunks": [1], "dtype": "|u1", "fill_value": 0,
            "compressor": {"id": "unknown"}}"#,
    ))
    .unwrap();
    assert_eq!(
        get_codec_equivalents(&md),
        vec![AnyCodec::Bytes(BytesCodec { endian: Some(Endian::NotApplicable) })]
    );
}

#[test]
fn consolidated_metadata_names_its_arrays() {
    let doc = json(
        r#"{"zarr_consolidated_format": 1, "metadata": {
            ".zattrs": {},
            ".zgroup": {"zarr_format": 2},
            "a/.zarray": {"shape": [1], "chunks": [1], "dtype": "<f4", "fill_value": 0.0},
            "a/.zattrs": {"units": "m"},
            "b/.zarray": {"shape": [1], "chunks": [1], "dtype": "<i4", "fill_value": 0},
            "broken/.zarray": {"shape": [1]},
            "/deep/c/.zarray": {"shape": [2], "chunks": [1], "dtype": "|u1", "fill_value": 0},
            "loose": {"shape": [3], "chunks": [3], "dtype": "|u1", "fill_value": 0},
            "notanarray": {"hello": 1},
            "text": "x"
        }}"#,
    );
    let consolidated = ZarrConsolidatedMetadata::parse(&doc).unwrap();
    assert_eq!(consolidated.zarr_consolidated_format, 1);
    let names: Vec<&str> = consolidated.metadata.iter().map(|(n, _)| n.as_str()).collect();
    assert_eq!(names, vec!["deep/c", "a", "b", "loose"]);
    assert_eq!(consolidated.metadata[1].1.dtype.data_type, DataType::Float32);
    assert_eq!(consolidated.metadata[2].1.dtype.data_type, DataType::Int32);
    assert_eq!(consolidated.metadata[0].1.keys, vec!["0", "1"]);
}

#[test]
fn consolidated_metadata_keeps_the_last_of_a_repeated_name() {
    let doc = json(
        r#"{"metadata": {
            "/a/.zarray": {"shape": [1], "chunks": [1], "dtype": "<f4", "fill_value": 0.0},
            "a/.zarray": {"shape": [2], "chunks": [1], "dtype": "<i4", "fill_value": 0},
            "b/.zarray": {"shape": [3], "chunks": [1], "dtype": "<i4", "fill_value": 0}
        }}"#,
    );
    let consolidated = ZarrConsolidatedMetadata::parse(&doc).unwrap();
    assert_eq!(consolidated.zarr_consolidated_format, 1);
    let names: Vec<&str> = consolidated.metadata.iter().map(|(n, _)| n.as_str()).collect();
    assert_eq!(names, vec!["a", "b"]);
    assert_eq!(consolidated.metadata[0].1.shape, vec![2]);
}

#[test]
fn consolidated_metadata_format_and_failures() {
    let format = |text: &str| {
        ZarrConsolidatedMetadata::parse(&json(text)).unwrap().zarr_consolidated_format
    };
    assert_eq!(format(r#"{"zarr_consolidated_format": 2, "metadata": {}}"#), 2);
    assert_eq!(format(r#"{"zarr_consolidated_format": "1", "metadata": {}}"#), 1);
    assert_eq!(format(r#"{"zarr_consolidated_format": -1, "metadata": {}}"#), 1);
    assert_eq!(format(r#"{"zarr_consolidated_format": 4294967297, "metadata": {}}"#), 1);
    assert_eq!(format(r#"{"metadata": {}}"#), 1);
    for bad in [r#"{}"#, r#"[]"#, r#"{"metadata": []}"#, r#"{"metadata": null}"#, r#"3"#] {
        match ZarrConsolidatedMetadata::parse(&json(bad)) {
            Err(ZarrError::Metadata(_)) => {}
            other => panic!("{bad}: {other:?}"),
        }
    }
}

#[test]
fn array_names_come_from_member_names() {
    assert_eq!(array_name_of("a/.zarray"), "a");
    assert_eq!(array_name_of("/a/b/.zarray"), "a/b");
    assert_eq!(array_name_of("a.zarray"), "a");
    assert_eq!(array_name_of("//x"), "x");
    assert_eq!(array_name_of("plain"), "plain");
    for key in ["a/.zarray", "/a/b/.zarray", "x.zarray.y/.zarray", "///q/.zarray/.zarray"] {
        let expected = key.replace("/.zarray", "").replace(".zarray", "");
        assert_eq!(array_name_of(key), expected.trim_start_matches('/'));
    }
}

#[test]
fn codec_descriptions_parse() {
    let codec = |text: &str| parse_codec(&json(text));
    assert_eq!(
        codec(r#"{"name": "bytes", "configuration": {"endian": "big"}}"#),
        Ok(AnyCodec::Bytes(BytesCodec { endian: Some(Endian::Big) }))
    );
    assert_eq!(
        codec(r#"{"name": "bytes"}"#),
        Ok(AnyCodec::Bytes(BytesCodec { endian: None }))
    );
    assert_eq!(
        codec(r#"{"name": "bytes", "configuration": null}"#),
        Ok(AnyCodec::Bytes(BytesCodec { endian: None }))
    );
    assert_eq!(
        codec(r#"{"name": "bytes", "configuration": {"endian": "sideways"}}"#),
        Ok(AnyCodec::Bytes(BytesCodec { endian: Some(Endian::Little) }))
    );
    assert_eq!(
        codec(r#"{"name": "bytes", "configuration": {"endian": 5}}"#),
        Ok(AnyCodec::Bytes(BytesCodec { endian: Some(Endian::Little) }))
    );
    assert_eq!(
        codec(r#"{"name": "gzip", "configuration": {"level": 7}}"#),
        Ok(AnyCodec::Gzip(GzipCodec { level: 7 }))
    );
    assert_eq!(codec(r#"{"name": "gzip"}"#), Ok(AnyCodec::Gzip(GzipCodec { level: 5 })));
    assert_eq!(
        codec(r#"{"name": "gzip", "configuration": {"level": -1}}"#),
        Ok(AnyCodec::Gzip(GzipCodec { level: 5 }))
    );
    assert_eq!(
        codec(r#"{"name": "gzip", "configuration": {"level": 70000, "x": 1}}"#),
        Ok(AnyCodec::Gzip(GzipCodec { level: 70000 }))
    );
    assert_eq!(codec(r#"{"name": "zlib"}"#), Ok(AnyCodec::Zlib(ZlibCodec { level: 1 })));
    assert_eq!(
        codec(r#"{"name": "zlib", "configuration": {"level": "3"}}"#),
        Ok(AnyCodec::Zlib(ZlibCodec { level: 1 }))
    );
    assert_eq!(
        codec(r#"{"name": "zstd", "configuration": {"level": -3}}"#),
        Ok(AnyCodec::Zstd(ZstdCodec { level: -3 }))
    );
    assert_eq!(
        codec(r#"{"name": "zstd", "configuration": {"level": 2147483648}}"#),
        Ok(AnyCodec::Zstd(ZstdCodec { level: 5 }))
    );
    assert_eq!(
        codec(r#"{"name": "lz4", "configuration": {"acceleration": 4}}"#),
        Ok(AnyCodec::Lz4(Lz4Codec { acceleration: 4 }))
    );
    assert_eq!(codec(r#"{"name": "lz4"}"#), Ok(AnyCodec::Lz4(Lz4Codec { acceleration: 1 })));
}

#[test]
fn blosc_and_sharding_descriptions_parse() {
    let codec = |text: &str| parse_codec(&json(text)).unwrap();
    assert_eq!(
        codec(r#"{"name": "blosc"}"#),
        AnyCodec::Blosc(BloscCodec {
            typesize: None,
            cname: BloscCname::Zstd,
            clevel: 5,
            shuffle: None,
            blocksize: 0
        })
    );
    assert_eq!(
        codec(
            r#"{"name": "blosc", "configuration": {"typesize": 4, "cname": "lz4", "clevel": 9,
                "shuffle": "bitshuffle", "blocksize": 128}}"#
        ),
        AnyCodec::Blosc(BloscCodec {
            typesize: Some(4),
            cname: BloscCname::Lz4,
            clevel: 9,
            shuffle: Some(BloscShuffle::BitShuffle),
            blocksize: 128
        })
    );
    assert_eq!(
        codec(r#"{"name": "blosc", "configuration": {"shuffle": 2, "typesize": null}}"#),
        AnyCodec::Blosc(BloscCodec { shuffle: Some(BloscShuffle::BitShuffle), ..BloscCodec::default() })
    );
    for bad in [
        r#"{"cname": "LZ4"}"#,
        r#"{"cname": "gzip"}"#,
        r#"{"shuffle": 7}"#,
        r#"{"shuffle": "sideways"}"#,
        r#"{"typesize": -1}"#,
        r#"{"clevel": "5"}"#,
        r#"{"blocksize": 1.5}"#,
        r#"[1, 2]"#,
        r#""text""#,
    ] {
        let text = format!(r#"{{"name": "blosc", "configuration": {bad}}}"#);
        assert_eq!(codec(&text), AnyCodec::Blosc(BloscCodec::default()), "{bad}");
    }
    match codec(
        r#"{"name": "sharding_indexed", "configuration": {"chunk_shape": [2, 3],
            "codecs": [{"name": "bytes"}, 5]}}"#,
    ) {
        AnyCodec::Sharding(s) => {
            assert_eq!(s.chunk_shape, vec![2, 3]);
            assert_eq!(s.codecs, vec![json(r#"{"name": "bytes"}"#), json("5")]);
        }
        other => panic!("{other:?}"),
    }
    match codec(r#"{"name": "sharding_indexed", "configuration": {"chunk_shape": [-2]}}"#) {
        AnyCodec::Sharding(s) => {
            assert!(s.chunk_shape.is_empty());
            assert!(s.codecs.is_empty());
        }
        other => panic!("{other:?}"),
    }
    assert_eq!(codec(r#"{"name": "sharding_indexed"}"#).codec_id(), CodecId::Sharding);
}

#[test]
fn fixed_scale_offset_descriptions_parse_or_fail() {
    match parse_codec(&json(
        r#"{"name": "numcodecs.fixedscaleoffset", "configuration":
            {"scale": 0.5, "offset": 10, "dtype": "float32", "astype": "int16"}}"#,
    ))
    .unwrap()
    {
        AnyCodec::FixedScaleOffset(c) => {
            assert_eq!(f64::from_bits(c.scale), 0.5);
            assert_eq!(f64::from_bits(c.offset), 10.0);
            assert_eq!(c.dtype, "float32");
            assert_eq!(c.astype, "int16");
        }
        other => panic!("{other:?}"),
    }
    for bad in [
        r#"{"name": "numcodecs.fixedscaleoffset"}"#,
        r#"{"name": "numcodecs.fixedscaleoffset", "configuration": {"scale": 1, "offset": 0, "dtype": "float32"}}"#,
        r#"{"name": "numcodecs.fixedscaleoffset", "configuration": {"scale": "1", "offset": 0, "dtype": "float32", "astype": "int16"}}"#,
        r#"{"name": "numcodecs.fixedscaleoffset", "configuration": [1, 0, "float32", "int16"]}"#,
        r#"{"name": "unknown"}"#,
        r#"{"name": 5}"#,
        r#"{"configuration": {}}"#,
        r#"{}"#,
        r#"[]"#,
        r#""gzip""#,
    ] {
        match parse_codec(&json(bad)) {
            Err(ZarrError::Codec(_)) => {}
            other => panic!("{bad}: {other:?}"),
        }
    }
}

#[test]
fn codec_lists_parse_in_order_or_fail_as_a_whole() {
    let list = |text: &str| match json(text) {
        JsonValue::Array(items) => items,
        other => panic!("{other:?}"),
    };
    assert_eq!(
        parse_codecs(&list(r#"[{"name": "gzip"}, {"name": "bytes", "configuration": {"endian": "little"}}]"#)),
        Ok(vec![
            AnyCodec::Gzip(GzipCodec { level: 5 }),
            AnyCodec::Bytes(BytesCodec { endian: Some(Endian::Little) })
        ])
    );
    assert_eq!(parse_codecs(&[]), Ok(vec![]));
    let failed = parse_codecs(&list(r#"[{"name": "gzip"}, {"name": "nope"}, {"name": "zlib"}]"#));
    assert_eq!(failed.unwrap_err().kind(), ErrorKind::Codec);
}

#[test]
fn json_documents_answer_lookups() {
    let doc = json(r#"{"a": 1, "b": "text", "c": [1, 2], "d": {"e": null}, "f": -3, "g": 1.5}"#);
    assert_eq!(doc.get("a").and_then(|v| v.as_u64()), Some(1));
    assert_eq!(doc.get("a").and_then(|v| v.as_i64()), Some(1));
    assert_eq!(doc.get("b").and_then(|v| v.as_str()), Some("text"));
    assert_eq!(doc.get("f").and_then(|v| v.as_i64()), Some(-3));
    assert_eq!(doc.get("f").and_then(|v| v.as_u64()), None);
    assert_eq!(doc.get("g").and_then(|v| v.as_i64()), None);
    assert_eq!(doc.get("d").and_then(|d| d.get("e")), Some(&JsonValue::Null));
    assert_eq!(doc.get("missing"), None);
    assert_eq!(doc.get("c").and_then(|c| c.get("x")), None);
    assert_eq!(doc.get("b").and_then(|b| b.as_i64()), None);
    assert_eq!(doc.clone(), doc);
    let c = compressor(r#"{"id": "x", "k": [1, {"z": "y"}]}"#);
    assert_eq!(c.config, vec![("k".to_string(), json(r#"[1, {"z": "y"}]"#))]);
}

#[test]
fn codec_lists_by_exact_compressor_name() {
    let comp = compressor(r#"{"id": "whatever", "level": 3, "acceleration": 2}"#);
    assert_eq!(codecs_for_id("gzip", &comp), vec![AnyCodec::Gzip(GzipCodec { level: 3 })]);
    assert_eq!(codecs_for_id("zlib", &comp), vec![AnyCodec::Zlib(ZlibCodec { level: 3 })]);
    assert_eq!(codecs_for_id("zstd", &comp), vec![AnyCodec::Zstd(ZstdCodec { level: 3 })]);
    assert_eq!(codecs_for_id("lz4", &comp), vec![AnyCodec::Lz4(Lz4Codec { acceleration: 2 })]);
    for (id, cname) in [
        ("blosc", BloscCname::Zstd),
        ("lz4hc", BloscCname::Lz4hc),
        ("blosclz", BloscCname::Blosclz),
        ("snappy", BloscCname::Snappy),
    ] {
        assert_eq!(
            codecs_for_id(id, &comp),
            vec![AnyCodec::Blosc(BloscCodec {
                typesize: None,
                cname,
                clevel: 3,
                shuffle: None,
                blocksize: 0
            })]
        );
    }
    for id in ["GZIP", "Gzip", "", "bz2", "whatever", "gzip "] {
        assert_eq!(codecs_for_id(id, &comp), vec![]);
    }
}
