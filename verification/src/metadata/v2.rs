//! Zarr v2 metadata: the NumPy dtype string, array metadata, consolidated
//! metadata, and the list of chunk keys.

use crate::array::{cartesian_indices, format_key, key_text};
use crate::error::{ZarrError, ZarrResult};
use crate::json::{
    lemma_object_model, lookup, members_model, members_without, opt_json, without_member, Json,
    JsonValue,
};
use crate::metadata::{fill_of_json, parse_fill_value};
use crate::shape::{all_positive, has_zero_extent, shape_product, unravel};
use crate::text::{
    chars_of, find_char, first_index_of, has_char, lemma_first_index_of, parse_unsigned,
    parse_usize, same_text,
};
use crate::text::{
    ends_with, has_prefix, has_suffix, lemma_first_index_is, remove_all, starts_with, trim_leading,
    trim_start, without,
};
use crate::types::{ArrayOrder, DataType, Endian, Fill, FillValue};
use vstd::prelude::*;
use vstd::slice::slice_subrange;
use vstd::string::{StrSliceExecFns, StringExecFns};

verus! {

/// Mathematical model of a [`V2DataType`].
pub ghost struct DTypeModel {
    pub data_type: DataType,
    pub byte_order: Endian,
    pub time_unit: Option<Seq<char>>,
}

/// V2-specific data type that wraps the core `DataType` along with byte order
/// and an optional time unit (for datetime/timedelta dtypes).
#[derive(Debug, PartialEq, Eq)]
pub struct V2DataType {
    pub data_type: DataType,
    pub byte_order: Endian,
    pub time_unit: Option<String>,
}

/// Model of an optional string.
pub open spec fn opt_text(text: Option<String>) -> Option<Seq<char>> {
    match text {
        Some(t) => Some(t@),
        None => None,
    }
}

impl View for V2DataType {
    type V = DTypeModel;

    open spec fn view(&self) -> DTypeModel {
        DTypeModel {
            data_type: self.data_type,
            byte_order: self.byte_order,
            time_unit: opt_text(self.time_unit),
        }
    }
}

impl Clone for V2DataType {
    fn clone(&self) -> (copy: V2DataType)
        ensures
            copy@ == self@,
    {
        V2DataType {
            data_type: self.data_type,
            byte_order: self.byte_order,
            time_unit: match &self.time_unit {
                Some(unit) => Some(unit.clone()),
                None => None,
            },
        }
    }
}

/// The type code and byte size by which a data type is written: one byte
/// for strings and byte strings, whatever their length.
pub open spec fn type_code_of(data_type: DataType) -> Seq<char> {
    match data_type {
        DataType::Bool => "b1"@,
        DataType::Int8 => "i1"@,
        DataType::Int16 => "i2"@,
        DataType::Int32 => "i4"@,
        DataType::Int64 => "i8"@,
        DataType::UInt8 => "u1"@,
        DataType::UInt16 => "u2"@,
        DataType::UInt32 => "u4"@,
        DataType::UInt64 => "u8"@,
        DataType::Float16 => "f2"@,
        DataType::Float32 => "f4"@,
        DataType::Float64 => "f8"@,
        DataType::Complex64 => "c8"@,
        DataType::Complex128 => "c16"@,
        DataType::String => "S1"@,
        DataType::Bytes => "V1"@,
    }
}

/// The NumPy format string of a data type: byte-order mark, type code and
/// byte size, and the time unit in square brackets where there is one.
pub open spec fn numpy_text(dtype: DTypeModel) -> Seq<char> {
    let mark = match dtype.byte_order {
        Endian::Little => "<"@,
        Endian::Big => ">"@,
        Endian::NotApplicable => "|"@,
    };
    let unit = match dtype.time_unit {
        Some(unit) => "["@ + unit + "]"@,
        None => Seq::empty(),
    };
    mark + type_code_of(dtype.data_type) + unit
}

impl V2DataType {
    /// The NumPy format string of the data type.
    pub fn to_numpy_string(&self) -> (text: String)
        ensures
            text@ == numpy_text(self@),
    {
        let mut text = String::from_str(
            match self.byte_order {
                Endian::Little => "<",
                Endian::Big => ">",
                Endian::NotApplicable => "|",
            },
        );
        text.append(
            match self.data_type {
                DataType::Bool => "b1",
                DataType::Int8 => "i1",
                DataType::Int16 => "i2",
                DataType::Int32 => "i4",
                DataType::Int64 => "i8",
                DataType::UInt8 => "u1",
                DataType::UInt16 => "u2",
                DataType::UInt32 => "u4",
                DataType::UInt64 => "u8",
                DataType::Float16 => "f2",
                DataType::Float32 => "f4",
                DataType::Float64 => "f8",
                DataType::Complex64 => "c8",
                DataType::Complex128 => "c16",
                DataType::String => "S1",
                DataType::Bytes => "V1",
            },
        );
        match &self.time_unit {
            Some(unit) => {
                text.append("[");
                text.append(unit.as_str());
                text.append("]");
                proof {
                    assert(text@ =~= numpy_text(self@));
                }
            },
            None => {
                proof {
                    assert(text@ =~= numpy_text(self@));
                }
            },
        }
        text
    }
}

/// Model of a [`NumPyFormat`].
pub ghost struct FormatModel {
    pub byte_order: char,
    pub type_code: char,
    pub byte_size: usize,
    pub time_unit: Option<Seq<char>>,
}

/// Intermediate parsed representation of a NumPy format string.
#[derive(Debug)]
pub struct NumPyFormat {
    pub byte_order: char,
    pub type_code: char,
    pub byte_size: usize,
    pub time_unit: Option<String>,
}

impl View for NumPyFormat {
    type V = FormatModel;

    open spec fn view(&self) -> FormatModel {
        FormatModel {
            byte_order: self.byte_order,
            type_code: self.type_code,
            byte_size: self.byte_size,
            time_unit: opt_text(self.time_unit),
        }
    }
}

/// Whether the character is one of the three byte-order marks.
pub open spec fn is_byte_order_mark(c: char) -> bool {
    c == '<' || c == '>' || c == '|'
}

/// Whether the character is one of the ten type codes.
pub open spec fn is_type_code(c: char) -> bool {
    c == 'b' || c == 'i' || c == 'u' || c == 'f' || c == 'c' || c == 'M' || c == 'm' || c == 'S'
        || c == 'U' || c == 'V'
}

/// A byte size: a positive unsigned decimal number.
pub open spec fn positive_size(text: Seq<char>) -> Option<usize> {
    match parse_unsigned(text) {
        Some(size) if size > 0 => Some(size),
        _ => None,
    }
}

/// The byte size and the time unit of what follows a datetime or timedelta
/// type code: the size alone, or the size, `[`, the unit and `]`. What
/// stands behind the `]` is not looked at.
pub open spec fn size_and_unit(text: Seq<char>) -> Option<(usize, Option<Seq<char>>)> {
    if has_char(text, '[') {
        let open = first_index_of(text, '[');
        let inner = text.skip(open + 1);
        if has_char(inner, ']') {
            match positive_size(text.take(open)) {
                Some(size) => Some((size, Some(inner.take(first_index_of(inner, ']'))))),
                None => None,
            }
        } else {
            None
        }
    } else {
        match positive_size(text) {
            Some(size) => Some((size, None)),
            None => None,
        }
    }
}

/// The parts of a NumPy format string: a byte-order mark, a type code, a
/// byte size and, for datetime and timedelta, an optional unit in square
/// brackets. `None` where the string is none.
pub open spec fn numpy_format(text: Seq<char>) -> Option<FormatModel> {
    if text.len() < 3 || !is_byte_order_mark(text[0]) || !is_type_code(text[1]) {
        None
    } else if text[1] == 'M' || text[1] == 'm' {
        match size_and_unit(text.skip(2)) {
            Some((size, unit)) => Some(
                FormatModel {
                    byte_order: text[0],
                    type_code: text[1],
                    byte_size: size,
                    time_unit: unit,
                },
            ),
            None => None,
        }
    } else {
        match positive_size(text.skip(2)) {
            Some(size) => Some(
                FormatModel {
                    byte_order: text[0],
                    type_code: text[1],
                    byte_size: size,
                    time_unit: None,
                },
            ),
            None => None,
        }
    }
}

/// The byte order that a mark stands for.
pub open spec fn byte_order_of(c: char) -> Option<Endian> {
    if c == '<' {
        Some(Endian::Little)
    } else if c == '>' {
        Some(Endian::Big)
    } else if c == '|' {
        Some(Endian::NotApplicable)
    } else {
        None
    }
}

/// The element type of a type code and a byte size. Datetime and
/// timedelta count as 64-bit integers whatever their size; strings and
/// byte strings take any size.
pub open spec fn core_type(type_code: char, byte_size: usize) -> Option<DataType> {
    if type_code == 'b' && byte_size == 1 {
        Some(DataType::Bool)
    } else if type_code == 'i' && byte_size == 1 {
        Some(DataType::Int8)
    } else if type_code == 'i' && byte_size == 2 {
        Some(DataType::Int16)
    } else if type_code == 'i' && byte_size == 4 {
        Some(DataType::Int32)
    } else if type_code == 'i' && byte_size == 8 {
        Some(DataType::Int64)
    } else if type_code == 'u' && byte_size == 1 {
        Some(DataType::UInt8)
    } else if type_code == 'u' && byte_size == 2 {
        Some(DataType::UInt16)
    } else if type_code == 'u' && byte_size == 4 {
        Some(DataType::UInt32)
    } else if type_code == 'u' && byte_size == 8 {
        Some(DataType::UInt64)
    } else if type_code == 'f' && byte_size == 2 {
        Some(DataType::Float16)
    } else if type_code == 'f' && byte_size == 4 {
        Some(DataType::Float32)
    } else if type_code == 'f' && byte_size == 8 {
        Some(DataType::Float64)
    } else if type_code == 'c' && byte_size == 8 {
        Some(DataType::Complex64)
    } else if type_code == 'c' && byte_size == 16 {
        Some(DataType::Complex128)
    } else if type_code == 'S' || type_code == 'U' {
        Some(DataType::String)
    } else if type_code == 'V' {
        Some(DataType::Bytes)
    } else if type_code == 'M' || type_code == 'm' {
        Some(DataType::Int64)
    } else {
        None
    }
}

/// The data type that a parsed format stands for.
pub open spec fn dtype_of_format(format: FormatModel) -> Option<DTypeModel> {
    match (core_type(format.type_code, format.byte_size), byte_order_of(format.byte_order)) {
        (Some(data_type), Some(byte_order)) => Some(
            DTypeModel { data_type, byte_order, time_unit: format.time_unit },
        ),
        _ => None,
    }
}

/// The data type that a NumPy format string stands for.
pub open spec fn numpy_dtype(text: Seq<char>) -> Option<DTypeModel> {
    match numpy_format(text) {
        Some(format) => dtype_of_format(format),
        None => None,
    }
}

/// Parse a NumPy dtype format string (e.g. `"<f8"`, `">i4"`, `"|b1"`, `"<M8[ns]"`)
/// into a [`V2DataType`].
pub fn parse_numpy_dtype(s: &str) -> (result: Result<V2DataType, String>)
    ensures
        match numpy_dtype(s@) {
            Some(model) => result matches Ok(dtype) && dtype@ == model,
            None => result is Err,
        },
{
    match parse_numpy_format(s) {
        Ok(format) => numpy_format_to_dtype(&format),
        Err(message) => Err(message),
    }
}

/// Reads a byte size: a decimal number above zero.
fn parse_size(chars: &[char]) -> (size: Option<usize>)
    ensures
        size == positive_size(chars@),
{
    match parse_usize(chars) {
        Some(size) => {
            if size == 0 {
                None
            } else {
                Some(size)
            }
        },
        None => None,
    }
}

/// Splits a NumPy format string into its parts.
pub fn parse_numpy_format(s: &str) -> (result: Result<NumPyFormat, String>)
    ensures
        match numpy_format(s@) {
            Some(model) => result matches Ok(format) && format@ == model,
            None => result is Err,
        },
{
    let chars = chars_of(s);
    if chars.len() < 3 {
        return Err(String::from_str("NumPy format string too short"));
    }
    let byte_order = chars[0];
    if !(byte_order == '<' || byte_order == '>' || byte_order == '|') {
        return Err(String::from_str("Invalid byte order"));
    }
    let type_code = chars[1];
    if !(type_code == 'b' || type_code == 'i' || type_code == 'u' || type_code == 'f' || type_code
        == 'c' || type_code == 'M' || type_code == 'm' || type_code == 'S' || type_code == 'U'
        || type_code == 'V') {
        return Err(String::from_str("Invalid type code"));
    }
    let rest = s.substring_char(2, chars.len());
    proof {
        assert(rest@ =~= s@.skip(2));
    }
    if type_code == 'M' || type_code == 'm' {
        match parse_with_time_unit(rest) {
            Ok((byte_size, time_unit)) => Ok(
                NumPyFormat { byte_order, type_code, byte_size, time_unit },
            ),
            Err(message) => Err(message),
        }
    } else {
        let digits = chars_of(rest);
        match parse_size(digits.as_slice()) {
            Some(byte_size) => Ok(NumPyFormat { byte_order, type_code, byte_size, time_unit: None }),
            None => Err(String::from_str("Invalid byte size")),
        }
    }
}

/// Reads the byte size and the optional bracketed unit of a datetime or
/// timedelta format.
pub fn parse_with_time_unit(s: &str) -> (result: Result<(usize, Option<String>), String>)
    ensures
        match size_and_unit(s@) {
            Some((size, unit)) => result matches Ok(found) && found.0 == size && opt_text(found.1)
                == unit,
            None => result is Err,
        },
{
    let chars = chars_of(s);
    let n = chars.len();
    let open = find_char(chars.as_slice(), '[');
    proof {
        lemma_first_index_of(s@, '[');
    }
    if open < n {
        let inner = slice_subrange(chars.as_slice(), open + 1, n);
        proof {
            assert(inner@ =~= s@.skip(open + 1));
            lemma_first_index_of(inner@, ']');
        }
        let close = find_char(inner, ']');
        if close >= inner.len() {
            return Err(String::from_str("Missing closing bracket in datetime format"));
        }
        let unit = String::from_str(s.substring_char(open + 1, open + 1 + close));
        let size_chars = slice_subrange(chars.as_slice(), 0, open);
        proof {
            assert(size_chars@ =~= s@.take(open as int));
            assert(unit@ =~= s@.skip(open + 1).take(close as int));
        }
        match parse_size(size_chars) {
            Some(size) => Ok((size, Some(unit))),
            None => Err(String::from_str("Invalid byte size in datetime format")),
        }
    } else {
        match parse_size(chars.as_slice()) {
            Some(size) => Ok((size, None)),
            None => Err(String::from_str("Invalid byte size")),
        }
    }
}

/// The byte order that a mark stands for.
pub fn parse_byte_order(c: char) -> (result: Result<Endian, String>)
    ensures
        match byte_order_of(c) {
            Some(endian) => result == Ok::<Endian, String>(endian),
            None => result is Err,
        },
{
    if c == '<' {
        Ok(Endian::Little)
    } else if c == '>' {
        Ok(Endian::Big)
    } else if c == '|' {
        Ok(Endian::NotApplicable)
    } else {
        Err(String::from_str("Invalid byte order"))
    }
}

/// Turns a parsed format into a data type, by the table of type codes and
/// byte sizes.
pub fn numpy_format_to_dtype(fmt: &NumPyFormat) -> (result: Result<V2DataType, String>)
    ensures
        match dtype_of_format(fmt@) {
            Some(model) => result matches Ok(dtype) && dtype@ == model,
            None => result is Err,
        },
{
    let code = fmt.type_code;
    let size = fmt.byte_size;
    let core = if code == 'b' && size == 1 {
        DataType::Bool
    } else if code == 'i' && size == 1 {
        DataType::Int8
    } else if code == 'i' && size == 2 {
        DataType::Int16
    } else if code == 'i' && size == 4 {
        DataType::Int32
    } else if code == 'i' && size == 8 {
        DataType::Int64
    } else if code == 'u' && size == 1 {
        DataType::UInt8
    } else if code == 'u' && size == 2 {
        DataType::UInt16
    } else if code == 'u' && size == 4 {
        DataType::UInt32
    } else if code == 'u' && size == 8 {
        DataType::UInt64
    } else if code == 'f' && size == 2 {
        DataType::Float16
    } else if code == 'f' && size == 4 {
        DataType::Float32
    } else if code == 'f' && size == 8 {
        DataType::Float64
    } else if code == 'c' && size == 8 {
        DataType::Complex64
    } else if code == 'c' && size == 16 {
        DataType::Complex128
    } else if code == 'S' || code == 'U' {
        DataType::String
    } else if code == 'V' {
        DataType::Bytes
    } else if code == 'M' || code == 'm' {
        DataType::Int64
    } else {
        return Err(String::from_str("Unsupported NumPy type"));
    };
    match parse_byte_order(fmt.byte_order) {
        Ok(byte_order) => Ok(
            V2DataType {
                data_type: core,
                byte_order,
                time_unit: match &fmt.time_unit {
                    Some(unit) => Some(unit.clone()),
                    None => None,
                },
            },
        ),
        Err(message) => Err(message),
    }
}

/// Number of chunks along one dimension: the extent divided by the chunk
/// extent, rounded up.
pub open spec fn chunk_count(extent: usize, chunk: usize) -> usize {
    if extent % chunk == 0 {
        extent / chunk
    } else {
        (extent / chunk + 1) as usize
    }
}

/// Number of chunks along each dimension that both shapes have.
pub open spec fn chunk_grid(shape: Seq<usize>, chunks: Seq<usize>) -> Seq<usize> {
    Seq::new(
        if shape.len() < chunks.len() {
            shape.len()
        } else {
            chunks.len()
        },
        |d: int| chunk_count(shape[d], chunks[d]),
    )
}

/// The keys of all chunks of an array, in lexicographic order of their grid
/// coordinates.
pub open spec fn keys_of(shape: Seq<usize>, chunks: Seq<usize>) -> Seq<Seq<char>> {
    let grid = chunk_grid(shape, chunks);
    Seq::new(shape_product(grid), |k: int| key_text(unravel(grid, k as nat)))
}

/// No two chunks of an array have the same key.
pub proof fn lemma_keys_are_distinct(shape: Seq<usize>, chunks: Seq<usize>, first: int, second: int)
    requires
        0 <= first < keys_of(shape, chunks).len(),
        0 <= second < keys_of(shape, chunks).len(),
        first != second,
    ensures
        keys_of(shape, chunks)[first] != keys_of(shape, chunks)[second],
{
    let grid = chunk_grid(shape, chunks);
    crate::array::lemma_key_round_trip(unravel(grid, first as nat));
    crate::array::lemma_key_round_trip(unravel(grid, second as nat));
    crate::array::lemma_linear_index_of_cartesian(grid, first as nat);
    crate::array::lemma_linear_index_of_cartesian(grid, second as nat);
}

/// Model of a list of strings.
pub open spec fn texts_of(items: Seq<String>) -> Seq<Seq<char>> {
    Seq::new(items.len(), |i: int| items[i]@)
}

/// Generate all storage keys for a given array shape and chunk sizes.
///
/// No chunk extent may be zero.
pub fn list_keys(shape: &[usize], chunks: &[usize]) -> (keys: Vec<String>)
    requires
        forall|d: int| 0 <= d < chunks@.len() && d < shape@.len() ==> chunks@[d] >= 1,
    ensures
        texts_of(keys@) == keys_of(shape@, chunks@),
{
    let n = if shape.len() < chunks.len() {
        shape.len()
    } else {
        chunks.len()
    };
    let mut chunks_per_dim: Vec<usize> = Vec::new();
    let mut d: usize = 0;
    while d < n
        invariant
            d <= n,
            n <= shape@.len(),
            n <= chunks@.len(),
            forall|e: int| 0 <= e < n ==> chunks@[e] >= 1,
            chunks_per_dim@.len() == d,
            forall|e: int| 0 <= e < d ==> chunks_per_dim@[e] == chunk_count(shape@[e], chunks@[e]),
        decreases n - d,
    {
        let whole = shape[d] / chunks[d];
        let count = if shape[d] % chunks[d] == 0 {
            whole
        } else {
            proof {
                assert(whole < shape@[d as int]) by (nonlinear_arith)
                    requires
                        whole == shape@[d as int] / chunks@[d as int],
                        shape@[d as int] % chunks@[d as int] != 0,
                        chunks@[d as int] >= 1,
                ;
            }
            whole + 1
        };
        chunks_per_dim.push(count);
        d += 1;
    }
    proof {
        assert(chunks_per_dim@ =~= chunk_grid(shape@, chunks@));
    }
    let all_indices = cartesian_product(chunks_per_dim.as_slice());
    let mut keys: Vec<String> = Vec::new();
    let mut k: usize = 0;
    while k < all_indices.len()
        invariant
            k <= all_indices@.len(),
            keys@.len() == k,
            forall|j: int| 0 <= j < k ==> (#[trigger] keys@[j])@ == key_text(all_indices@[j]@),
        decreases all_indices@.len() - k,
    {
        keys.push(format_key(all_indices[k].as_slice()));
        k += 1;
    }
    proof {
        assert(texts_of(keys@) =~= keys_of(shape@, chunks@));
    }
    keys
}

/// All index tuples below the given extents, in lexicographic order.
pub fn cartesian_product(dims: &[usize]) -> (result: Vec<Vec<usize>>)
    ensures
        result@.len() == shape_product(dims@),
        forall|k: int| 0 <= k < result@.len() ==> (#[trigger] result@[k])@ == unravel(dims@, k as nat),
{
    cartesian_indices(dims)
}

/// Model of a [`ZarrCompressor`].
pub ghost struct CompressorModel {
    pub id: Seq<char>,
    pub config: Seq<(Seq<char>, Json)>,
}

/// The compressor of a v2 array: its name and the other members of its
/// description.
#[derive(Debug, PartialEq, Eq)]
pub struct ZarrCompressor {
    pub id: String,
    pub config: Vec<(String, JsonValue)>,
}

impl View for ZarrCompressor {
    type V = CompressorModel;

    open spec fn view(&self) -> CompressorModel {
        CompressorModel { id: self.id@, config: members_model(self.config@) }
    }
}

impl Clone for ZarrCompressor {
    fn clone(&self) -> (copy: ZarrCompressor)
        ensures
            copy@ == self@,
    {
        let mut config: Vec<(String, JsonValue)> = Vec::new();
        let mut i: usize = 0;
        while i < self.config.len()
            invariant
                i <= self.config@.len(),
                config@.len() == i,
                forall|j: int|
                    0 <= j < i ==> (#[trigger] config@[j]).0@ == self.config@[j].0@ && config@[j].1@
                        == self.config@[j].1@,
            decreases self.config@.len() - i,
        {
            config.push((self.config[i].0.clone(), self.config[i].1.clone()));
            i += 1;
        }
        proof {
            assert(members_model(config@) =~= members_model(self.config@));
        }
        ZarrCompressor { id: self.id.clone(), config }
    }
}

/// Model of an optional compressor.
pub open spec fn opt_compressor(compressor: Option<ZarrCompressor>) -> Option<CompressorModel> {
    match compressor {
        Some(c) => Some(c@),
        None => None,
    }
}

/// Mathematical model of a [`ZarrV2Metadata`].
pub ghost struct MetadataModel {
    pub shape: Seq<usize>,
    pub chunks: Seq<usize>,
    pub dtype: DTypeModel,
    pub fill_value: Fill,
    pub order: ArrayOrder,
    pub compressor: Option<CompressorModel>,
    pub filters: Option<Json>,
    pub zarr_format: u32,
    pub keys: Seq<Seq<char>>,
}

impl MetadataModel {
    /// The invariant of array metadata: shape and chunk shape have the same
    /// dimensionality, no chunk extent is zero, and the keys are those of
    /// the chunk grid.
    pub open spec fn wf(self) -> bool {
        &&& self.shape.len() == self.chunks.len()
        &&& all_positive(self.chunks)
        &&& self.keys == keys_of(self.shape, self.chunks)
    }
}

/// The metadata of a v2 array.
#[derive(Debug, PartialEq, Eq)]
pub struct ZarrV2Metadata {
    pub shape: Vec<usize>,
    pub chunks: Vec<usize>,
    pub dtype: V2DataType,
    pub fill_value: FillValue,
    pub order: ArrayOrder,
    pub compressor: Option<ZarrCompressor>,
    pub filters: Option<JsonValue>,
    pub zarr_format: u32,
    /// Computed storage keys, one per chunk of the grid.
    pub keys: Vec<String>,
}

impl View for ZarrV2Metadata {
    type V = MetadataModel;

    open spec fn view(&self) -> MetadataModel {
        MetadataModel {
            shape: self.shape@,
            chunks: self.chunks@,
            dtype: self.dtype@,
            fill_value: self.fill_value@,
            order: self.order,
            compressor: opt_compressor(self.compressor),
            filters: opt_json(self.filters),
            zarr_format: self.zarr_format,
            keys: texts_of(self.keys@),
        }
    }
}

/// A copy of a list of strings.
pub fn clone_texts(items: &Vec<String>) -> (copy: Vec<String>)
    ensures
        texts_of(copy@) == texts_of(items@),
{
    let mut copy: Vec<String> = Vec::new();
    let mut i: usize = 0;
    while i < items.len()
        invariant
            i <= items@.len(),
            copy@.len() == i,
            forall|j: int| 0 <= j < i ==> (#[trigger] copy@[j])@ == items@[j]@,
        decreases items@.len() - i,
    {
        copy.push(items[i].clone());
        i += 1;
    }
    proof {
        assert(texts_of(copy@) =~= texts_of(items@));
    }
    copy
}

/// A copy of a list of extents.
pub fn clone_extents(items: &Vec<usize>) -> (copy: Vec<usize>)
    ensures
        copy@ == items@,
{
    let mut copy: Vec<usize> = Vec::new();
    let mut i: usize = 0;
    while i < items.len()
        invariant
            i <= items@.len(),
            copy@ == items@.take(i as int),
        decreases items@.len() - i,
    {
        copy.push(items[i]);
        proof {
            assert(items@.take(i + 1) =~= items@.take(i as int).push(items@[i as int]));
        }
        i += 1;
    }
    proof {
        assert(items@.take(items@.len() as int) =~= items@);
    }
    copy
}

impl Clone for ZarrV2Metadata {
    fn clone(&self) -> (copy: ZarrV2Metadata)
        ensures
            copy@ == self@,
    {
        ZarrV2Metadata {
            shape: clone_extents(&self.shape),
            chunks: clone_extents(&self.chunks),
            dtype: self.dtype.clone(),
            fill_value: self.fill_value.clone(),
            order: self.order,
            compressor: match &self.compressor {
                Some(c) => Some(c.clone()),
                None => None,
            },
            filters: match &self.filters {
                Some(f) => Some(f.clone()),
                None => None,
            },
            zarr_format: self.zarr_format,
            keys: clone_texts(&self.keys),
        }
    }
}

/// Memory order of an array whose metadata names none.
pub fn default_order() -> (order: ArrayOrder)
    ensures
        order == ArrayOrder::C,
{
    ArrayOrder::C
}

/// Format version of an array whose metadata names none.
pub fn default_zarr_format() -> (version: u32)
    ensures
        version == 2,
{
    2
}

/// The list of extents that a JSON value spells: an array of unsigned
/// integers that fit in `usize`.
pub open spec fn extent_list(value: Json) -> Option<Seq<usize>> {
    match value {
        Json::Array(items) => if forall|i: int|
            0 <= i < items.len() ==> (#[trigger] items[i]).as_u64() is Some
                && items[i].as_u64().unwrap() <= usize::MAX {
            Some(Seq::new(items.len(), |i: int| items[i].as_u64().unwrap() as usize))
        } else {
            None
        },
        _ => None,
    }
}

/// The extents under the member `key`, which must be there.
pub open spec fn extents_member(doc: Json, key: Seq<char>) -> Option<Seq<usize>> {
    match doc.get(key) {
        Some(value) => extent_list(value),
        None => None,
    }
}

/// The data type under the member `dtype`, which must be a NumPy format
/// string.
pub open spec fn dtype_member(doc: Json) -> Option<DTypeModel> {
    match doc.get("dtype"@) {
        Some(Json::String(text)) => numpy_dtype(text),
        _ => None,
    }
}

/// The memory order under the member `order`: `C` where there is none,
/// else one of the strings `C`, `c`, `F` and `f`.
pub open spec fn order_member(doc: Json) -> Option<ArrayOrder> {
    match doc.get("order"@) {
        None => Some(ArrayOrder::C),
        Some(Json::String(text)) => if text == "C"@ || text == "c"@ {
            Some(ArrayOrder::C)
        } else if text == "F"@ || text == "f"@ {
            Some(ArrayOrder::F)
        } else {
            None
        },
        Some(_) => None,
    }
}

/// The compressor under the member `compressor`: none where the member is
/// missing or `null`, else an object with a string `id`, whose other
/// members are the configuration. The outer `None` marks a malformed
/// description.
pub open spec fn compressor_member(doc: Json) -> Option<Option<CompressorModel>> {
    match doc.get("compressor"@) {
        None => Some(None),
        Some(Json::Null) => Some(None),
        Some(Json::Object(members)) => match lookup(members, "id"@) {
            Some(Json::String(id)) => Some(
                Some(CompressorModel { id, config: without_member(members, "id"@) }),
            ),
            _ => None,
        },
        Some(_) => None,
    }
}

/// The filters under the member `filters`, unless it is missing or `null`.
pub open spec fn filters_member(doc: Json) -> Option<Json> {
    match doc.get("filters"@) {
        None => None,
        Some(Json::Null) => None,
        Some(value) => Some(value),
    }
}

/// The format version under the member `zarr_format`: 2 where there is
/// none, else an unsigned integer of 32 bits.
pub open spec fn format_member(doc: Json) -> Option<u32> {
    match doc.get("zarr_format"@) {
        None => Some(2u32),
        Some(value) => match value.as_u64() {
            Some(version) if version <= u32::MAX => Some(version as u32),
            _ => None,
        },
    }
}

/// The array metadata that a JSON document describes, or `None` where it
/// describes none.
///
/// The document is an object. `dtype`, `shape`, `chunks` and `fill_value`
/// must be there; the fill value is read by the rules of the element type.
/// Shape and chunk shape have the same dimensionality and no chunk extent
/// is zero. The keys are those of the chunk grid.
pub open spec fn array_metadata(doc: Json) -> Option<MetadataModel> {
    if !(doc is Object) || dtype_member(doc) is None || doc.get("fill_value"@) is None {
        None
    } else {
        let dtype = dtype_member(doc).unwrap();
        match (
            fill_of_json(dtype.data_type, doc.get("fill_value"@).unwrap()),
            extents_member(doc, "shape"@),
            extents_member(doc, "chunks"@),
            order_member(doc),
            compressor_member(doc),
            format_member(doc),
        ) {
            (
                Some(fill_value),
                Some(shape),
                Some(chunks),
                Some(order),
                Some(compressor),
                Some(zarr_format),
            ) => if shape.len() == chunks.len() && all_positive(chunks) {
                Some(
                    MetadataModel {
                        shape,
                        chunks,
                        dtype,
                        fill_value,
                        order,
                        compressor,
                        filters: filters_member(doc),
                        zarr_format,
                        keys: keys_of(shape, chunks),
                    },
                )
            } else {
                None
            },
            _ => None,
        }
    }
}

/// Whether a parse result agrees with what the document describes: the
/// metadata where it describes one, a metadata error where it does not.
pub open spec fn metadata_result_matches(
    result: ZarrResult<ZarrV2Metadata>,
    expected: Option<MetadataModel>,
) -> bool {
    match expected {
        Some(model) => result matches Ok(md) && md@ == model,
        None => result matches Err(ZarrError::Metadata(_)),
    }
}

/// A metadata error with the given message.
fn invalid<T>(message: &str) -> (result: ZarrResult<T>)
    ensures
        result matches Err(ZarrError::Metadata(_)),
{
    Err(ZarrError::Metadata(String::from_str(message)))
}

/// Reads a JSON array of extents.
pub fn parse_extents(value: &JsonValue) -> (extents: Option<Vec<usize>>)
    ensures
        match extent_list(value@) {
            Some(model) => extents matches Some(found) && found@ == model,
            None => extents is None,
        },
{
    match value {
        JsonValue::Array(items) => {
            let ghost model = value@->Array_0;
            let mut out: Vec<usize> = Vec::new();
            let mut i: usize = 0;
            while i < items.len()
                invariant
                    i <= items@.len(),
                    value@ == Json::Array(model),
                    model.len() == items@.len(),
                    forall|j: int| 0 <= j < items@.len() ==> #[trigger] model[j] == items@[j]@,
                    out@.len() == i,
                    forall|j: int|
                        0 <= j < i ==> (#[trigger] model[j]).as_u64() is Some
                            && model[j].as_u64().unwrap() <= usize::MAX && out@[j]
                            == model[j].as_u64().unwrap() as usize,
                decreases items@.len() - i,
            {
                proof {
                    assert(model[i as int] == items@[i as int]@);
                }
                match items[i].as_u64() {
                    Some(extent) => {
                        if extent > usize::MAX as u64 {
                            return None;
                        }
                        out.push(extent as usize);
                    },
                    None => {
                        return None;
                    },
                }
                i += 1;
            }
            proof {
                assert(out@ =~= extent_list(value@).unwrap());
            }
            Some(out)
        },
        _ => None,
    }
}

/// Reads the member `key` as a list of extents.
fn parse_extents_member(doc: &JsonValue, key: &str) -> (extents: Option<Vec<usize>>)
    ensures
        match extents_member(doc@, key@) {
            Some(model) => extents matches Some(found) && found@ == model,
            None => extents is None,
        },
{
    match doc.get(key) {
        Some(value) => parse_extents(value),
        None => None,
    }
}

/// Reads the member `order`.
fn parse_order_member(doc: &JsonValue) -> (order: Option<ArrayOrder>)
    ensures
        order == order_member(doc@),
{
    match doc.get("order") {
        None => Some(default_order()),
        Some(value) => match value {
            JsonValue::String(text) => {
                if same_text(text.as_str(), "C") || same_text(text.as_str(), "c") {
                    Some(ArrayOrder::C)
                } else if same_text(text.as_str(), "F") || same_text(text.as_str(), "f") {
                    Some(ArrayOrder::F)
                } else {
                    None
                }
            },
            _ => None,
        },
    }
}

/// Reads the member `compressor`.
fn parse_compressor_member(doc: &JsonValue) -> (compressor: Option<Option<ZarrCompressor>>)
    ensures
        match compressor_member(doc@) {
            Some(model) => compressor matches Some(found) && opt_compressor(found) == model,
            None => compressor is None,
        },
{
    match doc.get("compressor") {
        None => Some(None),
        Some(value) => match value {
            JsonValue::Null => Some(None),
            JsonValue::Object(members) => {
                proof {
                    lemma_object_model(*members);
                }
                match value.get("id") {
                    Some(id_value) => match id_value {
                        JsonValue::String(id) => Some(
                            Some(
                                ZarrCompressor {
                                    id: id.clone(),
                                    config: members_without(members, "id"),
                                },
                            ),
                        ),
                        _ => None,
                    },
                    None => None,
                }
            },
            _ => None,
        },
    }
}

/// Reads the member `filters`.
fn parse_filters_member(doc: &JsonValue) -> (filters: Option<JsonValue>)
    ensures
        opt_json(filters) == filters_member(doc@),
{
    match doc.get("filters") {
        None => None,
        Some(value) => match value {
            JsonValue::Null => None,
            _ => Some(value.clone()),
        },
    }
}

/// Reads the member `zarr_format`.
fn parse_format_member(doc: &JsonValue) -> (version: Option<u32>)
    ensures
        version == format_member(doc@),
{
    match doc.get("zarr_format") {
        None => Some(default_zarr_format()),
        Some(value) => match value.as_u64() {
            Some(version) => {
                if version <= 0xffff_ffff {
                    Some(version as u32)
                } else {
                    None
                }
            },
            None => None,
        },
    }
}

/// Reads the member `dtype`.
fn parse_dtype_member(doc: &JsonValue) -> (dtype: Option<V2DataType>)
    ensures
        match dtype_member(doc@) {
            Some(model) => dtype matches Some(found) && found@ == model,
            None => dtype is None,
        },
{
    match doc.get("dtype") {
        Some(value) => match value {
            JsonValue::String(text) => match parse_numpy_dtype(text.as_str()) {
                Ok(dtype) => Some(dtype),
                Err(_) => None,
            },
            _ => None,
        },
        None => None,
    }
}

impl ZarrV2Metadata {
    /// The invariant of array metadata.
    pub open spec fn wf(&self) -> bool {
        self@.wf()
    }

    /// Parse the metadata of an array from its JSON document, fully
    /// resolving the fill value and computing the keys.
    pub fn parse(document: &JsonValue) -> (result: ZarrResult<ZarrV2Metadata>)
        ensures
            metadata_result_matches(result, array_metadata(document@)),
            result matches Ok(md) ==> md.wf(),
    {
        match document {
            JsonValue::Object(_) => {},
            _ => {
                return invalid("Expected JSON object");
            },
        }
        let dtype = match parse_dtype_member(document) {
            Some(dtype) => dtype,
            None => {
                return invalid("Missing or invalid 'dtype' field");
            },
        };
        let fill_value = match document.get("fill_value") {
            Some(value) => match parse_fill_value(dtype.data_type, value) {
                Ok(fill_value) => fill_value,
                Err(_) => {
                    return invalid("fill_value does not suit the data type");
                },
            },
            None => {
                return invalid("Missing 'fill_value' field");
            },
        };
        let shape = match parse_extents_member(document, "shape") {
            Some(shape) => shape,
            None => {
                return invalid("Missing or invalid 'shape' field");
            },
        };
        let chunks = match parse_extents_member(document, "chunks") {
            Some(chunks) => chunks,
            None => {
                return invalid("Missing or invalid 'chunks' field");
            },
        };
        let order = match parse_order_member(document) {
            Some(order) => order,
            None => {
                return invalid("Unknown order");
            },
        };
        let compressor = match parse_compressor_member(document) {
            Some(compressor) => compressor,
            None => {
                return invalid("Invalid 'compressor' field");
            },
        };
        let zarr_format = match parse_format_member(document) {
            Some(version) => version,
            None => {
                return invalid("Invalid 'zarr_format' field");
            },
        };
        if shape.len() != chunks.len() || has_zero_extent(chunks.as_slice()) {
            return invalid("'shape' and 'chunks' do not describe a chunk grid");
        }
        let filters = parse_filters_member(document);
        let keys = list_keys(shape.as_slice(), chunks.as_slice());
        Ok(
            ZarrV2Metadata {
                shape,
                chunks,
                dtype,
                fill_value,
                order,
                compressor,
                filters,
                zarr_format,
                keys,
            },
        )
    }
}

/// Model of a [`ZarrConsolidatedMetadata`].
pub ghost struct ConsolidatedModel {
    pub zarr_consolidated_format: u32,
    pub metadata: Seq<(Seq<char>, MetadataModel)>,
}

/// The metadata of the arrays of a group, from one consolidated document.
#[derive(Debug, PartialEq, Eq)]
pub struct ZarrConsolidatedMetadata {
    pub zarr_consolidated_format: u32,
    /// The arrays by name, in the order in which their names first occur
    /// in the document; no name occurs twice.
    pub metadata: Vec<(String, ZarrV2Metadata)>,
}

/// Model of a list of named arrays.
pub open spec fn arrays_model(entries: Seq<(String, ZarrV2Metadata)>) -> Seq<
    (Seq<char>, MetadataModel),
> {
    Seq::new(entries.len(), |i: int| (entries[i].0@, entries[i].1@))
}

/// The names of a list of named arrays.
pub open spec fn names_of(entries: Seq<(Seq<char>, MetadataModel)>) -> Seq<Seq<char>> {
    Seq::new(entries.len(), |i: int| entries[i].0)
}

impl View for ZarrConsolidatedMetadata {
    type V = ConsolidatedModel;

    open spec fn view(&self) -> ConsolidatedModel {
        ConsolidatedModel {
            zarr_consolidated_format: self.zarr_consolidated_format,
            metadata: arrays_model(self.metadata@),
        }
    }
}

/// Whether a member of the consolidated document is passed over by its
/// name: the group's own documents, attributes and group markers.
pub open spec fn is_passed_over(key: Seq<char>) -> bool {
    starts_with(key, ".z"@) || ends_with(key, ".zattrs"@) || ends_with(key, ".zgroup"@)
}

/// The name of the array that a member of the consolidated document
/// describes: the member's name without `/.zarray`, without `.zarray`, and
/// without slashes at its start.
pub open spec fn array_name(key: Seq<char>) -> Seq<char> {
    trim_leading(without(without(key, "/.zarray"@), ".zarray"@), '/')
}

/// The list with `name` bound to `md`: in the place where the name stands
/// already, else at the end.
pub open spec fn upsert(
    entries: Seq<(Seq<char>, MetadataModel)>,
    name: Seq<char>,
    md: MetadataModel,
) -> Seq<(Seq<char>, MetadataModel)> {
    let at = first_index_of(names_of(entries), name);
    if 0 <= at < entries.len() {
        entries.update(at, (name, md))
    } else {
        entries.push((name, md))
    }
}

/// The arrays that the members of a consolidated document describe, read
/// in document order. A member that is passed over by its name, or that
/// describes no array, adds nothing; a name that comes again replaces what
/// it stood for.
pub open spec fn collect_arrays(members: Seq<(Seq<char>, Json)>) -> Seq<
    (Seq<char>, MetadataModel),
>
    decreases members.len(),
{
    if members.len() == 0 {
        Seq::empty()
    } else {
        let before = collect_arrays(members.drop_last());
        let (key, value) = members.last();
        if is_passed_over(key) {
            before
        } else {
            match array_metadata(value) {
                Some(md) => upsert(before, array_name(key), md),
                None => before,
            }
        }
    }
}

/// The format version that a consolidated document names: the low 32 bits
/// of the unsigned integer under `zarr_consolidated_format`, or 1 where
/// there is none.
pub open spec fn consolidated_format(doc: Json) -> u32 {
    match doc.get("zarr_consolidated_format"@) {
        Some(value) => match value.as_u64() {
            Some(version) => version as u32,
            None => 1u32,
        },
        None => 1u32,
    }
}

/// What a consolidated document describes: its format version and the
/// arrays under its object member `metadata`. `None` where the document is
/// no object or lacks that member.
pub open spec fn consolidated_metadata(doc: Json) -> Option<ConsolidatedModel> {
    match doc.get("metadata"@) {
        Some(Json::Object(members)) => Some(
            ConsolidatedModel {
                zarr_consolidated_format: consolidated_format(doc),
                metadata: collect_arrays(members),
            },
        ),
        _ => None,
    }
}

/// Whether no name occurs twice and every array is well-formed.
pub open spec fn arrays_wf(entries: Seq<(Seq<char>, MetadataModel)>) -> bool {
    &&& forall|i: int, j: int|
        0 <= i < j < entries.len() ==> (#[trigger] entries[i]).0 != (#[trigger] entries[j]).0
    &&& forall|i: int| 0 <= i < entries.len() ==> (#[trigger] entries[i]).1.wf()
}

/// Binding a name in a well-formed list keeps the list well-formed.
pub proof fn lemma_upsert_wf(
    entries: Seq<(Seq<char>, MetadataModel)>,
    name: Seq<char>,
    md: MetadataModel,
)
    requires
        arrays_wf(entries),
        md.wf(),
    ensures
        arrays_wf(upsert(entries, name, md)),
{
    let names = names_of(entries);
    lemma_first_index_of(names, name);
    let at = first_index_of(names, name);
    let after = upsert(entries, name, md);
    if at < entries.len() {
        assert(names[at] == name);
        assert forall|i: int, j: int| 0 <= i < j < after.len() implies (#[trigger] after[i]).0 != (
        #[trigger] after[j]).0 by {
            assert(entries[i].0 != entries[j].0);
            assert(after[i].0 == entries[i].0);
            assert(after[j].0 == entries[j].0);
        }
    } else {
        assert forall|i: int, j: int| 0 <= i < j < after.len() implies (#[trigger] after[i]).0 != (
        #[trigger] after[j]).0 by {
            if j < entries.len() {
                assert(entries[i].0 != entries[j].0);
            } else {
                assert(names[i] != name);
            }
        }
    }
}

/// Binds `name` to `md` in the list.
fn upsert_array(entries: &mut Vec<(String, ZarrV2Metadata)>, name: String, md: ZarrV2Metadata)
    ensures
        arrays_model(final(entries)@) == upsert(arrays_model(old(entries)@), name@, md@),
{
    let ghost before = arrays_model(entries@);
    let ghost names = names_of(before);
    let mut i: usize = 0;
    while i < entries.len()
        invariant
            i <= entries@.len(),
            before == arrays_model(entries@),
            before == arrays_model(old(entries)@),
            names == names_of(before),
            forall|j: int| 0 <= j < i ==> names[j] != name@,
        decreases entries@.len() - i,
    {
        proof {
            assert(names[i as int] == entries@[i as int].0@);
        }
        if same_text(entries[i].0.as_str(), name.as_str()) {
            proof {
                lemma_first_index_is(names, name@, i as int);
            }
            entries.set(i, (name, md));
            proof {
                assert(arrays_model(entries@) =~= before.update(i as int, (name@, md@)));
            }
            return ;
        }
        i += 1;
    }
    proof {
        lemma_first_index_is(names, name@, i as int);
    }
    entries.push((name, md));
    proof {
        assert(arrays_model(entries@) =~= before.push((name@, md@)));
    }
}

/// The name of the array that a member of the consolidated document
/// describes.
pub fn array_name_of(key: &str) -> (name: String)
    ensures
        name@ == array_name(key@),
{
    proof {
        reveal_strlit("/.zarray");
        reveal_strlit(".zarray");
    }
    let first = remove_all(key, "/.zarray");
    let second = remove_all(first.as_str(), ".zarray");
    trim_start(second.as_str(), '/')
}

impl ZarrConsolidatedMetadata {
    /// The invariant of consolidated metadata: no array name occurs twice
    /// and the metadata of every array is well-formed.
    pub open spec fn wf(&self) -> bool {
        arrays_wf(self@.metadata)
    }

    /// Parse the consolidated metadata of a group from its JSON document.
    pub fn parse(document: &JsonValue) -> (result: ZarrResult<ZarrConsolidatedMetadata>)
        ensures
            match consolidated_metadata(document@) {
                Some(model) => result matches Ok(found) && found@ == model,
                None => result matches Err(ZarrError::Metadata(_)),
            },
            result matches Ok(found) ==> found.wf(),
    {
        let format: u32 = match document.get("zarr_consolidated_format") {
            Some(value) => match value.as_u64() {
                Some(version) => {
                    #[verifier::truncate]
                    (version as u32)
                },
                None => 1,
            },
            None => 1,
        };
        let container = match document.get("metadata") {
            Some(container) => container,
            None => {
                return invalid("Missing 'metadata' field");
            },
        };
        let members = match container {
            JsonValue::Object(members) => members,
            _ => {
                return invalid("Missing 'metadata' field");
            },
        };
        proof {
            lemma_object_model(*members);
        }
        let ghost model = members_model(members@);
        let mut arrays: Vec<(String, ZarrV2Metadata)> = Vec::new();
        let mut i: usize = 0;
        proof {
            assert(model.take(0).len() == 0);
            assert(arrays_model(arrays@) =~= Seq::empty());
        }
        while i < members.len()
            invariant
                i <= members@.len(),
                model == members_model(members@),
                arrays_model(arrays@) == collect_arrays(model.take(i as int)),
                arrays_wf(arrays_model(arrays@)),
            decreases members@.len() - i,
        {
            proof {
                assert(model.take(i + 1).drop_last() =~= model.take(i as int));
                assert(model.take(i + 1).last() == model[i as int]);
                reveal_strlit(".z");
                reveal_strlit(".zattrs");
                reveal_strlit(".zgroup");
            }
            let key = members[i].0.as_str();
            if !(has_prefix(key, ".z") || has_suffix(key, ".zattrs") || has_suffix(key, ".zgroup")) {
                match ZarrV2Metadata::parse(&members[i].1) {
                    Ok(md) => {
                        let name = array_name_of(key);
                        proof {
                            lemma_upsert_wf(arrays_model(arrays@), name@, md@);
                        }
                        upsert_array(&mut arrays, name, md);
                    },
                    Err(_) => {},
                }
            }
            i += 1;
        }
        proof {
            assert(model.take(members@.len() as int) =~= model);
        }
        Ok(ZarrConsolidatedMetadata { zarr_consolidated_format: format, metadata: arrays })
    }
}

} // verus!
