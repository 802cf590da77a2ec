//! Arrays: index arithmetic (strides, flattening of multi-indices,
//! enumeration of a shape), chunk keys, the reading of a chunk from its
//! blob, and the merging of chunks into the whole array.

use crate::codecs::{
    apply_codec_pipeline, pipeline_matches, pipeline_model, resume_codec_pipeline, AnyCodec,
    PipelineModel, PipelineState,
};
use crate::error::{ErrorKind, ZarrError, ZarrResult};
use crate::json::{opt_json, JsonValue};
use crate::merge::{
    covers, key_lists, last_source, lemma_last_source_bound, local_of, merge_plan, plan_error,
    plan_of,
};
use crate::metadata::v2::{
    clone_extents, clone_texts, keys_of, opt_compressor, texts_of, MetadataModel, ZarrCompressor,
    ZarrV2Metadata,
};
use crate::shape::{
    all_positive, cartesian, in_bounds, lemma_product_positive, lemma_product_push,
    lemma_product_split, lemma_unravel_in_bounds, lemma_unravel_step, shape_product, unravel,
};
use crate::text::{
    chars_of, decimal, decimal_string, find_char, first_index_of, has_char, is_digit,
    lemma_decimal_digits, lemma_digits_lack, lemma_first_index_is, lemma_parse_decimal,
    numeric_parts, parse_parts,
};
use crate::shape::checked_product;
use crate::types::{
    bytes_to_zarr_vector, decoded, fill_chunk, opt_view, ArrayOrder, DataType, Endian, Fill,
    FillValue, Scalar, VectorModel, ZarrValue, ZarrVectorValue,
};
use vstd::prelude::*;
use vstd::slice::slice_subrange;
use vstd::string::StringExecFns;

verus! {

/// The distance in the flat array between neighbours along dimension `d`:
/// the element count of the dimensions after `d` in `C` order, of those in
/// front of `d` in `F` order.
pub open spec fn stride(shape: Seq<usize>, order: ArrayOrder, d: int) -> nat {
    match order {
        ArrayOrder::C => shape_product(shape.skip(d + 1)),
        ArrayOrder::F => shape_product(shape.take(d)),
    }
}

/// The strides of all dimensions.
pub open spec fn strides_of(shape: Seq<usize>, order: ArrayOrder) -> Seq<nat> {
    Seq::new(shape.len(), |d: int| stride(shape, order, d))
}

/// Whether every stride fits in `usize`.
pub open spec fn strides_fit(shape: Seq<usize>, order: ArrayOrder) -> bool {
    forall|d: int| 0 <= d < shape.len() ==> stride(shape, order, d) <= usize::MAX
}

/// Sum of the products of paired entries, over as many pairs as both
/// sequences have.
pub open spec fn dot(indices: Seq<usize>, weights: Seq<nat>) -> nat
    decreases indices.len(),
{
    if indices.len() == 0 || weights.len() == 0 {
        0
    } else {
        indices[0] as nat * weights[0] + dot(indices.drop_first(), weights.drop_first())
    }
}

/// The flat position of a multi-index: the sum of its entries times the
/// strides.
pub open spec fn linear_offset(shape: Seq<usize>, order: ArrayOrder, indices: Seq<usize>) -> nat {
    dot(indices, strides_of(shape, order))
}

/// In a shape without zero extents no stride exceeds the element count.
pub proof fn lemma_stride_bound(shape: Seq<usize>, order: ArrayOrder, d: int)
    requires
        all_positive(shape),
        0 <= d < shape.len(),
    ensures
        stride(shape, order, d) <= shape_product(shape),
{
    let k = match order {
        ArrayOrder::C => d + 1,
        ArrayOrder::F => d,
    };
    lemma_product_split(shape, k);
    let head = shape.take(k);
    let tail = shape.skip(k);
    assert(all_positive(head));
    assert(all_positive(tail));
    lemma_product_positive(head);
    lemma_product_positive(tail);
    let a = shape_product(head);
    let b = shape_product(tail);
    assert(a <= a * b && b <= a * b) by (nonlinear_arith)
        requires
            a >= 1,
            b >= 1,
    ;
}

/// The tail of a sum of products is no larger than the whole.
pub proof fn lemma_dot_suffix(indices: Seq<usize>, weights: Seq<nat>, d: int)
    requires
        0 <= d <= indices.len(),
        0 <= d <= weights.len(),
    ensures
        dot(indices.skip(d), weights.skip(d)) <= dot(indices, weights),
    decreases d,
{
    if d == 0 {
        assert(indices.skip(0) =~= indices);
        assert(weights.skip(0) =~= weights);
    } else {
        lemma_dot_suffix(indices.drop_first(), weights.drop_first(), d - 1);
        assert(indices.drop_first().skip(d - 1) =~= indices.skip(d));
        assert(weights.drop_first().skip(d - 1) =~= weights.skip(d));
    }
}

/// The strides of an N-dimensional array, or `None` where one of them does
/// not fit in `usize`.
pub fn try_strides(shape: &[usize], order: ArrayOrder) -> (result: Option<Vec<usize>>)
    ensures
        match result {
            Some(found) => strides_fit(shape@, order) && found@.len() == shape@.len() && forall|
                d: int,
            |
                0 <= d < shape@.len() ==> found@[d] == stride(shape@, order, d),
            None => !strides_fit(shape@, order),
        },
{
    let n = shape.len();
    let mut result: Vec<usize> = Vec::new();
    match order {
        ArrayOrder::F => {
            let mut acc: usize = 1;
            let mut d: usize = 0;
            proof {
                assert(shape@.take(0).len() == 0);
            }
            while d < n
                invariant
                    d <= n,
                    n == shape@.len(),
                    order == ArrayOrder::F,
                    result@.len() == d,
                    forall|e: int| 0 <= e < d ==> result@[e] == stride(shape@, ArrayOrder::F, e),
                    d < n ==> acc == shape_product(shape@.take(d as int)),
                decreases n - d,
            {
                result.push(acc);
                if d + 1 < n {
                    proof {
                        lemma_product_push(shape@.take(d as int), shape@[d as int]);
                        assert(shape@.take(d as int).push(shape@[d as int]) =~= shape@.take(d + 1));
                    }
                    match acc.checked_mul(shape[d]) {
                        Some(next) => {
                            acc = next;
                        },
                        None => {
                            proof {
                                assert(stride(shape@, ArrayOrder::F, d + 1) > usize::MAX);
                            }
                            return None;
                        },
                    }
                }
                d += 1;
            }
            proof {
                assert forall|e: int| 0 <= e < shape@.len() implies stride(shape@, order, e)
                    <= usize::MAX by {
                    assert(result@[e] == stride(shape@, ArrayOrder::F, e));
                }
            }
        },
        ArrayOrder::C => {
            let mut d: usize = 0;
            while d < n
                invariant
                    d <= n,
                    result@.len() == d,
                decreases n - d,
            {
                result.push(1);
                d += 1;
            }
            let mut acc: usize = 1;
            proof {
                assert(shape@.skip(n as int).len() == 0);
            }
            while d > 0
                invariant
                    d <= n,
                    n == shape@.len(),
                    order == ArrayOrder::C,
                    result@.len() == n,
                    forall|e: int| d <= e < n ==> result@[e] == stride(shape@, ArrayOrder::C, e),
                    d > 0 ==> acc == shape_product(shape@.skip(d as int)),
                decreases d,
            {
                d -= 1;
                result.set(d, acc);
                if d > 0 {
                    proof {
                        let longer = shape@.skip(d as int);
                        assert(longer.drop_first() =~= shape@.skip(d + 1));
                        assert(longer[0] == shape@[d as int]);
                        assert(shape@.skip(d - 1 + 1) =~= longer);
                        assert(shape@[d as int] as nat * acc as nat == acc as nat
                            * shape@[d as int] as nat) by (nonlinear_arith);
                    }
                    match acc.checked_mul(shape[d]) {
                        Some(next) => {
                            acc = next;
                        },
                        None => {
                            proof {
                                assert(stride(shape@, ArrayOrder::C, d - 1) > usize::MAX);
                            }
                            return None;
                        },
                    }
                }
            }
            proof {
                assert forall|e: int| 0 <= e < shape@.len() implies stride(shape@, order, e)
                    <= usize::MAX by {
                    assert(result@[e] == stride(shape@, ArrayOrder::C, e));
                }
            }
        },
    }
    Some(result)
}

/// Calculate strides for an N-dimensional array.
///
/// Every stride has to fit in `usize`; [`try_strides`] tells whether they
/// do.
pub fn strides(shape: &[usize], order: ArrayOrder) -> (result: Vec<usize>)
    requires
        strides_fit(shape@, order),
    ensures
        result@.len() == shape@.len(),
        forall|d: int| 0 <= d < shape@.len() ==> result@[d] == stride(shape@, order, d),
{
    match try_strides(shape, order) {
        Some(found) => found,
        None => Vec::new(),
    }
}

/// The flat linear index of multi-dimensional indices, or `None` where a
/// stride or the index does not fit in `usize`.
pub fn try_linear_index(shape: &[usize], order: ArrayOrder, indices: &[usize]) -> (index: Option<
    usize,
>)
    ensures
        index == if strides_fit(shape@, order) && linear_offset(shape@, order, indices@)
            <= usize::MAX {
            Some(linear_offset(shape@, order, indices@) as usize)
        } else {
            None::<usize>
        },
{
    let weights = match try_strides(shape, order) {
        Some(weights) => weights,
        None => {
            return None;
        },
    };
    let ghost model = strides_of(shape@, order);
    let n = if indices.len() < weights.len() {
        indices.len()
    } else {
        weights.len()
    };
    let mut d: usize = n;
    let mut acc: usize = 0;
    proof {
        assert(indices@.skip(n as int).len() == 0 || model.skip(n as int).len() == 0);
    }
    while d > 0
        invariant
            d <= n,
            n <= indices@.len(),
            n <= weights@.len(),
            model == strides_of(shape@, order),
            model.len() == weights@.len(),
            forall|e: int| 0 <= e < weights@.len() ==> weights@[e] == model[e],
            acc == dot(indices@.skip(d as int), model.skip(d as int)),
        decreases d,
    {
        d -= 1;
        proof {
            let a = indices@.skip(d as int);
            let b = model.skip(d as int);
            assert(a.drop_first() =~= indices@.skip(d + 1));
            assert(b.drop_first() =~= model.skip(d + 1));
            assert(a[0] == indices@[d as int]);
            assert(b[0] == model[d as int]);
            lemma_dot_suffix(indices@, model, d as int);
            assert(dot(a, b) == indices@[d as int] as nat * model[d as int] + acc);
        }
        let term = match indices[d].checked_mul(weights[d]) {
            Some(term) => term,
            None => {
                return None;
            },
        };
        acc = match term.checked_add(acc) {
            Some(sum) => sum,
            None => {
                return None;
            },
        };
    }
    proof {
        assert(indices@.skip(0) =~= indices@);
        assert(model.skip(0) =~= model);
    }
    Some(acc)
}

/// Convert multi-dimensional indices to a flat linear index.
///
/// The strides and the index have to fit in `usize`;
/// [`try_linear_index`] tells whether they do. Where `indices` and `shape`
/// differ in length the dimensions that both have are summed.
pub fn linear_index(shape: &[usize], order: ArrayOrder, indices: &[usize]) -> (index: usize)
    requires
        strides_fit(shape@, order),
        linear_offset(shape@, order, indices@) <= usize::MAX,
    ensures
        index == linear_offset(shape@, order, indices@),
{
    match try_linear_index(shape, order, indices) {
        Some(index) => index,
        None => 0,
    }
}

/// The sum of the indices times the strides.
pub(crate) fn weighted_sum(indices: &[usize], weights: &[usize], Ghost(model): Ghost<Seq<nat>>) -> (sum: usize)
    requires
        model.len() == weights@.len(),
        forall|d: int| 0 <= d < weights@.len() ==> weights@[d] == model[d],
        dot(indices@, model) <= usize::MAX,
    ensures
        sum == dot(indices@, model),
{
    let n = if indices.len() < weights.len() {
        indices.len()
    } else {
        weights.len()
    };
    let mut d: usize = n;
    let mut acc: usize = 0;
    proof {
        assert(indices@.skip(n as int).len() == 0 || model.skip(n as int).len() == 0);
    }
    while d > 0
        invariant
            d <= n,
            n <= indices@.len(),
            n <= weights@.len(),
            model.len() == weights@.len(),
            forall|e: int| 0 <= e < weights@.len() ==> weights@[e] == model[e],
            dot(indices@, model) <= usize::MAX,
            acc == dot(indices@.skip(d as int), model.skip(d as int)),
        decreases d,
    {
        d -= 1;
        proof {
            let a = indices@.skip(d as int);
            let b = model.skip(d as int);
            assert(a.drop_first() =~= indices@.skip(d + 1));
            assert(b.drop_first() =~= model.skip(d + 1));
            assert(a[0] == indices@[d as int]);
            assert(b[0] == model[d as int]);
            lemma_dot_suffix(indices@, model, d as int);
            assert(dot(a, b) == indices@[d as int] as nat * model[d as int] + acc);
            assert(indices@[d as int] as nat * weights@[d as int] as nat <= dot(a, b));
        }
        acc = indices[d] * weights[d] + acc;
    }
    proof {
        assert(indices@.skip(0) =~= indices@);
        assert(model.skip(0) =~= model);
    }
    acc
}

/// Generate all multi-dimensional index tuples within the given shape.
pub fn cartesian_indices(shape: &[usize]) -> (result: Vec<Vec<usize>>)
    ensures
        result@.len() == shape_product(shape@),
        forall|k: int| 0 <= k < result@.len() ==> (#[trigger] result@[k])@ == unravel(shape@, k as nat),
    decreases shape@.len(),
{
    let n = shape.len();
    let mut result: Vec<Vec<usize>> = Vec::new();
    if n == 0 {
        result.push(Vec::new());
        return result;
    }
    let first = shape[0];
    let tail = slice_subrange(shape, 1, n);
    proof {
        assert(tail@ =~= shape@.drop_first());
    }
    let rest = cartesian_indices(tail);
    let ghost inner = shape_product(shape@.drop_first());
    let mut i: usize = 0;
    while i < first
        invariant
            i <= first,
            first == shape@[0],
            shape@.len() > 0,
            inner == shape_product(shape@.drop_first()),
            rest@.len() == inner,
            forall|r: int| 0 <= r < rest@.len() ==> (#[trigger] rest@[r])@ == unravel(shape@.drop_first(), r as nat),
            result@.len() == i * inner,
            forall|k: int| 0 <= k < result@.len() ==> (#[trigger] result@[k])@ == unravel(shape@, k as nat),
        decreases first - i,
    {
        let mut r: usize = 0;
        while r < rest.len()
            invariant
                r <= rest@.len(),
                i < first,
                first == shape@[0],
                shape@.len() > 0,
                inner == shape_product(shape@.drop_first()),
                rest@.len() == inner,
                forall|q: int| 0 <= q < rest@.len() ==> (#[trigger] rest@[q])@ == unravel(shape@.drop_first(), q as nat),
                result@.len() == i * inner + r,
                forall|k: int| 0 <= k < result@.len() ==> (#[trigger] result@[k])@ == unravel(shape@, k as nat),
            decreases rest@.len() - r,
        {
            let mut v: Vec<usize> = Vec::new();
            v.push(i);
            let tuple = &rest[r];
            let mut j: usize = 0;
            while j < tuple.len()
                invariant
                    j <= tuple@.len(),
                    v@ == seq![i] + tuple@.take(j as int),
                decreases tuple@.len() - j,
            {
                v.push(tuple[j]);
                proof {
                    assert(tuple@.take(j + 1) =~= tuple@.take(j as int).push(tuple@[j as int]));
                    assert(seq![i] + tuple@.take(j + 1) =~= (seq![i] + tuple@.take(j as int)).push(
                        tuple@[j as int],
                    ));
                }
                j += 1;
            }
            proof {
                assert(tuple@.take(tuple@.len() as int) =~= tuple@);
                lemma_unravel_step(shape@, i as nat, r as nat);
            }
            result.push(v);
            r += 1;
        }
        proof {
            assert((i + 1) * inner == i * inner + inner) by (nonlinear_arith);
        }
        i += 1;
    }
    proof {
        assert(first as nat * inner == shape_product(shape@));
    }
    result
}

/// Enumeration and flattening agree in `C` order: the `k`-th multi-index of
/// a shape has the flat position `k`.
pub proof fn lemma_linear_index_of_cartesian(shape: Seq<usize>, k: nat)
    requires
        k < shape_product(shape),
    ensures
        linear_offset(shape, ArrayOrder::C, cartesian(shape)[k as int]) == k,
        linear_offset(shape, ArrayOrder::C, unravel(shape, k)) == k,
    decreases shape.len(),
{
    if shape.len() > 0 {
        let rest = shape.drop_first();
        let inner = shape_product(rest);
        assert(inner > 0) by (nonlinear_arith)
            requires
                k < shape[0] as nat * inner,
        ;
        assert(k % inner < inner) by (nonlinear_arith)
            requires
                inner > 0,
        ;
        lemma_linear_index_of_cartesian(rest, k % inner);
        let index = unravel(shape, k);
        let weights = strides_of(shape, ArrayOrder::C);
        assert(index.drop_first() =~= unravel(rest, k % inner));
        assert(weights.drop_first() =~= strides_of(rest, ArrayOrder::C)) by {
            assert forall|d: int| 0 <= d < rest.len() implies weights.drop_first()[d]
                == strides_of(rest, ArrayOrder::C)[d] by {
                assert(shape.skip(d + 1 + 1) =~= rest.skip(d + 1));
            }
        }
        assert(shape.skip(1) =~= rest);
        assert(weights[0] == inner);
        vstd::arithmetic::div_mod::lemma_fundamental_div_mod(k as int, inner as int);
        assert(k / inner < shape[0]) by (nonlinear_arith)
            requires
                k < shape[0] as nat * inner,
                inner > 0,
        ;
        assert((k / inner) * inner == inner * (k / inner)) by (nonlinear_arith);
    }
}

/// The key of a chunk: the decimal numerals of its grid coordinates, with
/// a dot between neighbours.
pub open spec fn key_text(indices: Seq<usize>) -> Seq<char>
    decreases indices.len(),
{
    if indices.len() == 0 {
        Seq::empty()
    } else if indices.len() == 1 {
        decimal(indices[0] as nat)
    } else {
        decimal(indices[0] as nat) + seq!['.'] + key_text(indices.drop_first())
    }
}

/// The grid coordinates that a key spells. The parts of the key are
/// separated by dots where it holds one, by slashes otherwise; parts that
/// spell no unsigned integer are passed over.
pub open spec fn key_indices(key: Seq<char>) -> Seq<usize> {
    numeric_parts(
        key,
        if has_char(key, '.') {
            '.'
        } else {
            '/'
        },
    )
}

/// Appending a coordinate to a key appends a dot and its numeral.
pub proof fn lemma_key_text_push(indices: Seq<usize>, last: usize)
    requires
        indices.len() > 0,
    ensures
        key_text(indices.push(last)) == key_text(indices) + seq!['.'] + decimal(last as nat),
    decreases indices.len(),
{
    let whole = indices.push(last);
    assert(whole.drop_first() =~= indices.drop_first().push(last));
    assert(whole[0] == indices[0]);
    assert(key_text(whole) == decimal(indices[0] as nat) + seq!['.'] + key_text(
        whole.drop_first(),
    ));
    if indices.len() == 1 {
        assert(whole.drop_first().len() == 1);
        assert(whole.drop_first()[0] == last);
        assert(key_text(whole.drop_first()) == decimal(last as nat));
    } else {
        lemma_key_text_push(indices.drop_first(), last);
        assert(decimal(indices[0] as nat) + seq!['.'] + (key_text(indices.drop_first()) + seq!['.']
            + decimal(last as nat)) =~= (decimal(indices[0] as nat) + seq!['.'] + key_text(
            indices.drop_first(),
        )) + seq!['.'] + decimal(last as nat));
    }
}

/// A key of two or more coordinates holds a dot; the first one stands
/// right behind the first numeral.
proof fn lemma_key_first_dot(indices: Seq<usize>)
    requires
        indices.len() >= 2,
    ensures
        first_index_of(key_text(indices), '.') == decimal(indices[0] as nat).len(),
        has_char(key_text(indices), '.'),
{
    let head = decimal(indices[0] as nat);
    let text = key_text(indices);
    lemma_decimal_digits(indices[0] as nat);
    assert(text[head.len() as int] == '.');
    assert forall|j: int| 0 <= j < head.len() implies text[j] != '.' by {
        assert(text[j] == head[j]);
        assert(is_digit(head[j]));
    }
    lemma_first_index_is(text, '.', head.len() as int);
}

/// Reading the parts of a key between dots gives back its coordinates.
proof fn lemma_key_parts(indices: Seq<usize>, sep: char)
    requires
        indices.len() > 0,
        !is_digit(sep),
        indices.len() >= 2 ==> sep == '.',
    ensures
        numeric_parts(key_text(indices), sep) == indices,
    decreases indices.len(),
{
    let head = decimal(indices[0] as nat);
    let text = key_text(indices);
    lemma_decimal_digits(indices[0] as nat);
    lemma_parse_decimal(indices[0]);
    if indices.len() == 1 {
        lemma_digits_lack(text, sep);
        assert(text.take(text.len() as int) =~= text);
        assert(numeric_parts(text, sep) =~= indices);
    } else {
        lemma_key_first_dot(indices);
        let rest = indices.drop_first();
        lemma_key_parts(rest, sep);
        assert(text.take(head.len() as int) =~= head);
        assert(text.skip(head.len() as int + 1) =~= key_text(rest));
        assert(seq![indices[0]] + rest =~= indices);
    }
}

/// Formatting grid coordinates as a key and parsing the key gives back the
/// coordinates.
pub proof fn lemma_key_round_trip(indices: Seq<usize>)
    ensures
        key_indices(key_text(indices)) == indices,
{
    let text = key_text(indices);
    if indices.len() == 0 {
        assert(text.take(0) =~= text);
        assert(numeric_parts(text, '/') =~= indices);
    } else if indices.len() == 1 {
        lemma_decimal_digits(indices[0] as nat);
        lemma_digits_lack(text, '.');
        lemma_key_parts(indices, '/');
    } else {
        lemma_key_first_dot(indices);
        lemma_key_parts(indices, '.');
    }
}

/// Format grid coordinates as a chunk key such as `"0.1.2"`.
pub fn format_key(indices: &[usize]) -> (key: String)
    ensures
        key@ == key_text(indices@),
{
    let n = indices.len();
    let mut key = String::new();
    if n == 0 {
        return key;
    }
    key = decimal_string(indices[0]);
    let mut d: usize = 1;
    proof {
        assert(indices@.take(1).len() == 1);
        assert(indices@.take(1)[0] == indices@[0]);
    }
    while d < n
        invariant
            1 <= d <= n,
            n == indices@.len(),
            key@ == key_text(indices@.take(d as int)),
        decreases n - d,
    {
        let numeral = decimal_string(indices[d]);
        proof {
            reveal_strlit(".");
            lemma_key_text_push(indices@.take(d as int), indices@[d as int]);
            assert(indices@.take(d as int).push(indices@[d as int]) =~= indices@.take(d + 1));
            assert("."@ =~= seq!['.']);
        }
        key.append(".");
        key.append(numeral.as_str());
        d += 1;
    }
    proof {
        assert(indices@.take(n as int) =~= indices@);
    }
    key
}

/// Parse a key string like `"0.1.2"` or `"0/1/2"` into indices.
pub fn parse_key_string(key: &str) -> (indices: Vec<usize>)
    ensures
        indices@ == key_indices(key@),
{
    let chars = chars_of(key);
    let sep = if find_char(chars.as_slice(), '.') < chars.len() {
        '.'
    } else {
        '/'
    };
    parse_parts(chars.as_slice(), sep)
}

/// The multi-index of the `k`-th position of a shape, counting with the
/// first dimension fastest.
pub open spec fn unravel_f(shape: Seq<usize>, k: nat) -> Seq<usize>
    decreases shape.len(),
{
    if shape.len() == 0 {
        Seq::empty()
    } else {
        seq![(k % shape[0] as nat) as usize] + unravel_f(shape.drop_first(), k / shape[0] as nat)
    }
}

/// The multi-index that lies at flat position `p` of an array.
pub open spec fn position(shape: Seq<usize>, order: ArrayOrder, p: nat) -> Seq<usize> {
    match order {
        ArrayOrder::C => unravel(shape, p),
        ArrayOrder::F => unravel_f(shape, p),
    }
}

/// Enumeration and flattening agree: the `k`-th multi-index of a shape has
/// the flat position `k`. That holds in `C` order, and in `F` order for
/// the multi-indices whose place is the same whether the first dimension
/// or the last is counted fastest.
pub proof fn lemma_enumeration_agrees(shape: Seq<usize>, order: ArrayOrder, k: nat)
    requires
        k < shape_product(shape),
        order is F ==> unravel(shape, k) == unravel_f(shape, k),
    ensures
        linear_offset(shape, order, cartesian(shape)[k as int]) == k,
{
    lemma_position_inverse(shape, order, k);
}

/// In `C` order the flat position of a multi-index is its first entry times
/// the element count of the other dimensions, plus the flat position of
/// the other entries in those dimensions.
pub proof fn lemma_linear_c_step(shape: Seq<usize>, indices: Seq<usize>)
    requires
        shape.len() > 0,
        indices.len() > 0,
    ensures
        linear_offset(shape, ArrayOrder::C, indices) == indices[0] as nat * shape_product(
            shape.drop_first(),
        ) + linear_offset(shape.drop_first(), ArrayOrder::C, indices.drop_first()),
{
    let rest = shape.drop_first();
    let weights = strides_of(shape, ArrayOrder::C);
    assert(weights.drop_first() =~= strides_of(rest, ArrayOrder::C)) by {
        assert forall|d: int| 0 <= d < rest.len() implies weights.drop_first()[d] == strides_of(
            rest,
            ArrayOrder::C,
        )[d] by {
            assert(shape.skip(d + 1 + 1) =~= rest.skip(d + 1));
        }
    }
    assert(shape.skip(1) =~= rest);
}

/// Scaling every weight scales the sum of products.
pub proof fn lemma_dot_scaled(indices: Seq<usize>, weights: Seq<nat>, scaled: Seq<nat>, k: nat)
    requires
        scaled.len() == weights.len(),
        forall|d: int| 0 <= d < weights.len() ==> scaled[d] == k * weights[d],
    ensures
        dot(indices, scaled) == k * dot(indices, weights),
    decreases indices.len(),
{
    if indices.len() == 0 || weights.len() == 0 {
        assert(k * 0 == 0);
    } else {
        lemma_dot_scaled(indices.drop_first(), weights.drop_first(), scaled.drop_first(), k);
        let a = indices[0] as nat;
        let w = weights[0];
        let r = dot(indices.drop_first(), weights.drop_first());
        assert(a * (k * w) + k * r == k * (a * w + r)) by (nonlinear_arith);
    }
}

/// In `F` order the flat position of a multi-index is its first entry plus
/// the first extent times the flat position of the other entries in the
/// other dimensions.
pub proof fn lemma_linear_f_step(shape: Seq<usize>, indices: Seq<usize>)
    requires
        shape.len() > 0,
        indices.len() > 0,
    ensures
        linear_offset(shape, ArrayOrder::F, indices) == indices[0] as nat + shape[0] as nat
            * linear_offset(shape.drop_first(), ArrayOrder::F, indices.drop_first()),
{
    let rest = shape.drop_first();
    let weights = strides_of(shape, ArrayOrder::F);
    let inner = strides_of(rest, ArrayOrder::F);
    assert forall|d: int| 0 <= d < inner.len() implies weights.drop_first()[d] == shape[0] as nat
        * inner[d] by {
        assert(shape.take(d + 1).drop_first() =~= rest.take(d));
        assert(shape.take(d + 1)[0] == shape[0]);
    }
    lemma_dot_scaled(indices.drop_first(), inner, weights.drop_first(), shape[0] as nat);
    assert(shape.take(0).len() == 0);
    assert(weights[0] == 1);
}

/// A multi-index within a shape has a flat position below the element
/// count, and it is the multi-index that lies at that position.
pub proof fn lemma_offset_inverse(shape: Seq<usize>, order: ArrayOrder, indices: Seq<usize>)
    requires
        in_bounds(shape, indices),
    ensures
        linear_offset(shape, order, indices) < shape_product(shape),
        position(shape, order, linear_offset(shape, order, indices)) == indices,
    decreases shape.len(),
{
    if shape.len() == 0 {
        assert(indices =~= Seq::<usize>::empty());
    } else {
        let rest = shape.drop_first();
        let tail = indices.drop_first();
        let inner = shape_product(rest);
        let i = indices[0] as nat;
        let n = shape[0] as nat;
        assert(in_bounds(rest, tail)) by {
            assert forall|d: int| 0 <= d < rest.len() implies tail[d] < rest[d] by {
                assert(tail[d] == indices[d + 1]);
                assert(rest[d] == shape[d + 1]);
            }
        }
        lemma_offset_inverse(rest, order, tail);
        let r = linear_offset(rest, order, tail);
        match order {
            ArrayOrder::C => {
                lemma_linear_c_step(shape, indices);
                assert(i * inner + r < n * inner) by (nonlinear_arith)
                    requires
                        i < n,
                        r < inner,
                ;
                lemma_unravel_step(shape, i, r);
                assert(seq![i as usize] + tail =~= indices);
            },
            ArrayOrder::F => {
                lemma_linear_f_step(shape, indices);
                assert(i + n * r < n * inner) by (nonlinear_arith)
                    requires
                        i < n,
                        r < inner,
                ;
                vstd::arithmetic::div_mod::lemma_fundamental_div_mod_converse(
                    (i + n * r) as int,
                    n as int,
                    r as int,
                    i as int,
                );
                assert(seq![i as usize] + tail =~= indices);
            },
        }
    }
}

/// The multi-index at a flat position below the element count lies within
/// the shape, and its flat position is that position.
pub proof fn lemma_position_inverse(shape: Seq<usize>, order: ArrayOrder, p: nat)
    requires
        p < shape_product(shape),
    ensures
        in_bounds(shape, position(shape, order, p)),
        linear_offset(shape, order, position(shape, order, p)) == p,
    decreases shape.len(),
{
    match order {
        ArrayOrder::C => {
            lemma_unravel_in_bounds(shape, p);
            lemma_linear_index_of_cartesian(shape, p);
        },
        ArrayOrder::F => {
            if shape.len() > 0 {
                let rest = shape.drop_first();
                let inner = shape_product(rest);
                let n = shape[0] as nat;
                assert(n > 0) by (nonlinear_arith)
                    requires
                        p < n * inner,
                ;
                assert(p / n < inner) by (nonlinear_arith)
                    requires
                        p < n * inner,
                        n > 0,
                ;
                assert(p % n < n) by (nonlinear_arith)
                    requires
                        n > 0,
                ;
                lemma_position_inverse(rest, order, p / n);
                let index = unravel_f(shape, p);
                assert(index.drop_first() =~= unravel_f(rest, p / n));
                assert forall|d: int| 0 <= d < shape.len() implies index[d] < shape[d] by {
                    if d > 0 {
                        assert(index[d] == unravel_f(rest, p / n)[d - 1]);
                        assert(rest[d - 1] == shape[d]);
                    }
                }
                lemma_linear_f_step(shape, index);
                vstd::arithmetic::div_mod::lemma_fundamental_div_mod(p as int, n as int);
            }
        },
    }
}

/// Unified compression / codec description (V2 or V3).
#[derive(Debug, PartialEq, Eq)]
pub enum CompressionInfo {
    V2Compression { compressor: Option<ZarrCompressor>, filters: Option<JsonValue> },
    V3Codecs(Vec<AnyCodec>),
}

/// The metadata of an array, whatever the format version it was read from.
#[derive(Debug, PartialEq, Eq)]
pub struct UnifiedMetadata {
    pub shape: Vec<usize>,
    pub chunk_shape: Vec<usize>,
    pub data_type: DataType,
    pub fill_value: FillValue,
    pub order: ArrayOrder,
    pub zarr_format: u32,
    pub compression_info: CompressionInfo,
    pub attributes: Option<Vec<(String, JsonValue)>>,
    pub dimension_names: Option<Vec<Option<String>>>,
    pub keys: Vec<String>,
}

impl UnifiedMetadata {
    /// The invariant of array metadata: shape and chunk shape have the same
    /// dimensionality, no chunk extent is zero, and the keys are those of
    /// the chunk grid.
    pub open spec fn wf(&self) -> bool {
        &&& self.shape@.len() == self.chunk_shape@.len()
        &&& all_positive(self.chunk_shape@)
        &&& texts_of(self.keys@) == keys_of(self.shape@, self.chunk_shape@)
    }

    /// The unified form of v2 array metadata.
    pub fn from_v2(md: &ZarrV2Metadata) -> (unified: UnifiedMetadata)
        ensures
            unified.shape@ == md.shape@,
            unified.chunk_shape@ == md.chunks@,
            unified.data_type == md.dtype.data_type,
            unified.fill_value@ == md.fill_value@,
            unified.order == md.order,
            unified.zarr_format == md.zarr_format,
            unified.compression_info matches CompressionInfo::V2Compression { compressor, filters }
                && opt_compressor(compressor) == opt_compressor(md.compressor) && opt_json(filters)
                == opt_json(md.filters),
            unified.attributes is None,
            unified.dimension_names is None,
            texts_of(unified.keys@) == texts_of(md.keys@),
            md.wf() ==> unified.wf(),
    {
        UnifiedMetadata {
            shape: clone_extents(&md.shape),
            chunk_shape: clone_extents(&md.chunks),
            data_type: md.dtype.data_type,
            fill_value: md.fill_value.clone(),
            order: md.order,
            zarr_format: md.zarr_format,
            compression_info: CompressionInfo::V2Compression {
                compressor: match &md.compressor {
                    Some(c) => Some(c.clone()),
                    None => None,
                },
                filters: match &md.filters {
                    Some(f) => Some(f.clone()),
                    None => None,
                },
            },
            attributes: None,
            dimension_names: None,
            keys: clone_texts(&md.keys),
        }
    }
}

/// The byte order that a codec list records: that of its first bytes codec
/// that records one, or little-endian where there is none.
pub open spec fn pipeline_endian(codecs: Seq<AnyCodec>) -> Endian
    decreases codecs.len(),
{
    if codecs.len() == 0 {
        Endian::Little
    } else {
        match codecs[0].spec_bytes_endian() {
            Some(endian) => endian,
            None => pipeline_endian(codecs.drop_first()),
        }
    }
}

/// The byte order that a codec list records.
pub fn find_endian(codecs: &[AnyCodec]) -> (endian: Endian)
    ensures
        endian == pipeline_endian(codecs@),
{
    let mut i: usize = 0;
    proof {
        assert(codecs@.skip(0) =~= codecs@);
    }
    while i < codecs.len()
        invariant
            i <= codecs@.len(),
            pipeline_endian(codecs@.skip(i as int)) == pipeline_endian(codecs@),
        decreases codecs@.len() - i,
    {
        proof {
            assert(codecs@.skip(i as int)[0] == codecs@[i as int]);
            assert(codecs@.skip(i as int).drop_first() =~= codecs@.skip(i + 1));
        }
        match codecs[i].bytes_endian() {
            Some(endian) => {
                return endian;
            },
            None => {},
        }
        i += 1;
    }
    proof {
        assert(codecs@.skip(i as int).len() == 0);
    }
    Endian::Little
}

/// What reading a chunk gives.
pub ghost enum ChunkModel {
    /// The typed vector of the chunk.
    Ready(VectorModel),
    /// The codec at `index` is one whose work is done outside this library;
    /// it is to decode `input`.
    Pending { index: int, input: Seq<u8> },
    /// Reading fails with an error of this kind.
    Failed(ErrorKind),
}

/// What the decoded bytes of a chunk give: the typed vector that they
/// spell in the byte order that the codec list records; a decode error for
/// the two variable-length element types.
pub open spec fn typed_chunk(dtype: DataType, codecs: Seq<AnyCodec>, bytes: Seq<u8>) -> ChunkModel {
    if dtype.width() is Some {
        ChunkModel::Ready(decoded(pipeline_endian(codecs), dtype, bytes))
    } else {
        ChunkModel::Failed(ErrorKind::Decode)
    }
}

/// What a decode pipeline gives as a chunk.
pub open spec fn chunk_of_pipeline(dtype: DataType, codecs: Seq<AnyCodec>, outcome: PipelineModel) -> ChunkModel {
    match outcome {
        PipelineModel::Finished(bytes) => typed_chunk(dtype, codecs, bytes),
        PipelineModel::Pending { index, input } => ChunkModel::Pending { index, input },
        PipelineModel::Failed(kind) => ChunkModel::Failed(kind),
    }
}

/// What reading a chunk gives.
///
/// A blob that is there and not empty goes through the codecs, last codec
/// first, and is then read as a typed vector. A missing or empty blob gives
/// the chunk filled with the fill value; that fails where the chunk's
/// element count is beyond `usize`.
pub open spec fn chunk_model(
    data: Option<Seq<u8>>,
    dtype: DataType,
    chunk_shape: Seq<usize>,
    fill: Fill,
    codecs: Seq<AnyCodec>,
) -> ChunkModel {
    match data {
        Some(raw) if raw.len() > 0 => chunk_of_pipeline(
            dtype,
            codecs,
            pipeline_model(codecs, codecs.len() as int, raw),
        ),
        _ => if shape_product(chunk_shape) <= usize::MAX {
            ChunkModel::Ready(VectorModel::filled(fill.scalar(dtype), shape_product(chunk_shape)))
        } else {
            ChunkModel::Failed(ErrorKind::Other)
        },
    }
}

/// A chunk, or the notice that a codec's work is to be done outside this
/// library before the chunk can be read.
#[derive(Debug, PartialEq, Eq)]
pub enum ChunkState {
    Ready(ZarrVectorValue),
    Pending { index: usize, input: Vec<u8> },
}

/// Whether the result of reading a chunk is what the model gives.
pub open spec fn chunk_matches(result: ZarrResult<ChunkState>, model: ChunkModel) -> bool {
    match model {
        ChunkModel::Ready(vector) => result matches Ok(ChunkState::Ready(found)) && found@
            == vector,
        ChunkModel::Pending { index, input } => result matches Ok(
            ChunkState::Pending { index: at, input: held },
        ) && at == index && held@ == input,
        ChunkModel::Failed(kind) => result matches Err(e) && e.kind() == kind,
    }
}

/// Turns the state of a pipeline into the state of a chunk.
fn chunk_from_pipeline(dtype: DataType, codecs: &[AnyCodec], state: PipelineState) -> (result:
    ZarrResult<ChunkState>)
    ensures
        forall|model: PipelineModel|
            pipeline_matches(Ok(state), model) ==> chunk_matches(
                result,
                chunk_of_pipeline(dtype, codecs@, model),
            ),
{
    match state {
        PipelineState::Finished(bytes) => {
            let endian = find_endian(codecs);
            match bytes_to_zarr_vector(endian, dtype, bytes.as_slice()) {
                Ok(vector) => Ok(ChunkState::Ready(vector)),
                Err(e) => Err(e),
            }
        },
        PipelineState::Pending { index, input } => Ok(ChunkState::Pending { index, input }),
    }
}

/// Parse a single chunk: decompress via codec pipeline, then interpret bytes.
pub fn parse_chunk(
    data: Option<&[u8]>,
    dtype: DataType,
    chunk_shape: &[usize],
    fill_value: &FillValue,
    codecs: &[AnyCodec],
) -> (result: ZarrResult<ChunkState>)
    ensures
        chunk_matches(
            result,
            chunk_model(
                match data {
                    Some(raw) => Some(raw@),
                    None => None,
                },
                dtype,
                chunk_shape@,
                fill_value@,
                codecs@,
            ),
        ),
{
    match data {
        Some(raw) => {
            if raw.len() > 0 {
                return match apply_codec_pipeline(codecs, raw) {
                    Ok(state) => chunk_from_pipeline(dtype, codecs, state),
                    Err(e) => Err(e),
                };
            }
        },
        None => {},
    }
    match checked_product(chunk_shape) {
        Some(_) => {
            let scalar = fill_value.to_zarr_value(dtype);
            Ok(ChunkState::Ready(fill_chunk(&scalar, chunk_shape)))
        },
        None => Err(ZarrError::Other(String::from_str("chunk has too many elements"))),
    }
}

/// Goes on reading a chunk behind a pending codec: `output` is what the
/// codec at `index` made of the pending input.
pub fn resume_chunk(dtype: DataType, codecs: &[AnyCodec], index: usize, output: Vec<u8>) -> (result:
    ZarrResult<ChunkState>)
    requires
        index <= codecs@.len(),
    ensures
        chunk_matches(
            result,
            chunk_of_pipeline(dtype, codecs@, pipeline_model(codecs@, index as int, output@)),
        ),
{
    match resume_codec_pipeline(codecs, index, output) {
        Ok(state) => chunk_from_pipeline(dtype, codecs, state),
        Err(e) => Err(e),
    }
}

/// The grid coordinates that the keys of a list of chunks spell.
pub open spec fn chunk_keys(chunks: Seq<(String, ZarrVectorValue)>) -> Seq<Seq<usize>> {
    Seq::new(chunks.len(), |c: int| key_indices(chunks[c].0@))
}

/// The element counts of a list of chunks.
pub open spec fn chunk_lens(chunks: Seq<(String, ZarrVectorValue)>) -> Seq<usize> {
    Seq::new(chunks.len(), |c: int| chunks[c].1@.items.len() as usize)
}

/// The elements of the array that a list of chunks gives: each flat
/// position holds the element of the last chunk that covers it and has it,
/// or the fill scalar where there is no such chunk.
pub open spec fn merged_items(
    chunks: Seq<(String, ZarrVectorValue)>,
    shape: Seq<usize>,
    chunk_shape: Seq<usize>,
    order: ArrayOrder,
    fill: Scalar,
) -> Seq<Option<Scalar>> {
    Seq::new(
        shape_product(shape),
        |p: int|
            match last_source(
                shape,
                chunk_shape,
                order,
                chunk_keys(chunks),
                chunk_lens(chunks),
                chunks.len() as int,
                p as nat,
            ) {
                Some((c, j)) => chunks[c as int].1@.items[j as int],
                None => Some(fill),
            },
    )
}

/// Merge decoded chunks into a single `ZarrVectorValue::VWithNulls`,
/// preserving element types without lossy conversion.
///
/// Fails with a metadata error where shape and chunk shape differ in
/// dimensionality, and with an error of kind other where the array has
/// more elements than `usize` holds or a key has another dimensionality
/// than the array.
pub fn merge_chunks_value(chunk_map: &Vec<(String, ZarrVectorValue)>, metadata: &UnifiedMetadata) -> (result:
    ZarrResult<ZarrVectorValue>)
    ensures
        match plan_error(
            metadata.shape@,
            metadata.chunk_shape@,
            chunk_keys(chunk_map@),
            chunk_lens(chunk_map@),
        ) {
            Some(kind) => result matches Err(e) && e.kind() == kind,
            None => result matches Ok(vector) && vector@ == (VectorModel {
                dtype: metadata.data_type,
                nullable: true,
                items: merged_items(
                    chunk_map@,
                    metadata.shape@,
                    metadata.chunk_shape@,
                    metadata.order,
                    metadata.fill_value@.scalar(metadata.data_type),
                ),
            }),
        },
{
    let mut keys: Vec<Vec<usize>> = Vec::new();
    let mut lens: Vec<usize> = Vec::new();
    let mut c: usize = 0;
    while c < chunk_map.len()
        invariant
            c <= chunk_map@.len(),
            keys@.len() == c,
            lens@.len() == c,
            forall|b: int| 0 <= b < c ==> (#[trigger] keys@[b])@ == key_indices(chunk_map@[b].0@),
            forall|b: int| 0 <= b < c ==> #[trigger] lens@[b] == chunk_map@[b].1@.items.len(),
        decreases chunk_map@.len() - c,
    {
        keys.push(parse_key_string(chunk_map[c].0.as_str()));
        lens.push(chunk_map[c].1.len());
        c += 1;
    }
    proof {
        assert(key_lists(keys@) =~= chunk_keys(chunk_map@));
        assert(lens@ =~= chunk_lens(chunk_map@));
    }
    let plan = match merge_plan(
        &keys,
        &lens,
        metadata.shape.as_slice(),
        metadata.chunk_shape.as_slice(),
        metadata.order,
    ) {
        Ok(plan) => plan,
        Err(e) => {
            return Err(e);
        },
    };
    let fill_scalar = metadata.fill_value.to_zarr_value(metadata.data_type);
    let ghost expected = merged_items(
        chunk_map@,
        metadata.shape@,
        metadata.chunk_shape@,
        metadata.order,
        metadata.fill_value@.scalar(metadata.data_type),
    );
    let mut items: Vec<Option<ZarrValue>> = Vec::new();
    let mut p: usize = 0;
    while p < plan.len()
        invariant
            p <= plan@.len(),
            plan@ == plan_of(
                metadata.shape@,
                metadata.chunk_shape@,
                metadata.order,
                chunk_keys(chunk_map@),
                chunk_lens(chunk_map@),
            ),
            plan_error(
                metadata.shape@,
                metadata.chunk_shape@,
                chunk_keys(chunk_map@),
                chunk_lens(chunk_map@),
            ) is None,
            fill_scalar@ == metadata.fill_value@.scalar(metadata.data_type),
            expected == merged_items(
                chunk_map@,
                metadata.shape@,
                metadata.chunk_shape@,
                metadata.order,
                metadata.fill_value@.scalar(metadata.data_type),
            ),
            chunk_map@.len() <= usize::MAX,
            items@.len() == p,
            forall|q: int| 0 <= q < p ==> opt_view(#[trigger] items@[q]) == expected[q],
        decreases plan@.len() - p,
    {
        let item = match plan[p] {
            Some((c, j)) => {
                proof {
                    lemma_last_source_bound(
                        metadata.shape@,
                        metadata.chunk_shape@,
                        metadata.order,
                        chunk_keys(chunk_map@),
                        chunk_lens(chunk_map@),
                        chunk_map@.len() as int,
                        p as nat,
                    );
                }
                chunk_map[c].1.get(j)
            },
            None => Some(fill_scalar.clone()),
        };
        items.push(item);
        p += 1;
    }
    let vector = ZarrVectorValue::VWithNulls(metadata.data_type, items);
    proof {
        assert(vector@.items =~= expected);
    }
    Ok(vector)
}

/// An array stored as a single chunk of the array's own shape is made of
/// the chunk's elements: the element at a flat position is the one that
/// the chunk holds, in its own row-major count, for the multi-index at that
/// position. In `C` order the array is the chunk as it stands.
pub proof fn lemma_single_chunk(
    chunks: Seq<(String, ZarrVectorValue)>,
    shape: Seq<usize>,
    order: ArrayOrder,
    fill: Scalar,
)
    requires
        chunks.len() == 1,
        key_indices(chunks[0].0@) == Seq::new(shape.len(), |d: int| 0usize),
        chunks[0].1@.items.len() == shape_product(shape),
        shape_product(shape) <= usize::MAX,
    ensures
        forall|p: int|
            0 <= p < shape_product(shape) ==> #[trigger] merged_items(
                chunks,
                shape,
                shape,
                order,
                fill,
            )[p] == chunks[0].1@.items[linear_offset(
                shape,
                ArrayOrder::C,
                position(shape, order, p as nat),
            ) as int],
        order is C ==> merged_items(chunks, shape, shape, order, fill) == chunks[0].1@.items,
{
    let merged = merged_items(chunks, shape, shape, order, fill);
    let items = chunks[0].1@.items;
    let key = key_indices(chunks[0].0@);
    let keys = chunk_keys(chunks);
    let lens = chunk_lens(chunks);
    assert forall|p: int| 0 <= p < shape_product(shape) implies #[trigger] merged[p] == items[linear_offset(
        shape,
        ArrayOrder::C,
        position(shape, order, p as nat),
    ) as int] && (order is C ==> merged[p] == items[p]) by {
        let index = position(shape, order, p as nat);
        lemma_position_inverse(shape, order, p as nat);
        lemma_offset_inverse(shape, ArrayOrder::C, index);
        assert(covers(key, shape, index)) by {
            assert forall|d: int| 0 <= d < index.len() implies key[d] * shape[d] <= #[trigger] index[d]
                < key[d] * shape[d] + shape[d] by {
                assert(key[d] == 0);
            }
        }
        assert(local_of(key, shape, index) =~= index) by {
            assert forall|d: int| 0 <= d < index.len() implies local_of(key, shape, index)[d]
                == index[d] by {
                assert(key[d] == 0);
                assert(key[d] * shape[d] == 0);
            }
        }
        assert(keys[0] == key);
        assert(lens[0] == items.len());
        assert(last_source(shape, shape, order, keys, lens, 0, p as nat) is None);
    }
    if order is C {
        assert(merged =~= items);
    }
}

/// An array without compressor that is stored as one chunk of its own shape
/// in `C` order holds the elements that the chunk's bytes spell in the byte
/// order of the data type: reading the chunk gives the decoded bytes, and
/// merging that chunk gives its elements as they stand.
pub proof fn lemma_uncompressed_array(
    chunks: Seq<(String, ZarrVectorValue)>,
    shape: Seq<usize>,
    dtype: DataType,
    byte_order: Endian,
    fill: Fill,
    raw: Seq<u8>,
)
    requires
        dtype.width() is Some,
        raw.len() > 0,
        chunks.len() == 1,
        key_indices(chunks[0].0@) == Seq::new(shape.len(), |d: int| 0usize),
        chunks[0].1@ == decoded(byte_order, dtype, raw),
        decoded(byte_order, dtype, raw).items.len() == shape_product(shape),
        shape_product(shape) <= usize::MAX,
    ensures
        chunk_model(
            Some(raw),
            dtype,
            shape,
            fill,
            crate::v2::codec_equivalents(None, byte_order),
        ) == ChunkModel::Ready(decoded(byte_order, dtype, raw)),
        merged_items(chunks, shape, shape, ArrayOrder::C, fill.scalar(dtype)) == decoded(
            byte_order,
            dtype,
            raw,
        ).items,
{
    let codecs = crate::v2::codec_equivalents(None, byte_order);
    assert(codecs.len() == 1);
    assert(codecs[0].decode_model(raw) == crate::codecs::StepModel::Ready(raw));
    assert(pipeline_model(codecs, 0, raw) == PipelineModel::Finished(raw));
    assert(pipeline_model(codecs, 1, raw) == PipelineModel::Finished(raw));
    assert(codecs.drop_first().len() == 0);
    assert(pipeline_endian(codecs) == byte_order);
    lemma_single_chunk(chunks, shape, ArrayOrder::C, fill.scalar(dtype));
}

/// An element that no chunk supplies is the fill scalar, and so is one
/// that comes from a chunk that was filled with the fill scalar, because
/// its blob was absent.
pub proof fn lemma_absent_chunks_take_fill(
    chunks: Seq<(String, ZarrVectorValue)>,
    shape: Seq<usize>,
    chunk_shape: Seq<usize>,
    order: ArrayOrder,
    fill: Scalar,
    p: int,
)
    requires
        0 <= p < shape_product(shape),
        chunks.len() <= usize::MAX,
        !(fill is Null),
        match last_source(
            shape,
            chunk_shape,
            order,
            chunk_keys(chunks),
            chunk_lens(chunks),
            chunks.len() as int,
            p as nat,
        ) {
            Some((c, j)) => chunks[c as int].1@ == VectorModel::filled(
                fill,
                chunks[c as int].1@.items.len(),
            ),
            None => true,
        },
    ensures
        merged_items(chunks, shape, chunk_shape, order, fill)[p] == Some(fill),
{
    lemma_last_source_bound(
        shape,
        chunk_shape,
        order,
        chunk_keys(chunks),
        chunk_lens(chunks),
        chunks.len() as int,
        p as nat,
    );
}

/// Reading a chunk twice from the same blob gives the same chunk: two
/// results that both meet the contract of [`parse_chunk`] hold equal
/// vectors.
pub proof fn lemma_chunk_is_determined(
    first: ZarrResult<ChunkState>,
    second: ZarrResult<ChunkState>,
    model: ChunkModel,
)
    requires
        chunk_matches(first, model),
        chunk_matches(second, model),
    ensures
        first is Ok <==> second is Ok,
        first matches Ok(ChunkState::Ready(a)) ==> second matches Ok(ChunkState::Ready(b)) && a@
            == b@,
{
}

/// An array that is open: its metadata and its codec list.
#[derive(Debug, PartialEq, Eq)]
pub struct UnifiedZarrArray {
    pub metadata: UnifiedMetadata,
    pub codecs: Vec<AnyCodec>,
}

impl UnifiedZarrArray {
    /// Whether the array is the one that v2 metadata describes: the same
    /// shape, chunk shape, element type, fill value, order, format version
    /// and keys, no attributes and no dimension names, and the codec list of
    /// its compressor and byte order.
    pub open spec fn describes(&self, md: MetadataModel) -> bool {
        &&& self.metadata.attributes is None
        &&& self.metadata.dimension_names is None
        &&& self.metadata.shape@ == md.shape
        &&& self.metadata.chunk_shape@ == md.chunks
        &&& self.metadata.data_type == md.dtype.data_type
        &&& self.metadata.fill_value@ == md.fill_value
        &&& self.metadata.order == md.order
        &&& self.metadata.zarr_format == md.zarr_format
        &&& texts_of(self.metadata.keys@) == md.keys
        &&& self.metadata.compression_info matches CompressionInfo::V2Compression {
            compressor,
            filters,
        } && opt_compressor(compressor) == md.compressor && opt_json(filters) == md.filters
        &&& self.codecs@ == crate::v2::codec_equivalents(md.compressor, md.dtype.byte_order)
    }

    /// Reads a chunk of the array from its blob, which is `None` where the
    /// store holds none.
    pub fn decode_chunk(&self, blob: Option<&[u8]>) -> (result: ZarrResult<ChunkState>)
        ensures
            chunk_matches(
                result,
                chunk_model(
                    match blob {
                        Some(raw) => Some(raw@),
                        None => None,
                    },
                    self.metadata.data_type,
                    self.metadata.chunk_shape@,
                    self.metadata.fill_value@,
                    self.codecs@,
                ),
            ),
    {
        parse_chunk(
            blob,
            self.metadata.data_type,
            self.metadata.chunk_shape.as_slice(),
            &self.metadata.fill_value,
            self.codecs.as_slice(),
        )
    }
}

} // verus!
