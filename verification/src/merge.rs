//! Where the elements of a merged array come from.
//!
//! Each chunk covers the rectangle of the array that starts at its grid
//! coordinates times the chunk shape. Chunks are laid over the array in
//! the order in which they are given, so that an element comes from the
//! last chunk that covers it and has data for it; an element that no chunk
//! supplies keeps the fill value.

use crate::array::{
    lemma_linear_index_of_cartesian, lemma_offset_inverse, lemma_position_inverse,
    lemma_stride_bound, linear_offset, position, stride, strides, strides_of, weighted_sum,
};
use crate::error::{ErrorKind, ZarrError, ZarrResult};
use crate::shape::{
    all_positive, checked_product, has_zero_extent, in_bounds, lemma_product_positive,
    lemma_product_zero, lemma_unravel_in_bounds, shape_product, unravel,
};
use crate::types::ArrayOrder;
use vstd::prelude::*;
use vstd::string::StringExecFns;

verus! {

/// Whether the chunk at grid coordinates `key` covers the multi-index.
pub open spec fn covers(key: Seq<usize>, chunk_shape: Seq<usize>, index: Seq<usize>) -> bool {
    forall|d: int|
        0 <= d < index.len() ==> key[d] * chunk_shape[d] <= #[trigger] index[d] < key[d]
            * chunk_shape[d] + chunk_shape[d]
}

/// The place of a multi-index within the chunk at grid coordinates `key`.
pub open spec fn local_of(key: Seq<usize>, chunk_shape: Seq<usize>, index: Seq<usize>) -> Seq<
    usize,
> {
    Seq::new(index.len(), |d: int| (index[d] - key[d] * chunk_shape[d]) as usize)
}

/// The place in the array of the multi-index `local` of the chunk at grid
/// coordinates `key`.
pub open spec fn global_of(key: Seq<usize>, chunk_shape: Seq<usize>, local: Seq<usize>) -> Seq<
    int,
> {
    Seq::new(local.len(), |d: int| key[d] * chunk_shape[d] + local[d])
}

/// The element of a chunk that lies at flat position `p` of the array:
/// its number within the chunk, counted with the last dimension fastest.
/// `None` where the chunk does not cover the position or has fewer than
/// that many elements.
pub open spec fn chunk_source(
    shape: Seq<usize>,
    chunk_shape: Seq<usize>,
    order: ArrayOrder,
    key: Seq<usize>,
    len: usize,
    p: nat,
) -> Option<usize> {
    let index = position(shape, order, p);
    let within = linear_offset(chunk_shape, ArrayOrder::C, local_of(key, chunk_shape, index));
    if covers(key, chunk_shape, index) && within < len {
        Some(within as usize)
    } else {
        None
    }
}

/// The chunk among the first `n` that supplies flat position `p`, and the
/// number of the element within it: the last one that has the element.
pub open spec fn last_source(
    shape: Seq<usize>,
    chunk_shape: Seq<usize>,
    order: ArrayOrder,
    keys: Seq<Seq<usize>>,
    lens: Seq<usize>,
    n: int,
    p: nat,
) -> Option<(usize, usize)>
    decreases n,
{
    if n <= 0 {
        None
    } else {
        match chunk_source(shape, chunk_shape, order, keys[n - 1], lens[n - 1], p) {
            Some(within) => Some(((n - 1) as usize, within)),
            None => last_source(shape, chunk_shape, order, keys, lens, n - 1, p),
        }
    }
}

/// For each flat position of the array, the chunk that supplies it and the
/// number of the element within the chunk, or `None` where no chunk does.
pub open spec fn plan_of(
    shape: Seq<usize>,
    chunk_shape: Seq<usize>,
    order: ArrayOrder,
    keys: Seq<Seq<usize>>,
    lens: Seq<usize>,
) -> Seq<Option<(usize, usize)>> {
    Seq::new(
        shape_product(shape),
        |p: int| last_source(shape, chunk_shape, order, keys, lens, keys.len() as int, p as nat),
    )
}

/// The grid coordinates of a list of chunks.
pub open spec fn key_lists(keys: Seq<Vec<usize>>) -> Seq<Seq<usize>> {
    Seq::new(keys.len(), |c: int| keys[c]@)
}

/// The error, if any, that keeps chunks from being laid over an array:
/// shape and chunk shape of different dimensionality (a metadata error);
/// keys and lengths of different number, an element count beyond `usize`,
/// or a key of another dimensionality than the array (all of kind other).
pub open spec fn plan_error(
    shape: Seq<usize>,
    chunk_shape: Seq<usize>,
    keys: Seq<Seq<usize>>,
    lens: Seq<usize>,
) -> Option<ErrorKind> {
    if shape.len() != chunk_shape.len() {
        Some(ErrorKind::Metadata)
    } else if keys.len() != lens.len() || shape_product(shape) > usize::MAX || exists|c: int|
        0 <= c < keys.len() && (#[trigger] keys[c]).len() != shape.len() {
        Some(ErrorKind::Other)
    } else {
        None
    }
}

/// The element of a chunk with number `j` lies at one place of the array
/// at most: where the chunk's rectangle puts it, if that is within the
/// array. That place takes its element number `j` from the chunk, and no
/// other place does.
pub proof fn lemma_chunk_step(
    shape: Seq<usize>,
    chunk_shape: Seq<usize>,
    order: ArrayOrder,
    key: Seq<usize>,
    len: usize,
    j: nat,
)
    requires
        shape.len() == chunk_shape.len(),
        key.len() == shape.len(),
        j < shape_product(chunk_shape),
        j < len,
    ensures
        ({
            let global = global_of(key, chunk_shape, unravel(chunk_shape, j));
            let inside = forall|d: int| 0 <= d < shape.len() ==> global[d] < shape[d];
            let index = Seq::new(shape.len(), |d: int| global[d] as usize);
            &&& inside ==> linear_offset(shape, order, index) < shape_product(shape)
                && chunk_source(
                shape,
                chunk_shape,
                order,
                key,
                len,
                linear_offset(shape, order, index),
            ) == Some(j as usize)
            &&& forall|p: nat|
                p < shape_product(shape) && #[trigger] chunk_source(
                    shape,
                    chunk_shape,
                    order,
                    key,
                    len,
                    p,
                ) == Some(j as usize) ==> inside && p == linear_offset(shape, order, index)
        }),
{
    let local = unravel(chunk_shape, j);
    lemma_unravel_in_bounds(chunk_shape, j);
    lemma_linear_index_of_cartesian(chunk_shape, j);
    let global = global_of(key, chunk_shape, local);
    let inside = forall|d: int| 0 <= d < shape.len() ==> global[d] < shape[d];
    let index = Seq::new(shape.len(), |d: int| global[d] as usize);
    if inside {
        assert(in_bounds(shape, index));
        lemma_offset_inverse(shape, order, index);
        let flat = linear_offset(shape, order, index);
        assert(position(shape, order, flat) == index);
        assert(local_of(key, chunk_shape, index) =~= local);
        assert(covers(key, chunk_shape, index));
    }
    assert forall|p: nat|
        p < shape_product(shape) && #[trigger] chunk_source(
            shape,
            chunk_shape,
            order,
            key,
            len,
            p,
        ) == Some(j as usize) implies inside && p == linear_offset(shape, order, index) by {
        let at = position(shape, order, p);
        lemma_position_inverse(shape, order, p);
        let place = local_of(key, chunk_shape, at);
        assert(covers(key, chunk_shape, at));
        assert(in_bounds(chunk_shape, place)) by {
            assert forall|d: int| 0 <= d < chunk_shape.len() implies place[d] < chunk_shape[d] by {
                assert(key[d] * chunk_shape[d] <= at[d] < key[d] * chunk_shape[d] + chunk_shape[d]);
            }
        }
        lemma_offset_inverse(chunk_shape, ArrayOrder::C, place);
        assert(linear_offset(chunk_shape, ArrayOrder::C, place) == j);
        assert(place == local);
        assert forall|d: int| 0 <= d < shape.len() implies global[d] == at[d] by {
            assert(key[d] * chunk_shape[d] <= at[d] < key[d] * chunk_shape[d] + chunk_shape[d]);
            assert(place[d] == (at[d] - key[d] * chunk_shape[d]) as usize);
        }
        assert(index =~= at);
    }
}

/// An element number that a chunk supplies is below the chunk's element
/// count.
pub proof fn lemma_chunk_source_bound(
    shape: Seq<usize>,
    chunk_shape: Seq<usize>,
    order: ArrayOrder,
    key: Seq<usize>,
    len: usize,
    p: nat,
)
    requires
        shape.len() == chunk_shape.len(),
        key.len() == shape.len(),
        p < shape_product(shape),
        chunk_source(shape, chunk_shape, order, key, len, p) is Some,
    ensures
        chunk_source(shape, chunk_shape, order, key, len, p).unwrap() < shape_product(chunk_shape),
        chunk_source(shape, chunk_shape, order, key, len, p).unwrap() < len,
{
    let at = position(shape, order, p);
    lemma_position_inverse(shape, order, p);
    let place = local_of(key, chunk_shape, at);
    assert(in_bounds(chunk_shape, place)) by {
        assert forall|d: int| 0 <= d < chunk_shape.len() implies place[d] < chunk_shape[d] by {
            assert(key[d] * chunk_shape[d] <= at[d] < key[d] * chunk_shape[d] + chunk_shape[d]);
        }
    }
    lemma_offset_inverse(chunk_shape, ArrayOrder::C, place);
}

/// A source that the plan names is a chunk of the list and an element that
/// the chunk has.
pub proof fn lemma_last_source_bound(
    shape: Seq<usize>,
    chunk_shape: Seq<usize>,
    order: ArrayOrder,
    keys: Seq<Seq<usize>>,
    lens: Seq<usize>,
    n: int,
    p: nat,
)
    requires
        n <= keys.len(),
        keys.len() == lens.len(),
        keys.len() <= usize::MAX,
    ensures
        match last_source(shape, chunk_shape, order, keys, lens, n, p) {
            Some((c, j)) => 0 <= c < n && j < lens[c as int],
            None => true,
        },
    decreases n,
{
    if n > 0 {
        lemma_last_source_bound(shape, chunk_shape, order, keys, lens, n - 1, p);
    }
}

/// The strides of a shape in `C` order, each `None` where it is beyond
/// `usize`.
fn checked_strides(shape: &[usize]) -> (result: Vec<Option<usize>>)
    requires
        all_positive(shape@),
    ensures
        result@.len() == shape@.len(),
        forall|d: int|
            0 <= d < shape@.len() ==> match #[trigger] result@[d] {
                Some(s) => s == stride(shape@, ArrayOrder::C, d),
                None => stride(shape@, ArrayOrder::C, d) > usize::MAX,
            },
{
    let n = shape.len();
    let mut result: Vec<Option<usize>> = Vec::new();
    let mut d: usize = 0;
    while d < n
        invariant
            d <= n,
            result@.len() == d,
        decreases n - d,
    {
        result.push(None);
        d += 1;
    }
    let mut acc: Option<usize> = Some(1);
    proof {
        assert(shape@.skip(n as int).len() == 0);
    }
    while d > 0
        invariant
            d <= n,
            n == shape@.len(),
            all_positive(shape@),
            result@.len() == n,
            forall|e: int|
                d <= e < n ==> match #[trigger] result@[e] {
                    Some(s) => s == stride(shape@, ArrayOrder::C, e),
                    None => stride(shape@, ArrayOrder::C, e) > usize::MAX,
                },
            match acc {
                Some(a) => a == shape_product(shape@.skip(d as int)),
                None => shape_product(shape@.skip(d as int)) > usize::MAX,
            },
        decreases d,
    {
        d -= 1;
        result.set(d, acc);
        proof {
            let longer = shape@.skip(d as int);
            assert(longer.drop_first() =~= shape@.skip(d + 1));
            assert(longer[0] == shape@[d as int]);
            let tail = shape_product(shape@.skip(d + 1));
            assert(shape_product(longer) == shape@[d as int] as nat * tail);
            assert(shape@[d as int] as nat * tail >= tail) by (nonlinear_arith)
                requires
                    shape@[d as int] >= 1,
            ;
        }
        acc = match acc {
            Some(a) => shape[d].checked_mul(a),
            None => None,
        };
    }
    result
}

/// The multi-index of the `k`-th position of a shape, counting with the
/// last dimension fastest, from the shape's strides.
fn unravel_index(shape: &[usize], inner: &Vec<Option<usize>>, k: usize) -> (index: Vec<usize>)
    requires
        all_positive(shape@),
        inner@.len() == shape@.len(),
        forall|d: int|
            0 <= d < shape@.len() ==> match #[trigger] inner@[d] {
                Some(s) => s == stride(shape@, ArrayOrder::C, d),
                None => stride(shape@, ArrayOrder::C, d) > usize::MAX,
            },
    ensures
        index@ == unravel(shape@, k as nat),
{
    let n = shape.len();
    let mut index: Vec<usize> = Vec::new();
    let mut rem: usize = k;
    let mut d: usize = 0;
    proof {
        assert(shape@.skip(0) =~= shape@);
        assert(index@ + unravel(shape@, k as nat) =~= unravel(shape@, k as nat));
    }
    while d < n
        invariant
            d <= n,
            n == shape@.len(),
            all_positive(shape@),
            inner@.len() == n,
            forall|e: int|
                0 <= e < n ==> match #[trigger] inner@[e] {
                    Some(s) => s == stride(shape@, ArrayOrder::C, e),
                    None => stride(shape@, ArrayOrder::C, e) > usize::MAX,
                },
            index@.len() == d,
            index@ + unravel(shape@.skip(d as int), rem as nat) == unravel(shape@, k as nat),
        decreases n - d,
    {
        let ghost rest = shape@.skip(d as int);
        let ghost weight = shape_product(rest.drop_first());
        let ghost before = index@;
        proof {
            assert(rest.drop_first() =~= shape@.skip(d + 1));
            assert(all_positive(rest.drop_first()));
            lemma_product_positive(rest.drop_first());
        }
        let (entry, next) = match inner[d] {
            Some(s) => (rem / s, rem % s),
            None => {
                proof {
                    assert(rem as nat / weight == 0) by (nonlinear_arith)
                        requires
                            rem < weight,
                    ;
                    assert(rem as nat % weight == rem) by (nonlinear_arith)
                        requires
                            rem < weight,
                    ;
                }
                (0, rem)
            },
        };
        index.push(entry);
        proof {
            assert(unravel(rest, rem as nat) == seq![entry] + unravel(
                rest.drop_first(),
                next as nat,
            ));
            assert(index@ + unravel(shape@.skip(d + 1), next as nat) =~= before + (seq![entry]
                + unravel(rest.drop_first(), next as nat)));
        }
        rem = next;
        d += 1;
    }
    proof {
        assert(shape@.skip(n as int).len() == 0);
        assert(index@ + Seq::<usize>::empty() =~= index@);
    }
    index
}

/// The place in the array of a place within a chunk, or `None` where it
/// lies outside the array.
fn global_index(shape: &[usize], chunk_shape: &[usize], key: &Vec<usize>, local: &Vec<usize>) -> (index:
    Option<Vec<usize>>)
    requires
        shape@.len() == chunk_shape@.len(),
        key@.len() == shape@.len(),
        local@.len() == shape@.len(),
    ensures
        ({
            let global = global_of(key@, chunk_shape@, local@);
            let inside = forall|d: int| 0 <= d < shape@.len() ==> global[d] < shape@[d];
            match index {
                Some(found) => inside && found@ == Seq::new(
                    shape@.len(),
                    |d: int| global[d] as usize,
                ),
                None => !inside,
            }
        }),
{
    let n = shape.len();
    let ghost global = global_of(key@, chunk_shape@, local@);
    let mut index: Vec<usize> = Vec::new();
    let mut d: usize = 0;
    while d < n
        invariant
            d <= n,
            n == shape@.len(),
            n == chunk_shape@.len(),
            n == key@.len(),
            n == local@.len(),
            global == global_of(key@, chunk_shape@, local@),
            index@.len() == d,
            forall|e: int| 0 <= e < d ==> global[e] < shape@[e] && index@[e] == global[e],
        decreases n - d,
    {
        let start = match key[d].checked_mul(chunk_shape[d]) {
            Some(start) => start,
            None => {
                proof {
                    assert(!(global[d as int] < shape@[d as int]));
                }
                return None;
            },
        };
        let at = match start.checked_add(local[d]) {
            Some(at) => at,
            None => {
                proof {
                    assert(!(global[d as int] < shape@[d as int]));
                }
                return None;
            },
        };
        if at >= shape[d] {
            proof {
                assert(!(global[d as int] < shape@[d as int]));
            }
            return None;
        }
        index.push(at);
        d += 1;
    }
    proof {
        assert(index@ =~= Seq::new(shape@.len(), |d: int| global[d] as usize));
    }
    Some(index)
}

/// Whether every key has the given dimensionality.
fn keys_have_rank(keys: &Vec<Vec<usize>>, rank: usize) -> (all: bool)
    ensures
        all == forall|c: int| 0 <= c < keys@.len() ==> (#[trigger] keys@[c])@.len() == rank,
{
    let mut c: usize = 0;
    while c < keys.len()
        invariant
            c <= keys@.len(),
            forall|b: int| 0 <= b < c ==> (#[trigger] keys@[b])@.len() == rank,
        decreases keys@.len() - c,
    {
        if keys[c].len() != rank {
            return false;
        }
        c += 1;
    }
    true
}

/// Lays chunks over an array and tells, for each flat position, which
/// chunk supplies it and which of the chunk's elements.
///
/// `keys` holds the grid coordinates of the chunks and `lens` the number
/// of elements that each chunk has.
pub fn merge_plan(
    keys: &Vec<Vec<usize>>,
    lens: &Vec<usize>,
    shape: &[usize],
    chunk_shape: &[usize],
    order: ArrayOrder,
) -> (result: ZarrResult<Vec<Option<(usize, usize)>>>)
    ensures
        match plan_error(shape@, chunk_shape@, key_lists(keys@), lens@) {
            Some(kind) => result matches Err(e) && e.kind() == kind,
            None => result matches Ok(plan) && plan@ == plan_of(
                shape@,
                chunk_shape@,
                order,
                key_lists(keys@),
                lens@,
            ),
        },
{
    if shape.len() != chunk_shape.len() {
        return Err(
            ZarrError::Metadata(
                String::from_str("shape and chunk shape differ in dimensionality"),
            ),
        );
    }
    if keys.len() != lens.len() {
        return Err(ZarrError::Other(String::from_str("one length per chunk key is needed")));
    }
    let total = match checked_product(shape) {
        Some(total) => total,
        None => {
            return Err(ZarrError::Other(String::from_str("array has too many elements")));
        },
    };
    if !keys_have_rank(keys, shape.len()) {
        proof {
            let c = choose|c: int| 0 <= c < keys@.len() && (#[trigger] keys@[c])@.len() != shape@.len();
            assert(key_lists(keys@)[c].len() != shape@.len());
        }
        return Err(
            ZarrError::Other(String::from_str("Key dimensionality must match array shape")),
        );
    }
    proof {
        assert forall|c: int| 0 <= c < key_lists(keys@).len() implies (#[trigger] key_lists(
            keys@,
        )[c]).len() == shape@.len() by {
            assert(keys@[c]@.len() == shape@.len());
        }
    }
    let mut plan: Vec<Option<(usize, usize)>> = Vec::new();
    let mut p: usize = 0;
    while p < total
        invariant
            p <= total,
            plan@.len() == p,
            forall|q: int| 0 <= q < p ==> plan@[q] is None,
        decreases total - p,
    {
        plan.push(None);
        p += 1;
    }
    if total == 0 {
        proof {
            assert(plan@ =~= plan_of(shape@, chunk_shape@, order, key_lists(keys@), lens@));
        }
        return Ok(plan);
    }
    proof {
        if !all_positive(shape@) {
            let d = choose|d: int| 0 <= d < shape@.len() && !(shape@[d] >= 1);
            lemma_product_zero(shape@, d);
        }
        assert forall|d: int| 0 <= d < shape@.len() implies stride(shape@, order, d)
            <= usize::MAX by {
            lemma_stride_bound(shape@, order, d);
        }
    }
    let weights = strides(shape, order);
    let chunk_total = if has_zero_extent(chunk_shape) {
        proof {
            let d = choose|d: int| 0 <= d < chunk_shape@.len() && !(chunk_shape@[d] >= 1);
            lemma_product_zero(chunk_shape@, d);
        }
        Some(0)
    } else {
        checked_product(chunk_shape)
    };
    let mut c: usize = 0;
    while c < keys.len()
        invariant
            c <= keys@.len(),
            keys@.len() == lens@.len(),
            shape@.len() == chunk_shape@.len(),
            forall|b: int| 0 <= b < keys@.len() ==> (#[trigger] keys@[b])@.len() == shape@.len(),
            total == shape_product(shape@),
            total > 0,
            all_positive(shape@),
            weights@.len() == shape@.len(),
            forall|d: int| 0 <= d < shape@.len() ==> weights@[d] == stride(shape@, order, d),
            chunk_total == if shape_product(chunk_shape@) <= usize::MAX {
                Some(shape_product(chunk_shape@) as usize)
            } else {
                None::<usize>
            },
            chunk_total != Some(0usize) ==> all_positive(chunk_shape@),
            plan@.len() == total,
            forall|q: int|
                0 <= q < total ==> #[trigger] plan@[q] == last_source(
                    shape@,
                    chunk_shape@,
                    order,
                    key_lists(keys@),
                    lens@,
                    c as int,
                    q as nat,
                ),
        decreases keys@.len() - c,
    {
        let key = &keys[c];
        let len = lens[c];
        let count = match chunk_total {
            Some(t) => if t < len {
                t
            } else {
                len
            },
            None => len,
        };
        let ghost before = plan@;
        if count > 0 {
            let inner = checked_strides(chunk_shape);
            let mut j: usize = 0;
            while j < count
                invariant
                    j <= count,
                    count <= len,
                    count <= shape_product(chunk_shape@),
                    count == len || count == shape_product(chunk_shape@),
                    c < keys@.len(),
                    key@ == keys@[c as int]@,
                    key@.len() == shape@.len(),
                    shape@.len() == chunk_shape@.len(),
                    all_positive(chunk_shape@),
                    all_positive(shape@),
                    total == shape_product(shape@),
                    weights@.len() == shape@.len(),
                    forall|d: int|
                        0 <= d < shape@.len() ==> weights@[d] == stride(shape@, order, d),
                    inner@.len() == chunk_shape@.len(),
                    forall|d: int|
                        0 <= d < chunk_shape@.len() ==> match #[trigger] inner@[d] {
                            Some(s) => s == stride(chunk_shape@, ArrayOrder::C, d),
                            None => stride(chunk_shape@, ArrayOrder::C, d) > usize::MAX,
                        },
                    plan@.len() == total,
                    before.len() == total,
                    forall|q: int|
                        0 <= q < total ==> #[trigger] plan@[q] == match chunk_source(
                            shape@,
                            chunk_shape@,
                            order,
                            key@,
                            len,
                            q as nat,
                        ) {
                            Some(within) if within < j => Some((c, within)),
                            _ => before[q],
                        },
                decreases count - j,
            {
                let local = unravel_index(chunk_shape, &inner, j);
                proof {
                    lemma_unravel_in_bounds(chunk_shape@, j as nat);
                    lemma_chunk_step(shape@, chunk_shape@, order, key@, len, j as nat);
                }
                match global_index(shape, chunk_shape, key, &local) {
                    Some(index) => {
                        proof {
                            assert(strides_of(shape@, order).len() == weights@.len());
                        }
                        let flat = weighted_sum(
                            index.as_slice(),
                            weights.as_slice(),
                            Ghost(strides_of(shape@, order)),
                        );
                        plan.set(flat, Some((c, j)));
                    },
                    None => {},
                }
                j += 1;
            }
        }
        proof {
            assert(key_lists(keys@)[c as int] == key@);
            assert forall|q: int| 0 <= q < total implies #[trigger] plan@[q] == last_source(
                shape@,
                chunk_shape@,
                order,
                key_lists(keys@),
                lens@,
                c + 1,
                q as nat,
            ) by {
                let source = chunk_source(shape@, chunk_shape@, order, key@, len, q as nat);
                if source is Some {
                    lemma_chunk_source_bound(shape@, chunk_shape@, order, key@, len, q as nat);
                }
            }
        }
        c += 1;
    }
    proof {
        assert(plan@ =~= plan_of(shape@, chunk_shape@, order, key_lists(keys@), lens@));
    }
    Ok(plan)
}

/// The grid coordinates of the chunk that holds a multi-index: each entry
/// divided by the chunk extent.
pub open spec fn chunk_of(chunk_shape: Seq<usize>, index: Seq<usize>) -> Seq<usize> {
    Seq::new(index.len(), |d: int| (index[d] as int / chunk_shape[d] as int) as usize)
}

/// Two chunks that cover the same multi-index are the same chunk: the
/// rectangles of different chunks do not meet.
pub proof fn lemma_chunks_are_disjoint(
    first: Seq<usize>,
    second: Seq<usize>,
    chunk_shape: Seq<usize>,
    index: Seq<usize>,
)
    requires
        first.len() == index.len(),
        second.len() == index.len(),
        chunk_shape.len() == index.len(),
        covers(first, chunk_shape, index),
        covers(second, chunk_shape, index),
    ensures
        first == second,
{
    assert forall|d: int| 0 <= d < index.len() implies first[d] == second[d] by {
        let a = first[d] as int;
        let b = second[d] as int;
        let c = chunk_shape[d] as int;
        let g = index[d] as int;
        assert(a * c <= g < a * c + c);
        assert(b * c <= g < b * c + c);
        assert(a == b) by (nonlinear_arith)
            requires
                a * c <= g < a * c + c,
                b * c <= g < b * c + c,
                a >= 0,
                b >= 0,
        ;
    }
    assert(first =~= second);
}

/// Every multi-index within the array is covered by a chunk of the chunk
/// grid: the one whose coordinates are the entries divided by the chunk
/// extents.
pub proof fn lemma_every_element_is_covered(
    shape: Seq<usize>,
    chunk_shape: Seq<usize>,
    index: Seq<usize>,
)
    requires
        shape.len() == chunk_shape.len(),
        all_positive(chunk_shape),
        in_bounds(shape, index),
    ensures
        covers(chunk_of(chunk_shape, index), chunk_shape, index),
        in_bounds(crate::metadata::v2::chunk_grid(shape, chunk_shape), chunk_of(chunk_shape, index)),
{
    let key = chunk_of(chunk_shape, index);
    let grid = crate::metadata::v2::chunk_grid(shape, chunk_shape);
    assert(grid.len() == shape.len());
    assert(key.len() == index.len());
    assert forall|d: int| 0 <= d < index.len() implies key[d] * chunk_shape[d] <= #[trigger] index[d]
        < key[d] * chunk_shape[d] + chunk_shape[d] && key[d] < grid[d] by {
        let c = chunk_shape[d] as int;
        let g = index[d] as int;
        let n = shape[d] as int;
        assert(chunk_shape[d] >= 1);
        assert(g < n);
        assert(key[d] == g / c);
        assert(grid[d] == crate::metadata::v2::chunk_count(shape[d], chunk_shape[d]));
        vstd::arithmetic::div_mod::lemma_fundamental_div_mod(g, c);
        vstd::arithmetic::div_mod::lemma_fundamental_div_mod(n, c);
        assert(0 <= g % c < c) by (nonlinear_arith)
            requires
                c >= 1,
        ;
        assert(0 <= n % c < c) by (nonlinear_arith)
            requires
                c >= 1,
        ;
        assert((g / c) * c == c * (g / c)) by (nonlinear_arith);
        assert(0 <= n / c <= n) by (nonlinear_arith)
            requires
                c >= 1,
                n >= 0,
                n == c * (n / c) + n % c,
                0 <= n % c,
        ;
        assert(g / c <= n / c) by (nonlinear_arith)
            requires
                c >= 1,
                0 <= g < n,
                g == c * (g / c) + g % c,
                n == c * (n / c) + n % c,
                0 <= g % c < c,
                0 <= n % c < c,
        ;
        if n % c == 0 {
            assert(g / c < n / c) by (nonlinear_arith)
                requires
                    0 <= g < n,
                    c >= 1,
                    n == c * (n / c),
                    g == c * (g / c) + g % c,
                    0 <= g % c,
            ;
        } else {
            assert(n / c < n) by (nonlinear_arith)
                requires
                    c >= 1,
                    n >= 0,
                    n == c * (n / c) + n % c,
                    n % c > 0,
            ;
        }
    }
}

} // verus!
