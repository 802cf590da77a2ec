//! Element counts of N-dimensional shapes.

use vstd::prelude::*;

verus! {

/// Number of elements of an array with the given extents: their product,
/// which is 1 for the empty shape.
pub open spec fn shape_product(shape: Seq<usize>) -> nat
    decreases shape.len(),
{
    if shape.len() == 0 {
        1
    } else {
        shape[0] as nat * shape_product(shape.drop_first())
    }
}

/// Whether every extent is at least one.
pub open spec fn all_positive(shape: Seq<usize>) -> bool {
    forall|d: int| 0 <= d < shape.len() ==> shape[d] >= 1
}

/// A shape with a zero extent has no elements.
pub proof fn lemma_product_zero(shape: Seq<usize>, d: int)
    requires
        0 <= d < shape.len(),
        shape[d] == 0,
    ensures
        shape_product(shape) == 0,
    decreases shape.len(),
{
    if d > 0 {
        lemma_product_zero(shape.drop_first(), d - 1);
        assert(shape[0] as nat * 0 == 0);
    }
}

/// A shape without zero extents has at least one element.
pub proof fn lemma_product_positive(shape: Seq<usize>)
    requires
        all_positive(shape),
    ensures
        shape_product(shape) >= 1,
    decreases shape.len(),
{
    if shape.len() > 0 {
        let rest = shape.drop_first();
        assert(all_positive(rest)) by {
            assert forall|d: int| 0 <= d < rest.len() implies rest[d] >= 1 by {
                assert(rest[d] == shape[d + 1]);
            }
        }
        lemma_product_positive(rest);
        assert(shape[0] as nat * shape_product(rest) >= 1) by (nonlinear_arith)
            requires
                shape[0] >= 1,
                shape_product(rest) >= 1,
        ;
    }
}

/// The element count of a shape is the count of its first `k` dimensions
/// times the count of the others.
pub proof fn lemma_product_split(shape: Seq<usize>, k: int)
    requires
        0 <= k <= shape.len(),
    ensures
        shape_product(shape) == shape_product(shape.take(k)) * shape_product(shape.skip(k)),
    decreases k,
{
    if k == 0 {
        assert(shape.take(0).len() == 0);
        assert(shape.skip(0) =~= shape);
    } else {
        let rest = shape.drop_first();
        lemma_product_split(rest, k - 1);
        assert(rest.take(k - 1) =~= shape.take(k).drop_first());
        assert(rest.skip(k - 1) =~= shape.skip(k));
        assert(shape.take(k)[0] == shape[0]);
        let a = shape[0] as nat;
        let b = shape_product(rest.take(k - 1));
        let c = shape_product(shape.skip(k));
        assert(a * (b * c) == (a * b) * c) by (nonlinear_arith);
    }
}

/// Appending one dimension multiplies the element count by its extent.
pub proof fn lemma_product_push(shape: Seq<usize>, extent: usize)
    ensures
        shape_product(shape.push(extent)) == shape_product(shape) * extent,
{
    let whole = shape.push(extent);
    let k = shape.len() as int;
    lemma_product_split(whole, k);
    assert(whole.take(k) =~= shape);
    let last = whole.skip(k);
    assert(last.len() == 1);
    assert(last[0] == extent);
    assert(last.drop_first().len() == 0);
    assert(shape_product(last.drop_first()) == 1);
    assert(shape_product(last) == extent as nat * 1);
}

/// Whether some extent of the shape is zero.
pub fn has_zero_extent(shape: &[usize]) -> (found: bool)
    ensures
        found == !all_positive(shape@),
{
    let mut d: usize = 0;
    while d < shape.len()
        invariant
            d <= shape.len(),
            forall|e: int| 0 <= e < d ==> shape@[e] >= 1,
        decreases shape.len() - d,
    {
        if shape[d] == 0 {
            return true;
        }
        d += 1;
    }
    false
}

/// The element count of a shape, or `None` when it does not fit in `usize`.
pub fn checked_product(shape: &[usize]) -> (count: Option<usize>)
    ensures
        count == if shape_product(shape@) <= usize::MAX {
            Some(shape_product(shape@) as usize)
        } else {
            None::<usize>
        },
{
    if has_zero_extent(shape) {
        proof {
            let d = choose|d: int| 0 <= d < shape@.len() && !(shape@[d] >= 1);
            lemma_product_zero(shape@, d);
        }
        return Some(0);
    }
    let n = shape.len();
    let mut d: usize = n;
    let mut acc: usize = 1;
    proof {
        assert(shape@.skip(n as int).len() == 0);
    }
    while d > 0
        invariant
            d <= n,
            n == shape@.len(),
            all_positive(shape@),
            acc == shape_product(shape@.skip(d as int)),
        decreases d,
    {
        let ghost tail = shape@.skip(d as int);
        let ghost longer = shape@.skip(d - 1);
        proof {
            assert(longer.drop_first() =~= tail);
            assert(longer[0] == shape@[d - 1]);
            assert(shape_product(longer) == shape@[d - 1] as nat * acc as nat);
        }
        match shape[d - 1].checked_mul(acc) {
            Some(next) => {
                acc = next;
            },
            None => {
                proof {
                    lemma_product_split(shape@, d - 1);
                    let head = shape@.take(d - 1);
                    assert(all_positive(head));
                    lemma_product_positive(head);
                    assert(shape_product(head) * shape_product(longer) >= shape_product(longer))
                        by (nonlinear_arith)
                        requires
                            shape_product(head) >= 1,
                    ;
                }
                return None;
            },
        }
        d -= 1;
    }
    proof {
        assert(shape@.skip(0) =~= shape@);
    }
    Some(acc)
}

/// The multi-index of the `k`-th position of a shape, counting with the
/// last dimension fastest.
pub open spec fn unravel(shape: Seq<usize>, k: nat) -> Seq<usize>
    decreases shape.len(),
{
    if shape.len() == 0 {
        Seq::empty()
    } else {
        let inner = shape_product(shape.drop_first());
        seq![(k / inner) as usize] + unravel(shape.drop_first(), k % inner)
    }
}

/// All multi-indices within a shape, in lexicographic order.
pub open spec fn cartesian(shape: Seq<usize>) -> Seq<Seq<usize>> {
    Seq::new(shape_product(shape), |k: int| unravel(shape, k as nat))
}

/// Whether a multi-index has the shape's dimensionality and lies within it.
pub open spec fn in_bounds(shape: Seq<usize>, index: Seq<usize>) -> bool {
    index.len() == shape.len() && forall|d: int| 0 <= d < shape.len() ==> index[d] < shape[d]
}

/// The `k`-th multi-index of a shape lies within the shape.
pub proof fn lemma_unravel_in_bounds(shape: Seq<usize>, k: nat)
    requires
        k < shape_product(shape),
    ensures
        in_bounds(shape, unravel(shape, k)),
    decreases shape.len(),
{
    if shape.len() > 0 {
        let rest = shape.drop_first();
        let inner = shape_product(rest);
        assert(inner > 0) by (nonlinear_arith)
            requires
                k < shape[0] as nat * inner,
        ;
        assert(k / inner < shape[0]) by (nonlinear_arith)
            requires
                k < shape[0] as nat * inner,
                inner > 0,
        ;
        assert(k % inner < inner) by (nonlinear_arith)
            requires
                inner > 0,
        ;
        lemma_unravel_in_bounds(rest, k % inner);
        let index = unravel(shape, k);
        assert forall|d: int| 0 <= d < shape.len() implies index[d] < shape[d] by {
            if d > 0 {
                assert(index[d] == unravel(rest, k % inner)[d - 1]);
                assert(rest[d - 1] == shape[d]);
            }
        }
    }
}

/// Position `i * inner + r` of a shape, where `inner` is the element count
/// of the dimensions after the first, has the multi-index `i` followed by
/// the multi-index of `r` in those dimensions.
pub proof fn lemma_unravel_step(shape: Seq<usize>, i: nat, r: nat)
    requires
        shape.len() > 0,
        i <= usize::MAX,
        r < shape_product(shape.drop_first()),
    ensures
        unravel(shape, i * shape_product(shape.drop_first()) + r) == seq![i as usize] + unravel(
            shape.drop_first(),
            r,
        ),
{
    let inner = shape_product(shape.drop_first());
    let k = i * inner + r;
    vstd::arithmetic::div_mod::lemma_fundamental_div_mod_converse(
        k as int,
        inner as int,
        i as int,
        r as int,
    );
}

} // verus!
