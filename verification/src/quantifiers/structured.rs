//! Checks that depend on the order of one sequence, and the elements that
//! fail a predicate.

use crate::error::{QuantorError, QuantorKind};
use crate::predicate::{
    callable_on, callable_on_neighbours, computes, computes_on_neighbours, is_first, negate,
};
use vstd::prelude::*;

verus! {

/// The adjacent pairs of `xs` in order: `(xs[0], xs[1])`, `(xs[1], xs[2])` and
/// so on. A sequence of fewer than two elements has none.
pub open spec fn adjacent_pairs<T>(xs: Seq<T>) -> Seq<(T, T)> {
    Seq::new(
        if xs.len() == 0 {
            0nat
        } else {
            (xs.len() - 1) as nat
        },
        |i: int| (xs[i], xs[i + 1]),
    )
}

/// The predicate on a pair that `q` is on its two components.
pub open spec fn on_pair<T>(q: spec_fn(T, T) -> bool) -> spec_fn((T, T)) -> bool {
    |pair: (T, T)| q(pair.0, pair.1)
}

/// `r` is the result of checking `q` on every adjacent pair of `xs`: success
/// when all pairs satisfy it, otherwise `PairwiseFailed` with the position of
/// the first failing pair among the pairs, which is the position in `xs` of
/// that pair's first element.
pub open spec fn pairwise_outcome<T>(
    xs: Seq<T>,
    q: spec_fn(T, T) -> bool,
    r: Result<(), QuantorError>,
) -> bool {
    &&& r is Ok <==> adjacent_pairs(xs).all(on_pair(q))
    &&& r matches Err(e) ==> {
        &&& e matches QuantorError::PairwiseFailed { kind, index }
        &&& kind == QuantorKind::Pairwise
        &&& is_first(adjacent_pairs(xs), negate(on_pair(q)), index as int)
    }
}

/// Checks that every element of `xs` satisfies `pred` together with its
/// successor, taking the pairs in order up to the first that fails.
#[must_use]
pub fn pairwise<T, F: Fn(&T, &T) -> bool>(xs: &[T], pred: F) -> (r: Result<(), QuantorError>)
    requires
        callable_on_neighbours(pred, xs@),
    ensures
        forall|q: spec_fn(T, T) -> bool| #[trigger]
            computes_on_neighbours(pred, xs@, q) ==> pairwise_outcome(xs@, q, r),
{
    if xs.len() == 0 {
        return Ok(());
    }
    let mut i: usize = 0;
    while i + 1 < xs.len()
        invariant
            i < xs@.len(),
            callable_on_neighbours(pred, xs@),
            forall|q: spec_fn(T, T) -> bool| #[trigger]
                computes_on_neighbours(pred, xs@, q) ==> forall|k: int|
                    0 <= k < i ==> #[trigger] on_pair(q)(adjacent_pairs(xs@)[k]),
        decreases xs.len() - i,
    {
        if !pred(&xs[i], &xs[i + 1]) {
            proof {
                assert forall|q: spec_fn(T, T) -> bool| #[trigger]
                    computes_on_neighbours(pred, xs@, q) implies is_first(
                    adjacent_pairs(xs@),
                    negate(on_pair(q)),
                    i as int,
                ) by {
                    assert(!q(xs@[i as int], xs@[i + 1]));
                    assert forall|k: int| 0 <= k < i implies !negate(on_pair(q))(
                        #[trigger] adjacent_pairs(xs@)[k],
                    ) by {
                        assert(on_pair(q)(adjacent_pairs(xs@)[k]));
                    }
                }
            }
            return Err(QuantorError::PairwiseFailed { kind: QuantorKind::Pairwise, index: i });
        }
        proof {
            assert forall|q: spec_fn(T, T) -> bool| #[trigger]
                computes_on_neighbours(pred, xs@, q) implies on_pair(q)(
                adjacent_pairs(xs@)[i as int],
            ) by {
                assert(q(xs@[i as int], xs@[i + 1]));
            }
        }
        i += 1;
    }
    Ok(())
}

/// The elements of `xs` that do not satisfy `pred`, in their order and as
/// often as they occur. An empty result says that all satisfy it.
#[must_use]
pub fn failing_elements<'a, T, F: Fn(&T) -> bool>(xs: &'a [T], pred: F) -> (r: Vec<&'a T>)
    requires
        callable_on(pred, xs@),
    ensures
        forall|p: spec_fn(T) -> bool| #[trigger]
            computes(pred, xs@, p) ==> r@.unref() == xs@.filter(negate(p)),
{
    let mut out: Vec<&'a T> = Vec::new();
    let mut i: usize = 0;
    while i < xs.len()
        invariant
            i <= xs@.len(),
            callable_on(pred, xs@),
            forall|p: spec_fn(T) -> bool| #[trigger]
                computes(pred, xs@, p) ==> out@.unref() == xs@.take(i as int).filter(negate(p)),
        decreases xs.len() - i,
    {
        let ghost before = out@;
        let keep = !pred(&xs[i]);
        if keep {
            out.push(&xs[i]);
        }
        proof {
            assert forall|p: spec_fn(T) -> bool| #[trigger] computes(pred, xs@, p) implies out@.unref()
                == xs@.take(i + 1).filter(negate(p)) by {
                assert(keep == negate(p)(xs@[i as int]));
                assert(xs@.take(i + 1) == xs@.take(i as int).push(xs@[i as int]));
                xs@.take(i as int).lemma_filter_push(xs@[i as int], negate(p));
                if keep {
                    assert(out@.unref() == before.unref().push(xs@[i as int]));
                }
            }
        }
        i += 1;
    }
    proof {
        assert(xs@.take(i as int) == xs@);
    }
    out
}

} // verus!
