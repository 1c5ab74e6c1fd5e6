//! Checks of one binary predicate over a left and a right sequence.

use crate::error::{QuantorError, QuantorKind};
use crate::predicate::{callable_on_pairs, computes_on_pairs, is_first, negate};
use vstd::prelude::*;

verus! {

/// The predicate on a left element: some element of `ys` satisfies `q` with it.
pub open spec fn some_partner<A, B>(ys: Seq<B>, q: spec_fn(A, B) -> bool) -> spec_fn(A) -> bool {
    |x: A| exists|j: int| 0 <= j < ys.len() && #[trigger] q(x, ys[j])
}

/// The predicate on a left element: every element of `ys` satisfies `q` with
/// it.
pub open spec fn every_partner<A, B>(ys: Seq<B>, q: spec_fn(A, B) -> bool) -> spec_fn(A) -> bool {
    |x: A| forall|j: int| 0 <= j < ys.len() ==> #[trigger] q(x, ys[j])
}

/// `r` is the result of checking that every element of `xs` has a partner in
/// `ys` under `q`: success when each has one, otherwise `ForAllExistsFailed`
/// at the first element of `xs` that has none.
///
/// An empty `xs` succeeds; an empty `ys` under a non-empty `xs` fails at 0.
pub open spec fn forallexists_outcome<A, B>(
    xs: Seq<A>,
    ys: Seq<B>,
    q: spec_fn(A, B) -> bool,
    r: Result<(), QuantorError>,
) -> bool {
    &&& r is Ok <==> xs.all(some_partner(ys, q))
    &&& r matches Err(e) ==> {
        &&& e matches QuantorError::ForAllExistsFailed { kind, outer_index }
        &&& kind == QuantorKind::ForAllExists
        &&& is_first(xs, negate(some_partner(ys, q)), outer_index as int)
    }
}

/// `r` is the result of checking that some element of `xs` satisfies `q` with
/// every element of `ys`: success when there is one, otherwise
/// `ExistsForAllFailed`, whose outer index is always 0.
///
/// An empty `xs` fails; an empty `ys` under a non-empty `xs` succeeds.
pub open spec fn existsforall_outcome<A, B>(
    xs: Seq<A>,
    ys: Seq<B>,
    q: spec_fn(A, B) -> bool,
    r: Result<(), QuantorError>,
) -> bool {
    &&& r is Ok <==> xs.any(every_partner(ys, q))
    &&& r matches Err(e) ==> e == (QuantorError::ExistsForAllFailed {
        kind: QuantorKind::ExistsForAll,
        outer_index: 0,
    })
}

/// Looks for the first element of `ys` on which `pred` answers `want` when
/// called with `x` on the left. Returns its position, or `ys.len()` if there
/// is none.
fn first_answer<A, B, F: Fn(&A, &B) -> bool>(x: &A, ys: &[B], pred: &F, want: bool) -> (j: usize)
    requires
        forall|k: int| 0 <= k < ys@.len() ==> pred.requires((x, &#[trigger] ys@[k])),
    ensures
        j <= ys@.len(),
        forall|k: int| 0 <= k < j ==> pred.ensures((x, &#[trigger] ys@[k]), !want),
        j < ys@.len() ==> pred.ensures((x, &ys@[j as int]), want),
{
    let mut j: usize = 0;
    while j < ys.len()
        invariant
            j <= ys@.len(),
            forall|k: int| 0 <= k < ys@.len() ==> pred.requires((x, &#[trigger] ys@[k])),
            forall|k: int| 0 <= k < j ==> pred.ensures((x, &#[trigger] ys@[k]), !want),
        decreases ys.len() - j,
    {
        if pred(x, &ys[j]) == want {
            return j;
        }
        j += 1;
    }
    j
}

/// Checks that for every element of `a` some element of `b` satisfies `pred`
/// with it.
///
/// Elements of `a` are taken in order, and for each the elements of `b` in
/// order up to the first partner.
#[must_use]
pub fn forallexists<A, B, F: Fn(&A, &B) -> bool>(a: &[A], b: &[B], pred: F) -> (r: Result<
    (),
    QuantorError,
>)
    requires
        callable_on_pairs(pred, a@, b@),
    ensures
        forall|q: spec_fn(A, B) -> bool| #[trigger]
            computes_on_pairs(pred, a@, b@, q) ==> forallexists_outcome(a@, b@, q, r),
{
    let mut i: usize = 0;
    while i < a.len()
        invariant
            i <= a@.len(),
            callable_on_pairs(pred, a@, b@),
            forall|q: spec_fn(A, B) -> bool| #[trigger]
                computes_on_pairs(pred, a@, b@, q) ==> a@.take(i as int).all(some_partner(b@, q)),
        decreases a.len() - i,
    {
        let j = first_answer(&a[i], b, &pred, true);
        proof {
            assert forall|q: spec_fn(A, B) -> bool| #[trigger]
                computes_on_pairs(pred, a@, b@, q) implies (j < b@.len()) == some_partner(b@, q)(
                a@[i as int],
            ) by {
                if j < b@.len() {
                    assert(q(a@[i as int], b@[j as int]));
                } else {
                    assert forall|k: int| 0 <= k < b@.len() implies !#[trigger] q(
                        a@[i as int],
                        b@[k],
                    ) by {
                        assert(pred.ensures((&a@[i as int], &b@[k]), false));
                    }
                }
            }
        }
        if j == b.len() {
            proof {
                assert forall|q: spec_fn(A, B) -> bool| #[trigger]
                    computes_on_pairs(pred, a@, b@, q) implies is_first(
                    a@,
                    negate(some_partner(b@, q)),
                    i as int,
                ) by {
                    assert forall|k: int| 0 <= k < i implies !negate(some_partner(b@, q))(
                        #[trigger] a@[k],
                    ) by {
                        assert(some_partner(b@, q)(a@.take(i as int)[k]));
                    }
                }
            }
            return Err(QuantorError::ForAllExistsFailed {
                kind: QuantorKind::ForAllExists,
                outer_index: i,
            });
        }
        proof {
            assert forall|q: spec_fn(A, B) -> bool| #[trigger]
                computes_on_pairs(pred, a@, b@, q) implies a@.take(i + 1).all(
                some_partner(b@, q),
            ) by {
                assert forall|k: int| 0 <= k < i + 1 implies #[trigger] some_partner(b@, q)(
                    a@.take(i + 1)[k],
                ) by {
                    if k < i {
                        assert(some_partner(b@, q)(a@.take(i as int)[k]));
                    }
                }
            }
        }
        i += 1;
    }
    proof {
        assert(a@.take(i as int) == a@);
    }
    Ok(())
}

/// Checks that some element of `a` satisfies `pred` with every element of `b`.
///
/// Elements of `a` are taken in order up to the first that does, and for each
/// the elements of `b` in order up to the first that fails.
#[must_use]
pub fn existsforall<A, B, F: Fn(&A, &B) -> bool>(a: &[A], b: &[B], pred: F) -> (r: Result<
    (),
    QuantorError,
>)
    requires
        callable_on_pairs(pred, a@, b@),
    ensures
        forall|q: spec_fn(A, B) -> bool| #[trigger]
            computes_on_pairs(pred, a@, b@, q) ==> existsforall_outcome(a@, b@, q, r),
{
    let mut i: usize = 0;
    while i < a.len()
        invariant
            i <= a@.len(),
            callable_on_pairs(pred, a@, b@),
            forall|q: spec_fn(A, B) -> bool| #[trigger]
                computes_on_pairs(pred, a@, b@, q) ==> !a@.take(i as int).any(
                    every_partner(b@, q),
                ),
        decreases a.len() - i,
    {
        let j = first_answer(&a[i], b, &pred, false);
        proof {
            assert forall|q: spec_fn(A, B) -> bool| #[trigger]
                computes_on_pairs(pred, a@, b@, q) implies (j == b@.len()) == every_partner(b@, q)(
                a@[i as int],
            ) by {
                if j < b@.len() {
                    assert(!q(a@[i as int], b@[j as int]));
                } else {
                    assert forall|k: int| 0 <= k < b@.len() implies #[trigger] q(
                        a@[i as int],
                        b@[k],
                    ) by {
                        assert(pred.ensures((&a@[i as int], &b@[k]), true));
                    }
                }
            }
        }
        if j == b.len() {
            proof {
                assert forall|q: spec_fn(A, B) -> bool| #[trigger]
                    computes_on_pairs(pred, a@, b@, q) implies a@.any(every_partner(b@, q)) by {
                    assert(every_partner(b@, q)(a@[i as int]));
                }
            }
            return Ok(());
        }
        proof {
            assert forall|q: spec_fn(A, B) -> bool| #[trigger]
                computes_on_pairs(pred, a@, b@, q) implies !a@.take(i + 1).any(
                every_partner(b@, q),
            ) by {
                assert forall|k: int| 0 <= k < i + 1 implies !#[trigger] every_partner(b@, q)(
                    a@.take(i + 1)[k],
                ) by {
                    if k < i {
                        assert(!every_partner(b@, q)(a@.take(i as int)[k]));
                    }
                }
            }
        }
        i += 1;
    }
    proof {
        assert(a@.take(i as int) == a@);
    }
    Err(QuantorError::ExistsForAllFailed { kind: QuantorKind::ExistsForAll, outer_index: 0 })
}

} // verus!
