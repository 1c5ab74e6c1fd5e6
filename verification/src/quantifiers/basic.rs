//! Checks of one predicate over one sequence, and of the equality of its
//! elements.

use crate::equality::{all_same, lawful_eq, lemma_all_same_iff_same_as_first, same};
use crate::error::{QuantorError, QuantorKind};
use crate::predicate::{callable_on, computes, is_first, is_second, negate};
use vstd::prelude::*;
use vstd::std_specs::cmp::PartialEqSpec;

verus! {

/// `r` is the result of checking that every element of `xs` satisfies `p`:
/// success when all do, which an empty sequence does, otherwise
/// `PredicateFailed` at the first element that does not.
pub open spec fn for_all_outcome<T>(
    xs: Seq<T>,
    p: spec_fn(T) -> bool,
    r: Result<(), QuantorError>,
) -> bool {
    &&& r is Ok <==> xs.all(p)
    &&& r matches Err(e) ==> {
        &&& e matches QuantorError::PredicateFailed { kind, index }
        &&& kind == QuantorKind::Forall
        &&& is_first(xs, negate(p), index as int)
    }
}

/// Checks that every element of `xs` satisfies `pred`, in order up to the
/// first that does not.
#[must_use]
pub fn for_all<T, F: Fn(&T) -> bool>(xs: &[T], pred: F) -> (r: Result<(), QuantorError>)
    requires
        callable_on(pred, xs@),
    ensures
        forall|p: spec_fn(T) -> bool| #[trigger]
            computes(pred, xs@, p) ==> for_all_outcome(xs@, p, r),
{
    let mut i: usize = 0;
    while i < xs.len()
        invariant
            i <= xs@.len(),
            callable_on(pred, xs@),
            forall|k: int| 0 <= k < i ==> pred.ensures((&#[trigger] xs@[k],), true),
        decreases xs.len() - i,
    {
        if !pred(&xs[i]) {
            proof {
                assert forall|p: spec_fn(T) -> bool| #[trigger]
                    computes(pred, xs@, p) implies is_first(xs@, negate(p), i as int) by {
                    assert(!p(xs@[i as int]));
                }
            }
            return Err(QuantorError::PredicateFailed { kind: QuantorKind::Forall, index: i });
        }
        i += 1;
    }
    Ok(())
}

/// `r` is the result of checking that some element of `xs` satisfies `p`:
/// success when one does, otherwise `NoMatch`, which an empty sequence gives.
pub open spec fn there_exists_outcome<T>(
    xs: Seq<T>,
    p: spec_fn(T) -> bool,
    r: Result<(), QuantorError>,
) -> bool {
    &&& r is Ok <==> xs.any(p)
    &&& r matches Err(e) ==> e == (QuantorError::NoMatch { kind: QuantorKind::Exists })
}

/// Checks that some element of `xs` satisfies `pred`, in order up to the first
/// that does.
#[must_use]
pub fn there_exists<T, F: Fn(&T) -> bool>(xs: &[T], pred: F) -> (r: Result<(), QuantorError>)
    requires
        callable_on(pred, xs@),
    ensures
        forall|p: spec_fn(T) -> bool| #[trigger]
            computes(pred, xs@, p) ==> there_exists_outcome(xs@, p, r),
{
    let mut i: usize = 0;
    while i < xs.len()
        invariant
            i <= xs@.len(),
            callable_on(pred, xs@),
            forall|k: int| 0 <= k < i ==> pred.ensures((&#[trigger] xs@[k],), false),
        decreases xs.len() - i,
    {
        if pred(&xs[i]) {
            proof {
                assert forall|p: spec_fn(T) -> bool| #[trigger]
                    computes(pred, xs@, p) implies xs@.any(p) by {
                    assert(p(xs@[i as int]));
                }
            }
            return Ok(());
        }
        i += 1;
    }
    Err(QuantorError::NoMatch { kind: QuantorKind::Exists })
}

/// `r` is the result of checking that no element of `xs` satisfies `p`:
/// success when none does, which an empty sequence does, otherwise
/// `UnexpectedMatch` at the first element that satisfies `p`.
pub open spec fn none_outcome<T>(
    xs: Seq<T>,
    p: spec_fn(T) -> bool,
    r: Result<(), QuantorError>,
) -> bool {
    &&& r is Ok <==> !xs.any(p)
    &&& r matches Err(e) ==> {
        &&& e matches QuantorError::UnexpectedMatch { kind, index }
        &&& kind == QuantorKind::NoneOf
        &&& is_first(xs, p, index as int)
    }
}

/// Checks that no element of `xs` satisfies `pred`, in order up to the first
/// that does.
#[must_use]
pub fn none<T, F: Fn(&T) -> bool>(xs: &[T], pred: F) -> (r: Result<(), QuantorError>)
    requires
        callable_on(pred, xs@),
    ensures
        forall|p: spec_fn(T) -> bool| #[trigger] computes(pred, xs@, p) ==> none_outcome(xs@, p, r),
{
    let mut i: usize = 0;
    while i < xs.len()
        invariant
            i <= xs@.len(),
            callable_on(pred, xs@),
            forall|k: int| 0 <= k < i ==> pred.ensures((&#[trigger] xs@[k],), false),
        decreases xs.len() - i,
    {
        if pred(&xs[i]) {
            proof {
                assert forall|p: spec_fn(T) -> bool| #[trigger]
                    computes(pred, xs@, p) implies is_first(xs@, p, i as int) by {
                    assert(p(xs@[i as int]));
                }
            }
            return Err(QuantorError::UnexpectedMatch { kind: QuantorKind::NoneOf, index: i });
        }
        i += 1;
    }
    Ok(())
}

/// `r` is the result of checking that exactly one element of `xs` satisfies
/// `p`: success when the elements that satisfy `p` number one; `EmptyInput`
/// for an empty sequence; `PredicateFailed` at index 0 when the sequence has
/// elements and none satisfies `p`; otherwise `UnexpectedMatch` at the second
/// element that satisfies `p`.
pub open spec fn exactly_one_outcome<T>(
    xs: Seq<T>,
    p: spec_fn(T) -> bool,
    r: Result<(), QuantorError>,
) -> bool {
    &&& r is Ok <==> xs.filter(p).len() == 1
    &&& r matches Err(e) ==> match e {
        QuantorError::EmptyInput { kind } => kind == QuantorKind::ExactlyOne && xs.len() == 0,
        QuantorError::PredicateFailed { kind, index } => {
            &&& kind == QuantorKind::ExactlyOne
            &&& index == 0
            &&& xs.len() > 0
            &&& xs.filter(p).len() == 0
        },
        QuantorError::UnexpectedMatch { kind, index } => {
            &&& kind == QuantorKind::ExactlyOne
            &&& is_second(xs, p, index as int)
        },
        _ => false,
    }
}

/// Checks that exactly one element of `xs` satisfies `pred`.
///
/// Stops at the second element that satisfies it.
#[must_use]
pub fn exactly_one<T, F: Fn(&T) -> bool>(xs: &[T], pred: F) -> (r: Result<(), QuantorError>)
    requires
        callable_on(pred, xs@),
    ensures
        forall|p: spec_fn(T) -> bool| #[trigger]
            computes(pred, xs@, p) ==> exactly_one_outcome(xs@, p, r),
{
    if xs.len() == 0 {
        return Err(QuantorError::EmptyInput { kind: QuantorKind::ExactlyOne });
    }
    let mut matched: usize = 0;
    let mut i: usize = 0;
    while i < xs.len()
        invariant
            i <= xs.len(),
            matched <= 1,
            callable_on(pred, xs@),
            forall|p: spec_fn(T) -> bool| #[trigger]
                computes(pred, xs@, p) ==> xs@.take(i as int).filter(p).len() == matched,
        decreases xs.len() - i,
    {
        let hit = pred(&xs[i]);
        proof {
            assert forall|p: spec_fn(T) -> bool| #[trigger] computes(pred, xs@, p) implies hit
                == p(xs@[i as int]) && xs@.take(i + 1).filter(p).len() == matched + (if hit {
                1int
            } else {
                0int
            }) by {
                assert(xs@.take(i + 1) == xs@.take(i as int).push(xs@[i as int]));
                xs@.take(i as int).lemma_filter_len_push(p, xs@[i as int]);
            }
        }
        if hit {
            if matched == 1 {
                proof {
                    assert forall|p: spec_fn(T) -> bool| #[trigger]
                        computes(pred, xs@, p) implies xs@.filter(p).len() >= 2 by {
                        xs@.lemma_filter_take_len(p, i + 1);
                    }
                }
                return Err(QuantorError::UnexpectedMatch { kind: QuantorKind::ExactlyOne, index: i });
            }
            matched = 1;
        }
        i += 1;
    }
    proof {
        assert(xs@.take(i as int) == xs@);
    }
    if matched == 1 {
        Ok(())
    } else {
        Err(QuantorError::PredicateFailed { kind: QuantorKind::ExactlyOne, index: 0 })
    }
}

/// `r` is the result of checking that exactly `n` elements of `xs` satisfy
/// `p`: success when the elements that satisfy `p` number `n`, otherwise
/// `ExactlyNFailed` with that number as `found` and `n` as `expected`.
pub open spec fn exactly_n_outcome<T>(
    xs: Seq<T>,
    n: usize,
    p: spec_fn(T) -> bool,
    r: Result<(), QuantorError>,
) -> bool {
    &&& r is Ok <==> xs.filter(p).len() == n
    &&& r matches Err(e) ==> {
        &&& e matches QuantorError::ExactlyNFailed { kind, found, expected }
        &&& kind == QuantorKind::ExactlyN
        &&& found == xs.filter(p).len()
        &&& expected == n
        &&& found != expected
    }
}

/// Checks that exactly `n` elements of `xs` satisfy `pred`.
///
/// Calls `pred` on every element, also once more than `n` have satisfied it:
/// the failure reports the full count.
#[must_use]
pub fn exactly_n<T, F: Fn(&T) -> bool>(xs: &[T], n: usize, pred: F) -> (r: Result<
    (),
    QuantorError,
>)
    requires
        callable_on(pred, xs@),
    ensures
        forall|p: spec_fn(T) -> bool| #[trigger]
            computes(pred, xs@, p) ==> exactly_n_outcome(xs@, n, p, r),
{
    let mut found: usize = 0;
    let mut i: usize = 0;
    while i < xs.len()
        invariant
            found <= i <= xs@.len(),
            callable_on(pred, xs@),
            forall|p: spec_fn(T) -> bool| #[trigger]
                computes(pred, xs@, p) ==> xs@.take(i as int).filter(p).len() == found,
        decreases xs.len() - i,
    {
        let hit = pred(&xs[i]);
        proof {
            assert forall|p: spec_fn(T) -> bool| #[trigger] computes(pred, xs@, p) implies xs@.take(
                i + 1,
            ).filter(p).len() == found + (if hit {
                1int
            } else {
                0int
            }) by {
                assert(hit == p(xs@[i as int]));
                assert(xs@.take(i + 1) == xs@.take(i as int).push(xs@[i as int]));
                xs@.take(i as int).lemma_filter_len_push(p, xs@[i as int]);
            }
        }
        if hit {
            found += 1;
        }
        i += 1;
    }
    proof {
        assert(xs@.take(i as int) == xs@);
    }
    if found == n {
        Ok(())
    } else {
        Err(QuantorError::ExactlyNFailed { kind: QuantorKind::ExactlyN, found, expected: n })
    }
}

/// `r` is the result of checking that every element of `xs` equals the first:
/// success when all behind the first do, which an empty sequence and one of a
/// single element do, otherwise `NotAllEqual` at the first element that does
/// not equal `xs[0]`, by its position in `xs`.
pub open spec fn all_equal_outcome<T: PartialEq>(xs: Seq<T>, r: Result<(), QuantorError>) -> bool {
    &&& r is Ok <==> forall|i: int| 1 <= i < xs.len() ==> same(#[trigger] xs[i], xs[0])
    &&& r matches Err(e) ==> {
        &&& e matches QuantorError::NotAllEqual { kind, index }
        &&& kind == QuantorKind::AllEqual
        &&& 1 <= index < xs.len()
        &&& !same(xs[index as int], xs[0])
        &&& forall|j: int| 1 <= j < index ==> same(#[trigger] xs[j], xs[0])
    }
}

/// Checks that all elements of `xs` are equal, comparing each with the first,
/// in order up to the first that differs.
#[must_use]
pub fn all_equal<T: Eq>(xs: &[T]) -> (r: Result<(), QuantorError>)
    ensures
        T::obeys_eq_spec() ==> all_equal_outcome(xs@, r),
        lawful_eq::<T>() ==> (r is Ok <==> all_same(xs@)),
{
    let mut i: usize = 1;
    while i < xs.len()
        invariant
            1 <= i,
            T::obeys_eq_spec() ==> forall|j: int| 1 <= j < i ==> same(#[trigger] xs@[j], xs@[0]),
        decreases xs.len() - i,
    {
        if xs[i] != xs[0] {
            proof {
                if lawful_eq::<T>() {
                    lemma_all_same_iff_same_as_first(xs@);
                }
            }
            return Err(QuantorError::NotAllEqual { kind: QuantorKind::AllEqual, index: i });
        }
        i += 1;
    }
    proof {
        if lawful_eq::<T>() {
            lemma_all_same_iff_same_as_first(xs@);
        }
    }
    Ok(())
}

} // verus!
