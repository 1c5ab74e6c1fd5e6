//! Selections: the elements of a sequence that a predicate picks, with or
//! without repetitions, and the elements that occur more than once.
//!
//! The values seen so far are kept in a `Vec` and found again by comparing
//! with `==`, which costs a scan for each element. A `HashSet` or `HashMap`
//! keyed by the borrows would find them faster, but nothing could be proved
//! of it: vstd describes these collections only for key types that obey its
//! key model, which it grants to integers and boxed integers and not to a
//! borrow `&T`, so that not even membership after an insertion is known. The
//! bound `Hash` stays on `select_unique` and `select_duplicates`, unused, so
//! that a hashed search can take the scan's place without a change for
//! callers.

use crate::equality::{
    all_distinct, distinct, lawful_eq, lemma_distinct_push, occurs, occurs_twice, same,
};
use crate::predicate::{callable_on, computes};
use core::hash::Hash;
use vstd::prelude::*;
use vstd::std_specs::cmp::PartialEqSpec;

verus! {

/// The elements of `xs` that satisfy `pred`, in their order and as often as
/// they occur.
#[must_use]
pub fn select_where<'a, T, F: Fn(&T) -> bool>(xs: &'a [T], pred: F) -> (r: Vec<&'a T>)
    requires
        callable_on(pred, xs@),
    ensures
        forall|p: spec_fn(T) -> bool| #[trigger]
            computes(pred, xs@, p) ==> r@.unref() == xs@.filter(p),
{
    let mut out: Vec<&'a T> = Vec::new();
    let mut i: usize = 0;
    while i < xs.len()
        invariant
            i <= xs@.len(),
            callable_on(pred, xs@),
            forall|p: spec_fn(T) -> bool| #[trigger]
                computes(pred, xs@, p) ==> out@.unref() == xs@.take(i as int).filter(p),
        decreases xs.len() - i,
    {
        let ghost before = out@;
        let keep = pred(&xs[i]);
        if keep {
            out.push(&xs[i]);
        }
        proof {
            assert forall|p: spec_fn(T) -> bool| #[trigger] computes(pred, xs@, p) implies out@.unref()
                == xs@.take(i + 1).filter(p) by {
                assert(keep == p(xs@[i as int]));
                assert(xs@.take(i + 1) == xs@.take(i as int).push(xs@[i as int]));
                xs@.take(i as int).lemma_filter_push(xs@[i as int], p);
                if keep {
                    assert(out@.unref() == before.unref().push(xs@[i as int]));
                }
            }
        }
        i += 1;
    }
    proof {
        assert(xs@.take(i as int) == xs@);
    }
    out
}

/// Whether some element that `kept` borrows equals `x`.
fn holds_equal<T: PartialEq>(kept: &Vec<&T>, x: &T) -> (found: bool)
    ensures
        T::obeys_eq_spec() ==> found == occurs(kept@.unref(), *x),
{
    let mut k: usize = 0;
    while k < kept.len()
        invariant
            k <= kept@.len(),
            T::obeys_eq_spec() ==> forall|l: int|
                0 <= l < k ==> !same(#[trigger] kept@.unref()[l], *x),
        decreases kept.len() - k,
    {
        if *kept[k] == *x {
            proof {
                if T::obeys_eq_spec() {
                    assert(same(kept@.unref()[k as int], *x));
                }
            }
            return true;
        }
        k += 1;
    }
    false
}

/// Whether some element of `xs` behind position `i` equals the one at `i`.
fn recurs_behind<T: PartialEq>(xs: &[T], i: usize) -> (found: bool)
    requires
        i < xs.len(),
    ensures
        T::obeys_eq_spec() ==> found == exists|j: int|
            i < j < xs@.len() && same(#[trigger] xs@[j], xs@[i as int]),
{
    let mut j: usize = i + 1;
    while j < xs.len()
        invariant
            i < j <= xs@.len(),
            T::obeys_eq_spec() ==> forall|l: int|
                i < l < j ==> !same(#[trigger] xs@[l], xs@[i as int]),
        decreases xs.len() - j,
    {
        if xs[j] == xs[i] {
            proof {
                if T::obeys_eq_spec() {
                    assert(same(xs@[j as int], xs@[i as int]));
                }
            }
            return true;
        }
        j += 1;
    }
    false
}

/// The elements of `xs` that satisfy `pred`, each value once: of equal
/// elements the first stays, and the order is that of the first occurrences.
#[must_use]
pub fn select_unique<'a, T: Eq + Hash, F: Fn(&T) -> bool>(xs: &'a [T], pred: F) -> (r: Vec<&'a T>)
    requires
        callable_on(pred, xs@),
    ensures
        T::obeys_eq_spec() ==> forall|p: spec_fn(T) -> bool| #[trigger]
            computes(pred, xs@, p) ==> r@.unref() == distinct(xs@.filter(p)),
{
    let mut out: Vec<&'a T> = Vec::new();
    let mut i: usize = 0;
    while i < xs.len()
        invariant
            i <= xs@.len(),
            callable_on(pred, xs@),
            T::obeys_eq_spec() ==> forall|p: spec_fn(T) -> bool| #[trigger]
                computes(pred, xs@, p) ==> out@.unref() == distinct(
                    xs@.take(i as int).filter(p),
                ),
        decreases xs.len() - i,
    {
        let ghost before = out@;
        let hit = pred(&xs[i]);
        let keep = hit && !holds_equal(&out, &xs[i]);
        if keep {
            out.push(&xs[i]);
        }
        proof {
            if T::obeys_eq_spec() {
                assert forall|p: spec_fn(T) -> bool| #[trigger]
                    computes(pred, xs@, p) implies out@.unref() == distinct(
                    xs@.take(i + 1).filter(p),
                ) by {
                    let x = xs@[i as int];
                    assert(hit == p(x));
                    assert(xs@.take(i + 1) == xs@.take(i as int).push(x));
                    xs@.take(i as int).lemma_filter_push(x, p);
                    if hit {
                        lemma_distinct_push(xs@.take(i as int).filter(p), x);
                    }
                    if keep {
                        assert(out@.unref() == before.unref().push(x));
                    }
                }
            }
        }
        i += 1;
    }
    proof {
        assert(xs@.take(i as int) == xs@);
    }
    out
}

/// `out` holds the values that occur more than once in `xs`: each element of
/// `out` is an element of `xs` that equals elements at two positions or more,
/// every such element of `xs` equals an element of `out`, and no two elements
/// of `out` are equal. The order of `out` is left open.
pub open spec fn holds_duplicates_of<T: PartialEq>(out: Seq<T>, xs: Seq<T>) -> bool {
    &&& all_distinct(out)
    &&& forall|k: int|
        0 <= k < out.len() ==> xs.contains(#[trigger] out[k]) && occurs_twice(xs, out[k])
    &&& forall|i: int|
        0 <= i < xs.len() && occurs_twice(xs, #[trigger] xs[i]) ==> occurs(out, xs[i])
}

/// One borrow for each value that occurs more than once in `xs`.
///
/// The order of the result is not part of the contract.
#[must_use]
pub fn select_duplicates<'a, T: Eq + Hash + Clone>(xs: &'a [T]) -> (r: Vec<&'a T>)
    ensures
        lawful_eq::<T>() ==> holds_duplicates_of(r@.unref(), xs@),
{
    let mut out: Vec<&'a T> = Vec::new();
    let mut i: usize = 0;
    while i < xs.len()
        invariant
            i <= xs@.len(),
            lawful_eq::<T>() ==> {
                &&& all_distinct(out@.unref())
                &&& forall|k: int|
                    0 <= k < out@.len() ==> xs@.contains(#[trigger] out@.unref()[k])
                        && occurs_twice(xs@, out@.unref()[k])
                &&& forall|l: int|
                    0 <= l < i && occurs_twice(xs@, #[trigger] xs@[l]) ==> occurs(
                        out@.unref(),
                        xs@[l],
                    )
            },
        decreases xs.len() - i,
    {
        let ghost before = out@.unref();
        let seen = holds_equal(&out, &xs[i]);
        let keep = !seen && recurs_behind(xs, i);
        if keep {
            out.push(&xs[i]);
        }
        proof {
            if lawful_eq::<T>() {
                let x = xs@[i as int];
                let after = out@.unref();
                if keep {
                    assert(after == before.push(x));
                    let j = choose|j: int| i < j < xs@.len() && same(#[trigger] xs@[j], x);
                    assert(same(xs@[i as int], x) && same(xs@[j], x));
                    assert(occurs_twice(xs@, x));
                    assert(same(after[after.len() - 1], x));
                    assert(occurs(after, x));
                }
                assert forall|l: int|
                    0 <= l < i + 1 && occurs_twice(xs@, #[trigger] xs@[l]) implies occurs(
                    after,
                    xs@[l],
                ) by {
                    if l < i {
                        let k = choose|k: int|
                            0 <= k < before.len() && same(#[trigger] before[k], xs@[l]);
                        assert(same(after[k], xs@[l]));
                    } else if seen {
                        let k = choose|k: int|
                            0 <= k < before.len() && same(#[trigger] before[k], x);
                        assert(same(after[k], x));
                    } else if !keep {
                        let (a, b) = choose|a: int, b: int|
                            0 <= a < b < xs@.len() && same(#[trigger] xs@[a], x) && same(
                                #[trigger] xs@[b],
                                x,
                            );
                        assert(b <= i);
                        assert(same(xs@[a], xs@[a]) && same(xs@[i as int], xs@[a]));
                        assert(occurs_twice(xs@, xs@[a]));
                        let k = choose|k: int|
                            0 <= k < before.len() && same(#[trigger] before[k], xs@[a]);
                        assert(same(before[k], x));
                        assert(false);
                    }
                }
            }
        }
        i += 1;
    }
    out
}

} // verus!
