//! Equality of elements as their type defines it, and what follows from it
//! for sequences.
//!
//! Contracts that compare elements speak of the type's own `==`, through the
//! specification that the type gives for it. They are conditional on
//! `T::obeys_eq_spec()`: that the executable `==` returns what that
//! specification says.

use vstd::prelude::*;
use vstd::std_specs::cmp::PartialEqSpec;

verus! {

/// `a == b` as the element type defines it.
pub open spec fn same<T: PartialEq>(a: T, b: T) -> bool {
    a.eq_spec(&b)
}

/// The executable `==` of `T` follows its specification, and that
/// specification is an equivalence relation, as `Eq` asks.
pub open spec fn lawful_eq<T: PartialEq>() -> bool {
    &&& T::obeys_eq_spec()
    &&& forall|x: T| #[trigger] same(x, x)
    &&& forall|x: T, y: T| #[trigger] same(x, y) ==> same(y, x)
    &&& forall|x: T, y: T, z: T| #[trigger] same(x, y) && #[trigger] same(y, z) ==> same(x, z)
}

/// Any two elements of `s` are equal.
pub open spec fn all_same<T: PartialEq>(s: Seq<T>) -> bool {
    forall|i: int, j: int|
        0 <= i < s.len() && 0 <= j < s.len() ==> same(#[trigger] s[i], #[trigger] s[j])
}

/// Under a lawful `==`, all elements equal the first exactly when any two
/// elements are equal.
pub proof fn lemma_all_same_iff_same_as_first<T: PartialEq>(xs: Seq<T>)
    requires
        lawful_eq::<T>(),
    ensures
        all_same(xs) <==> forall|i: int| 1 <= i < xs.len() ==> same(#[trigger] xs[i], xs[0]),
{
    if forall|i: int| 1 <= i < xs.len() ==> same(#[trigger] xs[i], xs[0]) {
        assert forall|i: int, j: int| 0 <= i < xs.len() && 0 <= j < xs.len() implies same(
            #[trigger] xs[i],
            #[trigger] xs[j],
        ) by {
            assert(same(xs[0], xs[0]));
            assert(same(xs[i], xs[0]));
            assert(same(xs[j], xs[0]));
            assert(same(xs[0], xs[j]));
        }
    }
}

/// Some element of `s` equals `x`.
pub open spec fn occurs<T: PartialEq>(s: Seq<T>, x: T) -> bool {
    exists|k: int| 0 <= k < s.len() && same(#[trigger] s[k], x)
}

/// Elements of `s` at two positions or more equal `x`.
pub open spec fn occurs_twice<T: PartialEq>(s: Seq<T>, x: T) -> bool {
    exists|i: int, j: int|
        0 <= i < j < s.len() && same(#[trigger] s[i], x) && same(#[trigger] s[j], x)
}

/// No element of `s` equals an earlier one.
pub open spec fn all_distinct<T: PartialEq>(s: Seq<T>) -> bool {
    forall|i: int, j: int| 0 <= i < j < s.len() ==> !same(#[trigger] s[i], #[trigger] s[j])
}

/// `s` without every element that equals one kept before it: the first
/// occurrences, in their order.
pub open spec fn distinct<T: PartialEq>(s: Seq<T>) -> Seq<T>
    decreases s.len(),
{
    if s.len() == 0 {
        s
    } else {
        let kept = distinct(s.drop_last());
        if occurs(kept, s.last()) {
            kept
        } else {
            kept.push(s.last())
        }
    }
}

/// What `distinct` does with one more element.
pub proof fn lemma_distinct_push<T: PartialEq>(s: Seq<T>, x: T)
    ensures
        distinct(s.push(x)) == if occurs(distinct(s), x) {
            distinct(s)
        } else {
            distinct(s).push(x)
        },
{
    assert(s.push(x).drop_last() == s);
}

/// `distinct` keeps only elements of its argument, and no element twice.
pub proof fn lemma_distinct_properties<T: PartialEq>(s: Seq<T>)
    ensures
        all_distinct(distinct(s)),
        distinct(s).len() <= s.len(),
        forall|k: int| 0 <= k < distinct(s).len() ==> s.contains(#[trigger] distinct(s)[k]),
    decreases s.len(),
{
    if s.len() > 0 {
        let kept = distinct(s.drop_last());
        lemma_distinct_properties(s.drop_last());
        assert forall|k: int| 0 <= k < distinct(s).len() implies s.contains(
            #[trigger] distinct(s)[k],
        ) by {
            if k < kept.len() {
                let at = choose|at: int|
                    0 <= at < s.drop_last().len() && s.drop_last()[at] == kept[k];
                assert(s[at] == kept[k]);
            } else {
                assert(s[s.len() - 1] == distinct(s)[k]);
            }
        }
    }
}

/// A sequence without equal elements is its own `distinct`.
pub proof fn lemma_distinct_of_all_distinct<T: PartialEq>(s: Seq<T>)
    requires
        all_distinct(s),
    ensures
        distinct(s) == s,
    decreases s.len(),
{
    if s.len() > 0 {
        lemma_distinct_of_all_distinct(s.drop_last());
        assert(s.drop_last().push(s.last()) == s);
    }
}

} // verus!
