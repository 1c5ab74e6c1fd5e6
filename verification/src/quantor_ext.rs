//! The checks and selections as methods.
//!
//! [`QuantorExt`] hangs every operation off the slice, so that a `Vec`, an
//! array or anything else that dereferences to a slice can be asked directly:
//! `xs.for_all(..)` for `for_all(&xs, ..)`. Each method forwards to the free
//! function of its name and has that function's contract.

use crate::equality::{all_same, distinct, lawful_eq};
use crate::error::QuantorError;
use crate::predicate::{
    callable_on, callable_on_neighbours, callable_on_pairs, computes, computes_on_neighbours,
    computes_on_pairs, negate,
};
use crate::quantifiers::basic::{
    all_equal_outcome, exactly_n_outcome, exactly_one_outcome, for_all_outcome, none_outcome,
    there_exists_outcome,
};
use crate::quantifiers::nested::{existsforall_outcome, forallexists_outcome};
use crate::quantifiers::selection::holds_duplicates_of;
use crate::quantifiers::structured::pairwise_outcome;
use core::hash::Hash;
use vstd::prelude::*;
use vstd::std_specs::cmp::PartialEqSpec;

verus! {

/// The quantifier checks and the selections as methods of a sequence.
pub trait QuantorExt<T> {
    /// The elements that the methods run over, in order.
    spec fn elements(&self) -> Seq<T>;

    /// Checks that every element satisfies `pred`.
    #[must_use]
    fn for_all<F: Fn(&T) -> bool>(&self, pred: F) -> (r: Result<(), QuantorError>)
        requires
            callable_on(pred, self.elements()),
        ensures
            forall|p: spec_fn(T) -> bool| #[trigger]
                computes(pred, self.elements(), p) ==> for_all_outcome(self.elements(), p, r),
    ;

    /// Checks that some element satisfies `pred`.
    #[must_use]
    fn there_exists<F: Fn(&T) -> bool>(&self, pred: F) -> (r: Result<(), QuantorError>)
        requires
            callable_on(pred, self.elements()),
        ensures
            forall|p: spec_fn(T) -> bool| #[trigger]
                computes(pred, self.elements(), p) ==> there_exists_outcome(
                    self.elements(),
                    p,
                    r,
                ),
    ;

    /// Checks that no element satisfies `pred`.
    #[must_use]
    fn none<F: Fn(&T) -> bool>(&self, pred: F) -> (r: Result<(), QuantorError>)
        requires
            callable_on(pred, self.elements()),
        ensures
            forall|p: spec_fn(T) -> bool| #[trigger]
                computes(pred, self.elements(), p) ==> none_outcome(self.elements(), p, r),
    ;

    /// Checks that exactly one element satisfies `pred`.
    #[must_use]
    fn exactly_one<F: Fn(&T) -> bool>(&self, pred: F) -> (r: Result<(), QuantorError>)
        requires
            callable_on(pred, self.elements()),
        ensures
            forall|p: spec_fn(T) -> bool| #[trigger]
                computes(pred, self.elements(), p) ==> exactly_one_outcome(
                    self.elements(),
                    p,
                    r,
                ),
    ;

    /// Checks that exactly `n` elements satisfy `pred`.
    #[must_use]
    fn exactly_n<F: Fn(&T) -> bool>(&self, n: usize, pred: F) -> (r: Result<(), QuantorError>)
        requires
            callable_on(pred, self.elements()),
        ensures
            forall|p: spec_fn(T) -> bool| #[trigger]
                computes(pred, self.elements(), p) ==> exactly_n_outcome(
                    self.elements(),
                    n,
                    p,
                    r,
                ),
    ;

    /// Checks that all elements are equal.
    #[must_use]
    fn all_equal(&self) -> (r: Result<(), QuantorError>) where T: Eq
        ensures
            T::obeys_eq_spec() ==> all_equal_outcome(self.elements(), r),
            lawful_eq::<T>() ==> (r is Ok <==> all_same(self.elements())),
    ;

    /// Checks that for every element some element of `rhs` satisfies `pred`
    /// with it.
    #[must_use]
    fn forallexists<U, F: Fn(&T, &U) -> bool>(&self, rhs: &[U], pred: F) -> (r: Result<
        (),
        QuantorError,
    >)
        requires
            callable_on_pairs(pred, self.elements(), rhs@),
        ensures
            forall|q: spec_fn(T, U) -> bool| #[trigger]
                computes_on_pairs(pred, self.elements(), rhs@, q) ==> forallexists_outcome(
                    self.elements(),
                    rhs@,
                    q,
                    r,
                ),
    ;

    /// Checks that some element satisfies `pred` with every element of `rhs`.
    #[must_use]
    fn existsforall<U, F: Fn(&T, &U) -> bool>(&self, rhs: &[U], pred: F) -> (r: Result<
        (),
        QuantorError,
    >)
        requires
            callable_on_pairs(pred, self.elements(), rhs@),
        ensures
            forall|q: spec_fn(T, U) -> bool| #[trigger]
                computes_on_pairs(pred, self.elements(), rhs@, q) ==> existsforall_outcome(
                    self.elements(),
                    rhs@,
                    q,
                    r,
                ),
    ;

    /// Checks that every element satisfies `pred` together with its successor.
    #[must_use]
    fn pairwise<F: Fn(&T, &T) -> bool>(&self, pred: F) -> (r: Result<(), QuantorError>)
        requires
            callable_on_neighbours(pred, self.elements()),
        ensures
            forall|q: spec_fn(T, T) -> bool| #[trigger]
                computes_on_neighbours(pred, self.elements(), q) ==> pairwise_outcome(
                    self.elements(),
                    q,
                    r,
                ),
    ;

    /// The elements that do not satisfy `pred`.
    #[must_use]
    fn failing_elements<F: Fn(&T) -> bool>(&self, pred: F) -> (r: Vec<&T>)
        requires
            callable_on(pred, self.elements()),
        ensures
            forall|p: spec_fn(T) -> bool| #[trigger]
                computes(pred, self.elements(), p) ==> r@.unref() == self.elements().filter(
                    negate(p),
                ),
    ;

    /// The elements that satisfy `pred`.
    #[must_use]
    fn select_where<F: Fn(&T) -> bool>(&self, pred: F) -> (r: Vec<&T>)
        requires
            callable_on(pred, self.elements()),
        ensures
            forall|p: spec_fn(T) -> bool| #[trigger]
                computes(pred, self.elements(), p) ==> r@.unref() == self.elements().filter(p),
    ;

    /// The elements that satisfy `pred`, each value once.
    #[must_use]
    fn select_unique<F: Fn(&T) -> bool>(&self, pred: F) -> (r: Vec<&T>) where T: Eq + Hash
        requires
            callable_on(pred, self.elements()),
        ensures
            T::obeys_eq_spec() ==> forall|p: spec_fn(T) -> bool| #[trigger]
                computes(pred, self.elements(), p) ==> r@.unref() == distinct(
                    self.elements().filter(p),
                ),
    ;

    /// One borrow for each value that occurs more than once.
    #[must_use]
    fn select_duplicates(&self) -> (r: Vec<&T>) where T: Eq + Hash
        ensures
            lawful_eq::<T>() ==> holds_duplicates_of(r@.unref(), self.elements()),
    ;
}

impl<T: Clone> QuantorExt<T> for [T] {
    open spec fn elements(&self) -> Seq<T> {
        self@
    }

    #[inline]
    fn for_all<F: Fn(&T) -> bool>(&self, pred: F) -> (r: Result<(), QuantorError>) {
        crate::quantifiers::basic::for_all(self, pred)
    }

    #[inline]
    fn there_exists<F: Fn(&T) -> bool>(&self, pred: F) -> (r: Result<(), QuantorError>) {
        crate::quantifiers::basic::there_exists(self, pred)
    }

    #[inline]
    fn none<F: Fn(&T) -> bool>(&self, pred: F) -> (r: Result<(), QuantorError>) {
        crate::quantifiers::basic::none(self, pred)
    }

    #[inline]
    fn exactly_one<F: Fn(&T) -> bool>(&self, pred: F) -> (r: Result<(), QuantorError>) {
        crate::quantifiers::basic::exactly_one(self, pred)
    }

    #[inline]
    fn exactly_n<F: Fn(&T) -> bool>(&self, n: usize, pred: F) -> (r: Result<(), QuantorError>) {
        crate::quantifiers::basic::exactly_n(self, n, pred)
    }

    #[inline]
    fn all_equal(&self) -> (r: Result<(), QuantorError>) where T: Eq {
        crate::quantifiers::basic::all_equal(self)
    }

    #[inline]
    fn forallexists<U, F: Fn(&T, &U) -> bool>(&self, rhs: &[U], pred: F) -> (r: Result<
        (),
        QuantorError,
    >) {
        crate::quantifiers::nested::forallexists(self, rhs, pred)
    }

    #[inline]
    fn existsforall<U, F: Fn(&T, &U) -> bool>(&self, rhs: &[U], pred: F) -> (r: Result<
        (),
        QuantorError,
    >) {
        crate::quantifiers::nested::existsforall(self, rhs, pred)
    }

    #[inline]
    fn pairwise<F: Fn(&T, &T) -> bool>(&self, pred: F) -> (r: Result<(), QuantorError>) {
        crate::quantifiers::structured::pairwise(self, pred)
    }

    #[inline]
    fn failing_elements<F: Fn(&T) -> bool>(&self, pred: F) -> (r: Vec<&T>) {
        crate::quantifiers::structured::failing_elements(self, pred)
    }

    #[inline]
    fn select_where<F: Fn(&T) -> bool>(&self, pred: F) -> (r: Vec<&T>) {
        crate::quantifiers::selection::select_where(self, pred)
    }

    #[inline]
    fn select_unique<F: Fn(&T) -> bool>(&self, pred: F) -> (r: Vec<&T>) where T: Eq + Hash {
        crate::quantifiers::selection::select_unique(self, pred)
    }

    #[inline]
    fn select_duplicates(&self) -> (r: Vec<&T>) where T: Eq + Hash {
        crate::quantifiers::selection::select_duplicates(self)
    }
}

} // verus!
