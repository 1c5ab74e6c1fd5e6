//! How an executable predicate is read in contracts.
//!
//! A check takes its predicate as a closure. Of a closure Verus knows a
//! precondition and a relation between arguments and result, no more. The
//! contracts therefore speak of a mathematical predicate `p` and hold for every
//! `p` that the closure computes on the elements at hand: a closure whose
//! `ensures` fixes its result computes exactly one such `p` there.

use vstd::prelude::*;

verus! {

/// `pred` may be called on every element of `xs`.
pub open spec fn callable_on<T, F: Fn(&T) -> bool>(pred: F, xs: Seq<T>) -> bool {
    forall|i: int| 0 <= i < xs.len() ==> pred.requires((&#[trigger] xs[i],))
}

/// Whatever `pred` returns on an element of `xs` is what `p` says of it.
pub open spec fn computes<T, F: Fn(&T) -> bool>(pred: F, xs: Seq<T>, p: spec_fn(T) -> bool) -> bool {
    forall|i: int, b: bool|
        0 <= i < xs.len() && #[trigger] pred.ensures((&xs[i],), b) ==> b == p(xs[i])
}

/// `pred` may be called on every element of `xs` together with every element
/// of `ys`.
pub open spec fn callable_on_pairs<A, B, F: Fn(&A, &B) -> bool>(
    pred: F,
    xs: Seq<A>,
    ys: Seq<B>,
) -> bool {
    forall|i: int, j: int|
        0 <= i < xs.len() && 0 <= j < ys.len() ==> pred.requires(
            (&#[trigger] xs[i], &#[trigger] ys[j]),
        )
}

/// Whatever `pred` returns on an element of `xs` and an element of `ys` is
/// what `q` says of the two.
pub open spec fn computes_on_pairs<A, B, F: Fn(&A, &B) -> bool>(
    pred: F,
    xs: Seq<A>,
    ys: Seq<B>,
    q: spec_fn(A, B) -> bool,
) -> bool {
    forall|i: int, j: int, b: bool|
        0 <= i < xs.len() && 0 <= j < ys.len() && #[trigger] pred.ensures((&xs[i], &ys[j]), b)
            ==> b == q(xs[i], ys[j])
}

/// `pred` may be called on every element of `xs` together with its successor.
pub open spec fn callable_on_neighbours<T, F: Fn(&T, &T) -> bool>(pred: F, xs: Seq<T>) -> bool {
    forall|i: int, j: int|
        0 <= i && j == i + 1 && j < xs.len() ==> pred.requires(
            (&#[trigger] xs[i], &#[trigger] xs[j]),
        )
}

/// Whatever `pred` returns on an element of `xs` and its successor is what `q`
/// says of the two.
pub open spec fn computes_on_neighbours<T, F: Fn(&T, &T) -> bool>(
    pred: F,
    xs: Seq<T>,
    q: spec_fn(T, T) -> bool,
) -> bool {
    forall|i: int, j: int, b: bool|
        0 <= i && j == i + 1 && j < xs.len() && #[trigger] pred.ensures((&xs[i], &xs[j]), b)
            ==> b == q(xs[i], xs[j])
}

/// The predicate that holds where `p` does not.
pub open spec fn negate<T>(p: spec_fn(T) -> bool) -> spec_fn(T) -> bool {
    |x: T| !p(x)
}

/// `i` is the first position of `xs` whose element satisfies `p`.
pub open spec fn is_first<T>(xs: Seq<T>, p: spec_fn(T) -> bool, i: int) -> bool {
    &&& 0 <= i < xs.len()
    &&& p(xs[i])
    &&& forall|j: int| 0 <= j < i ==> !p(#[trigger] xs[j])
}

/// `i` is the second position of `xs` whose element satisfies `p`.
pub open spec fn is_second<T>(xs: Seq<T>, p: spec_fn(T) -> bool, i: int) -> bool {
    &&& 0 <= i < xs.len()
    &&& p(xs[i])
    &&& xs.take(i).filter(p).len() == 1
}

} // verus!
