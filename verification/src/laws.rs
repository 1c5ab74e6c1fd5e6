//! Laws that relate the checks and the selections to each other.
//!
//! Each is stated over the specification functions that the contracts of the
//! executable functions use, so it holds of whatever those functions return.

use crate::equality::{
    all_distinct, distinct, lemma_distinct_of_all_distinct, lemma_distinct_properties,
};
use crate::error::{QuantorError, QuantorKind};
use crate::predicate::negate;
use crate::quantifiers::basic::{
    all_equal_outcome, exactly_n_outcome, exactly_one_outcome, for_all_outcome, none_outcome,
    there_exists_outcome,
};
use crate::quantifiers::nested::{existsforall_outcome, forallexists_outcome};
use crate::quantifiers::structured::pairwise_outcome;
use vstd::prelude::*;

verus! {

/// Duality: on one sequence and one predicate, `none` succeeds exactly when
/// `there_exists` fails.
pub proof fn none_succeeds_iff_there_exists_fails<T>(
    xs: Seq<T>,
    p: spec_fn(T) -> bool,
    of_none: Result<(), QuantorError>,
    of_there_exists: Result<(), QuantorError>,
)
    requires
        none_outcome(xs, p, of_none),
        there_exists_outcome(xs, p, of_there_exists),
    ensures
        of_none is Ok <==> of_there_exists is Err,
{
}

/// A failure names the quantifier that produced it: whatever variant a check
/// fails with, the kind of the failure is that of the check.
pub proof fn failures_name_their_quantifier<T: PartialEq>(
    xs: Seq<T>,
    ys: Seq<T>,
    p: spec_fn(T) -> bool,
    q: spec_fn(T, T) -> bool,
    n: usize,
    of_for_all: Result<(), QuantorError>,
    of_there_exists: Result<(), QuantorError>,
    of_none: Result<(), QuantorError>,
    of_exactly_one: Result<(), QuantorError>,
    of_exactly_n: Result<(), QuantorError>,
    of_all_equal: Result<(), QuantorError>,
    of_pairwise: Result<(), QuantorError>,
    of_forallexists: Result<(), QuantorError>,
    of_existsforall: Result<(), QuantorError>,
)
    requires
        for_all_outcome(xs, p, of_for_all),
        there_exists_outcome(xs, p, of_there_exists),
        none_outcome(xs, p, of_none),
        exactly_one_outcome(xs, p, of_exactly_one),
        exactly_n_outcome(xs, n, p, of_exactly_n),
        all_equal_outcome(xs, of_all_equal),
        pairwise_outcome(xs, q, of_pairwise),
        forallexists_outcome(xs, ys, q, of_forallexists),
        existsforall_outcome(xs, ys, q, of_existsforall),
    ensures
        of_for_all matches Err(e) ==> e.kind_of() == QuantorKind::Forall,
        of_there_exists matches Err(e) ==> e.kind_of() == QuantorKind::Exists,
        of_none matches Err(e) ==> e.kind_of() == QuantorKind::NoneOf,
        of_exactly_one matches Err(e) ==> e.kind_of() == QuantorKind::ExactlyOne,
        of_exactly_n matches Err(e) ==> e.kind_of() == QuantorKind::ExactlyN,
        of_all_equal matches Err(e) ==> e.kind_of() == QuantorKind::AllEqual,
        of_pairwise matches Err(e) ==> e.kind_of() == QuantorKind::Pairwise,
        of_forallexists matches Err(e) ==> e.kind_of() == QuantorKind::ForAllExists,
        of_existsforall matches Err(e) ==> e.kind_of() == QuantorKind::ExistsForAll,
{
}

/// Empty input: `for_all`, `none`, `all_equal` and `pairwise` succeed,
/// `there_exists` fails with `NoMatch`, `exactly_one` fails with `EmptyInput`,
/// and `exactly_n` succeeds exactly when `n` is 0.
pub proof fn outcomes_on_empty_input<T: PartialEq>(
    p: spec_fn(T) -> bool,
    q: spec_fn(T, T) -> bool,
    n: usize,
    of_for_all: Result<(), QuantorError>,
    of_there_exists: Result<(), QuantorError>,
    of_none: Result<(), QuantorError>,
    of_exactly_one: Result<(), QuantorError>,
    of_exactly_n: Result<(), QuantorError>,
    of_all_equal: Result<(), QuantorError>,
    of_pairwise: Result<(), QuantorError>,
)
    requires
        for_all_outcome(Seq::<T>::empty(), p, of_for_all),
        there_exists_outcome(Seq::<T>::empty(), p, of_there_exists),
        none_outcome(Seq::<T>::empty(), p, of_none),
        exactly_one_outcome(Seq::<T>::empty(), p, of_exactly_one),
        exactly_n_outcome(Seq::<T>::empty(), n, p, of_exactly_n),
        all_equal_outcome(Seq::<T>::empty(), of_all_equal),
        pairwise_outcome(Seq::<T>::empty(), q, of_pairwise),
    ensures
        of_for_all is Ok,
        of_there_exists == Err::<(), QuantorError>(
            QuantorError::NoMatch { kind: QuantorKind::Exists },
        ),
        of_none is Ok,
        of_exactly_one == Err::<(), QuantorError>(
            QuantorError::EmptyInput { kind: QuantorKind::ExactlyOne },
        ),
        of_exactly_n is Ok <==> n == 0,
        of_all_equal is Ok,
        of_pairwise is Ok,
{
    reveal(Seq::filter);
    assert(Seq::<T>::empty().filter(p).len() == 0);
}

/// A filter keeps a sequence whose elements all satisfy the predicate as it
/// is.
pub proof fn lemma_filter_keeps_all<T>(s: Seq<T>, p: spec_fn(T) -> bool)
    requires
        s.all(p),
    ensures
        s.filter(p) == s,
    decreases s.len(),
{
    reveal(Seq::filter);
    if s.len() > 0 {
        assert(p(s[s.len() - 1]));
        assert forall|i: int| 0 <= i < s.drop_last().len() implies #[trigger] p(
            s.drop_last()[i],
        ) by {
            assert(p(s[i]));
        }
        lemma_filter_keeps_all(s.drop_last(), p);
        assert(s.drop_last().push(s.last()) == s);
    }
}

/// Idempotence of `select_where`: selecting by `p` from what was selected by
/// `p` changes nothing.
pub proof fn select_where_is_idempotent<T>(xs: Seq<T>, p: spec_fn(T) -> bool)
    ensures
        xs.filter(p).filter(p) == xs.filter(p),
{
    let selected = xs.filter(p);
    assert forall|i: int| 0 <= i < selected.len() implies #[trigger] p(selected[i]) by {
        xs.lemma_filter_pred(p, i);
    }
    lemma_filter_keeps_all(selected, p);
}

/// Idempotence of `select_unique`: what it returns holds no two equal
/// elements, and selecting by `p` from it once more changes nothing.
pub proof fn select_unique_is_idempotent<T: PartialEq>(xs: Seq<T>, p: spec_fn(T) -> bool)
    ensures
        all_distinct(distinct(xs.filter(p))),
        distinct(distinct(xs.filter(p)).filter(p)) == distinct(xs.filter(p)),
{
    let selected = xs.filter(p);
    let unique = distinct(selected);
    lemma_distinct_properties(selected);
    assert forall|k: int| 0 <= k < unique.len() implies #[trigger] p(unique[k]) by {
        let at = choose|at: int| 0 <= at < selected.len() && selected[at] == unique[k];
        xs.lemma_filter_pred(p, at);
    }
    lemma_filter_keeps_all(unique, p);
    lemma_distinct_of_all_distinct(unique);
}

/// Partition: what `select_where` returns and what `failing_elements` returns
/// hold together each element of the sequence as often as the sequence does,
/// and no element is on both sides.
pub proof fn selected_and_failing_partition<T>(xs: Seq<T>, p: spec_fn(T) -> bool)
    ensures
        xs.filter(p).to_multiset().add(xs.filter(negate(p)).to_multiset()) == xs.to_multiset(),
        xs.filter(p).len() + xs.filter(negate(p)).len() == xs.len(),
        forall|x: T| !(xs.filter(p).contains(x) && xs.filter(negate(p)).contains(x)),
    decreases xs.len(),
{
    broadcast use vstd::seq_lib::to_multiset_build;

    assert forall|x: T| !(xs.filter(p).contains(x) && xs.filter(negate(p)).contains(x)) by {
        if xs.filter(p).contains(x) && xs.filter(negate(p)).contains(x) {
            let i = choose|i: int| 0 <= i < xs.filter(p).len() && xs.filter(p)[i] == x;
            let j = choose|j: int|
                0 <= j < xs.filter(negate(p)).len() && xs.filter(negate(p))[j] == x;
            xs.lemma_filter_pred(p, i);
            xs.lemma_filter_pred(negate(p), j);
        }
    }
    if xs.len() == 0 {
        reveal(Seq::filter);
        assert(xs.filter(p) == xs && xs.filter(negate(p)) == xs);
        xs.to_multiset_ensures();
        assert(xs.to_multiset().add(xs.to_multiset()) =~= xs.to_multiset());
    } else {
        let front = xs.drop_last();
        let x = xs.last();
        selected_and_failing_partition(front, p);
        assert(front.push(x) == xs);
        front.lemma_filter_push(x, p);
        front.lemma_filter_push(x, negate(p));
        let sel = front.filter(p).to_multiset();
        let fail = front.filter(negate(p)).to_multiset();
        if p(x) {
            assert(sel.insert(x).add(fail) =~= sel.add(fail).insert(x));
        } else {
            assert(sel.add(fail.insert(x)) =~= sel.add(fail).insert(x));
        }
    }
}

} // verus!
