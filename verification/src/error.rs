//! Failure descriptors of the quantifier checks, and helpers that read them.

use crate::text::{decimal, push_decimal};
use vstd::prelude::*;
use vstd::std_specs::convert::FromSpecImpl;

verus! {

/// The quantifier that a failure descriptor comes from.
#[derive(Debug, Clone, Copy, PartialEq, Eq, Structural)]
pub enum QuantorKind {
    /// Universal: every element satisfies the predicate.
    Forall,
    /// Existential: at least one element satisfies the predicate.
    Exists,
    /// Negated existential: no element satisfies the predicate.
    NoneOf,
    /// Exactly one element satisfies the predicate.
    ExactlyOne,
    /// A given number of elements satisfy the predicate.
    ExactlyN,
    /// All elements are equal.
    AllEqual,
    /// Every adjacent pair satisfies the predicate.
    Pairwise,
    /// For every left element some right element satisfies the predicate.
    ForAllExists,
    /// Some left element satisfies the predicate with every right element.
    ExistsForAll,
    /// User-defined logic.
    Custom,
}

/// Why a quantifier check did not hold.
///
/// Every index is a zero-based position in the checked sequence.
#[derive(Debug, PartialEq, Eq)]
pub enum QuantorError {
    /// An element does not satisfy the predicate.
    PredicateFailed {
        /// The quantifier that failed.
        kind: QuantorKind,
        /// Position of the offending element.
        index: usize,
    },
    /// The input has no element.
    EmptyInput {
        /// The quantifier that failed.
        kind: QuantorKind,
    },
    /// No element satisfies the predicate.
    NoMatch {
        /// The quantifier that failed.
        kind: QuantorKind,
    },
    /// An element satisfies the predicate where none, or no further one, may.
    UnexpectedMatch {
        /// The quantifier that failed.
        kind: QuantorKind,
        /// Position of the offending element.
        index: usize,
    },
    /// An element differs from the first one.
    NotAllEqual {
        /// The quantifier that failed.
        kind: QuantorKind,
        /// Position of the first differing element; at least 1.
        index: usize,
    },
    /// An adjacent pair does not satisfy the predicate.
    PairwiseFailed {
        /// The quantifier that failed.
        kind: QuantorKind,
        /// Position of the first element of the failing pair.
        index: usize,
    },
    /// A left element has no partner on the right.
    ForAllExistsFailed {
        /// The quantifier that failed.
        kind: QuantorKind,
        /// Position of the first left element without a partner.
        outer_index: usize,
    },
    /// No left element satisfies the predicate with every right element.
    ExistsForAllFailed {
        /// The quantifier that failed.
        kind: QuantorKind,
        /// Always 0: the first left element tried.
        outer_index: usize,
    },
    /// The number of matches is not the expected one.
    ExactlyNFailed {
        /// The quantifier that failed.
        kind: QuantorKind,
        /// Number of elements that satisfy the predicate.
        found: usize,
        /// Number that was asked for.
        expected: usize,
    },
    /// A failure described by a static message.
    Custom(&'static str),
}

impl QuantorKind {
    /// The name of the quantifier, as it is rendered.
    pub open spec fn name_of(self) -> Seq<char> {
        match self {
            QuantorKind::Forall => "forall"@,
            QuantorKind::Exists => "exists"@,
            QuantorKind::NoneOf => "none"@,
            QuantorKind::ExactlyOne => "exactly_one"@,
            QuantorKind::ExactlyN => "exactly_n"@,
            QuantorKind::AllEqual => "all_equal"@,
            QuantorKind::Pairwise => "pairwise"@,
            QuantorKind::ForAllExists => "forallexists"@,
            QuantorKind::ExistsForAll => "existsforall"@,
            QuantorKind::Custom => "custom"@,
        }
    }

    /// The name of the quantifier.
    #[must_use]
    pub fn name(&self) -> (s: &'static str)
        ensures
            s@ == self.name_of(),
    {
        match self {
            QuantorKind::Forall => "forall",
            QuantorKind::Exists => "exists",
            QuantorKind::NoneOf => "none",
            QuantorKind::ExactlyOne => "exactly_one",
            QuantorKind::ExactlyN => "exactly_n",
            QuantorKind::AllEqual => "all_equal",
            QuantorKind::Pairwise => "pairwise",
            QuantorKind::ForAllExists => "forallexists",
            QuantorKind::ExistsForAll => "existsforall",
            QuantorKind::Custom => "custom",
        }
    }

    /// The name of the quantifier, as an owned string.
    #[must_use]
    pub fn to_string(&self) -> (s: String)
        ensures
            s@ == self.name_of(),
    {
        String::from_str(self.name())
    }
}

/// `before`, a number in decimal, `between`, the name of a quantifier and
/// `after`, in one string.
fn number_and_kind(before: &str, n: usize, between: &str, kind: QuantorKind, after: &str) -> (s:
    String)
    ensures
        s@ == before@ + decimal(n as nat) + between@ + kind.name_of() + after@,
{
    let mut s = String::from_str(before);
    push_decimal(&mut s, n);
    s.append(between);
    s.append(kind.name());
    s.append(after);
    s
}

impl QuantorError {
    /// The one-line rendering of the failure: it names the quantifier that
    /// the descriptor carries, and the index or the counts in decimal.
    pub open spec fn message(self) -> Seq<char> {
        match self {
            QuantorError::PredicateFailed { kind, index } => {
                "Predicate failed for element at index "@ + decimal(index as nat)
                    + " of quantifier "@ + kind.name_of() + "."@
            },
            QuantorError::EmptyInput { kind } => {
                "Empty input for quantifier "@ + kind.name_of() + "."@
            },
            QuantorError::NoMatch { kind } => {
                "No element satisfied the predicate for quantifier "@ + kind.name_of() + "."@
            },
            QuantorError::UnexpectedMatch { kind, index } => {
                "Unexpected match found at index "@ + decimal(index as nat) + " of quantifier "@
                    + kind.name_of() + "."@
            },
            QuantorError::NotAllEqual { kind, index } => {
                "Element at index "@ + decimal(index as nat) + " of quantifier "@ + kind.name_of()
                    + " does not match the first element."@
            },
            QuantorError::PairwiseFailed { kind, index } => {
                "Predicate failed for adjacent pair starting at index "@ + decimal(index as nat)
                    + " for quantifier "@ + kind.name_of() + "."@
            },
            QuantorError::ForAllExistsFailed { kind, outer_index } => {
                "Element at index "@ + decimal(outer_index as nat)
                    + " in the outer collection failed to match any right-hand value for quantifier "@
                    + kind.name_of() + "."@
            },
            QuantorError::ExistsForAllFailed { kind, outer_index } => {
                "Element at index "@ + decimal(outer_index as nat)
                    + " in the left-hand collection failed the universal condition for quantifier "@
                    + kind.name_of() + "."@
            },
            QuantorError::ExactlyNFailed { kind, found, expected } => {
                "Expected "@ + decimal(expected as nat) + " elements to match, found "@ + decimal(
                    found as nat,
                ) + " for quantifier "@ + kind.name_of() + "."@
            },
            QuantorError::Custom(msg) => msg@,
        }
    }

    /// Renders the failure in one line; see [`QuantorError::message`].
    #[must_use]
    pub fn to_string(&self) -> (s: String)
        ensures
            s@ == self.message(),
    {
        match self {
            QuantorError::PredicateFailed { kind, index } => number_and_kind(
                "Predicate failed for element at index ",
                *index,
                " of quantifier ",
                *kind,
                ".",
            ),
            QuantorError::EmptyInput { kind } => {
                let mut s = String::from_str("Empty input for quantifier ");
                s.append(kind.name());
                s.append(".");
                s
            },
            QuantorError::NoMatch { kind } => {
                let mut s = String::from_str("No element satisfied the predicate for quantifier ");
                s.append(kind.name());
                s.append(".");
                s
            },
            QuantorError::UnexpectedMatch { kind, index } => number_and_kind(
                "Unexpected match found at index ",
                *index,
                " of quantifier ",
                *kind,
                ".",
            ),
            QuantorError::NotAllEqual { kind, index } => number_and_kind(
                "Element at index ",
                *index,
                " of quantifier ",
                *kind,
                " does not match the first element.",
            ),
            QuantorError::PairwiseFailed { kind, index } => number_and_kind(
                "Predicate failed for adjacent pair starting at index ",
                *index,
                " for quantifier ",
                *kind,
                ".",
            ),
            QuantorError::ForAllExistsFailed { kind, outer_index } => number_and_kind(
                "Element at index ",
                *outer_index,
                " in the outer collection failed to match any right-hand value for quantifier ",
                *kind,
                ".",
            ),
            QuantorError::ExistsForAllFailed { kind, outer_index } => number_and_kind(
                "Element at index ",
                *outer_index,
                " in the left-hand collection failed the universal condition for quantifier ",
                *kind,
                ".",
            ),
            QuantorError::ExactlyNFailed { kind, found, expected } => {
                let mut s = String::from_str("Expected ");
                push_decimal(&mut s, *expected);
                s.append(" elements to match, found ");
                push_decimal(&mut s, *found);
                s.append(" for quantifier ");
                s.append(kind.name());
                s.append(".");
                s
            },
            QuantorError::Custom(msg) => String::from_str(msg),
        }
    }

    /// Whether the failure is a `PredicateFailed`.
    #[inline]
    #[must_use]
    pub fn is_predicate_failed(&self) -> (b: bool)
        ensures
            b == (self is PredicateFailed),
    {
        matches!(self, QuantorError::PredicateFailed { .. })
    }

    /// Whether the failure is a `NoMatch`.
    #[inline]
    #[must_use]
    pub fn is_no_match(&self) -> (b: bool)
        ensures
            b == (self is NoMatch),
    {
        matches!(self, QuantorError::NoMatch { .. })
    }

    /// The quantifier that produced the failure: the kind that the
    /// descriptor carries, and `Custom` for a `Custom` failure, which carries
    /// none.
    pub open spec fn kind_of(self) -> QuantorKind {
        match self {
            QuantorError::PredicateFailed { kind, .. }
            | QuantorError::EmptyInput { kind }
            | QuantorError::NoMatch { kind }
            | QuantorError::UnexpectedMatch { kind, .. }
            | QuantorError::NotAllEqual { kind, .. }
            | QuantorError::PairwiseFailed { kind, .. }
            | QuantorError::ForAllExistsFailed { kind, .. }
            | QuantorError::ExistsForAllFailed { kind, .. }
            | QuantorError::ExactlyNFailed { kind, .. } => kind,
            QuantorError::Custom(_) => QuantorKind::Custom,
        }
    }

    /// The quantifier that produced the failure; see
    /// [`QuantorError::kind_of`].
    #[inline]
    #[must_use]
    pub fn kind(&self) -> (k: QuantorKind)
        ensures
            k == self.kind_of(),
    {
        match self {
            QuantorError::PredicateFailed { kind, .. } => *kind,
            QuantorError::EmptyInput { kind } => *kind,
            QuantorError::NoMatch { kind } => *kind,
            QuantorError::UnexpectedMatch { kind, .. } => *kind,
            QuantorError::NotAllEqual { kind, .. } => *kind,
            QuantorError::PairwiseFailed { kind, .. } => *kind,
            QuantorError::ForAllExistsFailed { kind, .. } => *kind,
            QuantorError::ExistsForAllFailed { kind, .. } => *kind,
            QuantorError::ExactlyNFailed { kind, .. } => *kind,
            QuantorError::Custom(_) => QuantorKind::Custom,
        }
    }
}

impl From<&'static str> for QuantorError {
    /// A `Custom` failure with the message.
    fn from(msg: &'static str) -> (e: Self) {
        QuantorError::Custom(msg)
    }
}

impl FromSpecImpl<&'static str> for QuantorError {
    open spec fn obeys_from_spec() -> bool {
        true
    }

    open spec fn from_spec(msg: &'static str) -> Self {
        QuantorError::Custom(msg)
    }
}

/// Gives up ownership of `msg` so that its text lives for the rest of the
/// process.
///
/// Trusted: calls `String::leak` of the standard library, which consumes the
/// string and returns a reference to its contents that is never freed. The
/// contract claims that the returned text has the characters of `msg`.
#[verifier::external_body]
fn leak_text(msg: String) -> (text: &'static str)
    ensures
        text@ == msg@,
{
    msg.leak()
}

impl From<String> for QuantorError {
    /// A `Custom` failure with the characters of `msg`. The message is kept
    /// for the rest of the process and never freed.
    fn from(msg: String) -> (e: Self)
        ensures
            e matches QuantorError::Custom(text) && text@ == msg@,
    {
        QuantorError::Custom(leak_text(msg))
    }
}

impl FromSpecImpl<String> for QuantorError {
    /// Not obeyed: the characters of a message do not fix which static text
    /// holds them, so `from` promises a `Custom` failure that reads as the
    /// message and no particular one.
    open spec fn obeys_from_spec() -> bool {
        false
    }

    open spec fn from_spec(msg: String) -> Self {
        QuantorError::Custom(choose|text: &'static str| text@ == msg@)
    }
}

/// Reads the diagnostics out of the result of a quantifier check.
pub trait QuantorResultExt {
    /// The position that the failure points to, if it has one.
    spec fn failing_index_of(&self) -> Option<usize>;

    /// The number of matches that the failure counted, if it counted.
    spec fn match_count_of(&self) -> Option<usize>;

    /// The index of `PredicateFailed`, `UnexpectedMatch` and `PairwiseFailed`
    /// and the outer index of `ForAllExistsFailed`; `None` for success and
    /// for every other variant.
    fn failing_index(&self) -> (i: Option<usize>)
        ensures
            i == self.failing_index_of(),
    ;

    /// `found` of `ExactlyNFailed`; `None` for success and for every other
    /// variant.
    fn match_count(&self) -> (n: Option<usize>)
        ensures
            n == self.match_count_of(),
    ;
}

impl QuantorResultExt for Result<(), QuantorError> {
    open spec fn failing_index_of(&self) -> Option<usize> {
        match *self {
            Err(QuantorError::PredicateFailed { index, .. }) => Some(index),
            Err(QuantorError::UnexpectedMatch { index, .. }) => Some(index),
            Err(QuantorError::PairwiseFailed { index, .. }) => Some(index),
            Err(QuantorError::ForAllExistsFailed { outer_index, .. }) => Some(outer_index),
            _ => None,
        }
    }

    open spec fn match_count_of(&self) -> Option<usize> {
        match *self {
            Err(QuantorError::ExactlyNFailed { found, .. }) => Some(found),
            _ => None,
        }
    }

    #[inline]
    fn failing_index(&self) -> (i: Option<usize>) {
        match self {
            Err(QuantorError::PredicateFailed { index, .. }) => Some(*index),
            Err(QuantorError::UnexpectedMatch { index, .. }) => Some(*index),
            Err(QuantorError::PairwiseFailed { index, .. }) => Some(*index),
            Err(QuantorError::ForAllExistsFailed { outer_index, .. }) => Some(*outer_index),
            _ => None,
        }
    }

    #[inline]
    fn match_count(&self) -> (n: Option<usize>) {
        match self {
            Err(QuantorError::ExactlyNFailed { found, .. }) => Some(*found),
            _ => None,
        }
    }
}

} // verus!
