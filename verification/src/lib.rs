//! Logical quantifiers over finite sequences, with verified contracts.
//!
//! Every check takes a slice and an executable predicate and either succeeds or
//! returns a [`QuantorError`] that names the quantifier and locates the first
//! counterexample. Selections return borrows into the slice.
//!
//! Contracts are stated over the `Seq` view of the slice and over a
//! mathematical predicate that the executable one computes
//! (see [`predicate`]). Laws that relate several operations are proved in
//! [`laws`].
//!
//! [`fnmeta`] is a small companion: it finds, in the tokens of a function,
//! the body that is to receive the function's name.

pub mod equality;
pub mod error;
pub mod fnmeta;
pub mod laws;
pub mod predicate;
pub mod prelude;
pub mod quantifiers;
pub mod quantor_ext;
pub mod text;

pub use error::{QuantorError, QuantorKind, QuantorResultExt};
pub use quantifiers::{
    all_equal, exactly_n, exactly_one, existsforall, failing_elements, for_all, forallexists, none,
    pairwise, select_duplicates, select_unique, select_where, there_exists,
};
pub use quantor_ext::QuantorExt;
