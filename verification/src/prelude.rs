//! The whole interface in one import: the checks, the selections and the
//! method form of both.

pub use crate::quantifiers::basic::{
    all_equal, exactly_n, exactly_one, for_all, none, there_exists,
};
pub use crate::quantifiers::nested::{existsforall, forallexists};
pub use crate::quantifiers::selection::{select_duplicates, select_unique, select_where};
pub use crate::quantifiers::structured::{failing_elements, pairwise};
pub use crate::quantor_ext::QuantorExt;
