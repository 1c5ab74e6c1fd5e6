//! The quantifier checks and the selections.

pub mod basic;
pub mod nested;
pub mod selection;
pub mod structured;

pub use basic::{
    all_equal, all_equal_outcome, exactly_n, exactly_n_outcome, exactly_one, exactly_one_outcome,
    for_all, for_all_outcome, none, none_outcome, there_exists, there_exists_outcome,
};
pub use nested::{existsforall, existsforall_outcome, forallexists, forallexists_outcome};
pub use selection::{holds_duplicates_of, select_duplicates, select_unique, select_where};
pub use structured::{failing_elements, pairwise, pairwise_outcome};
