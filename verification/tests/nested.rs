use quantor::{existsforall, forallexists, QuantorError, QuantorKind, QuantorResultExt};
use std::cell::Cell;

#[test]
fn forallexists_succeeds_when_every_left_element_has_a_partner() {
    assert_eq!(forallexists(&[1, 2], &[3, 4, 5], |x, y| x < y), Ok(()));
    assert_eq!(forallexists(&[1, 2], &[2, 3, 4], |x, y| x < y), Ok(()));
}

#[test]
fn forallexists_reports_the_first_left_element_without_partner() {
    let result = forallexists(&[1, 10, 2, 20], &[2, 3, 4], |x, y| x < y);
    assert_eq!(
        result,
        Err(QuantorError::ForAllExistsFailed { kind: QuantorKind::ForAllExists, outer_index: 1 })
    );
    assert_eq!(result.failing_index(), Some(1));
}

#[test]
fn forallexists_is_vacuously_true_on_empty_left() {
    let empty: [i32; 0] = [];
    assert_eq!(forallexists(&empty, &[1, 2], |_, _: &i32| false), Ok(()));
    assert_eq!(forallexists(&empty, &empty, |_, _| false), Ok(()));
}

#[test]
fn forallexists_fails_at_zero_on_empty_right() {
    let empty: [i32; 0] = [];
    assert_eq!(
        forallexists(&[1, 2], &empty, |_, _| true),
        Err(QuantorError::ForAllExistsFailed { kind: QuantorKind::ForAllExists, outer_index: 0 })
    );
}

#[test]
fn forallexists_stops_at_the_first_partner() {
    let calls = Cell::new(0);
    let result = forallexists(&[1, 2], &[5, 6, 7], |x, y| {
        calls.set(calls.get() + 1);
        x < y
    });
    assert!(result.is_ok());
    assert_eq!(calls.get(), 2);
}

#[test]
fn forallexists_takes_elements_of_differing_types() {
    let words = ["a", "bbb"];
    let lengths = [3usize, 1];
    assert_eq!(forallexists(&words, &lengths, |w, n| w.len() == *n), Ok(()));
}

#[test]
fn existsforall_succeeds_when_a_left_element_dominates() {
    assert_eq!(existsforall(&[5, 10], &[1, 2], |x, y| x > y), Ok(()));
    assert_eq!(existsforall(&[0, 1, 9], &[1, 2], |x, y| x > y), Ok(()));
}

#[test]
fn existsforall_failure_always_carries_index_zero() {
    let result = existsforall(&[0, 1], &[1, 2], |x, y| x > y);
    assert_eq!(
        result,
        Err(QuantorError::ExistsForAllFailed { kind: QuantorKind::ExistsForAll, outer_index: 0 })
    );
    assert_eq!(result.failing_index(), None);
}

#[test]
fn existsforall_fails_on_empty_left() {
    let empty: [i32; 0] = [];
    assert_eq!(
        existsforall(&empty, &[1, 2], |_, _: &i32| true),
        Err(QuantorError::ExistsForAllFailed { kind: QuantorKind::ExistsForAll, outer_index: 0 })
    );
}

#[test]
fn existsforall_succeeds_on_empty_right() {
    let empty: [i32; 0] = [];
    let calls = Cell::new(0);
    let result = existsforall(&[1, 2], &empty, |_, _| {
        calls.set(calls.get() + 1);
        false
    });
    assert_eq!(result, Ok(()));
    assert_eq!(calls.get(), 0);
}

#[test]
fn existsforall_stops_at_the_first_failure_of_each_left_element() {
    let calls = Cell::new(0);
    let result = existsforall(&[0, 9], &[1, 2, 3], |x, y| {
        calls.set(calls.get() + 1);
        x > y
    });
    assert!(result.is_ok());
    assert_eq!(calls.get(), 4);
}
