use quantor::{QuantorError, QuantorKind, QuantorResultExt};

#[test]
fn kind_is_the_one_the_descriptor_carries() {
    let kinds: [QuantorKind; 10] = [
        QuantorKind::Forall,
        QuantorKind::Exists,
        QuantorKind::NoneOf,
        QuantorKind::ExactlyOne,
        QuantorKind::ExactlyN,
        QuantorKind::AllEqual,
        QuantorKind::Pairwise,
        QuantorKind::ForAllExists,
        QuantorKind::ExistsForAll,
        QuantorKind::Custom,
    ];
    for k in kinds {
        assert_eq!(QuantorError::PredicateFailed { kind: k, index: 0 }.kind(), k);
        assert_eq!(QuantorError::EmptyInput { kind: k }.kind(), k);
        assert_eq!(QuantorError::NoMatch { kind: k }.kind(), k);
        assert_eq!(QuantorError::UnexpectedMatch { kind: k, index: 3 }.kind(), k);
        assert_eq!(QuantorError::NotAllEqual { kind: k, index: 1 }.kind(), k);
        assert_eq!(QuantorError::PairwiseFailed { kind: k, index: 0 }.kind(), k);
        assert_eq!(QuantorError::ForAllExistsFailed { kind: k, outer_index: 0 }.kind(), k);
        assert_eq!(QuantorError::ExistsForAllFailed { kind: k, outer_index: 0 }.kind(), k);
        assert_eq!(QuantorError::ExactlyNFailed { kind: k, found: 1, expected: 2 }.kind(), k);
    }
}

#[test]
fn kind_of_a_custom_failure_is_custom() {
    assert_eq!(QuantorError::Custom("x").kind(), QuantorKind::Custom);
    assert_eq!(QuantorError::from("y").kind(), QuantorKind::Custom);
}

#[test]
fn kind_of_a_failure_is_the_quantifier_that_produced_it() {
    let odd = |x: &i32| x % 2 != 0;
    let empty: [i32; 0] = [];
    assert_eq!(quantor::for_all(&[2], odd).unwrap_err().kind(), QuantorKind::Forall);
    assert_eq!(quantor::there_exists(&[2], odd).unwrap_err().kind(), QuantorKind::Exists);
    assert_eq!(quantor::none(&[1], odd).unwrap_err().kind(), QuantorKind::NoneOf);
    assert_eq!(quantor::exactly_one(&empty, odd).unwrap_err().kind(), QuantorKind::ExactlyOne);
    assert_eq!(quantor::exactly_one(&[2], odd).unwrap_err().kind(), QuantorKind::ExactlyOne);
    assert_eq!(quantor::exactly_one(&[1, 3], odd).unwrap_err().kind(), QuantorKind::ExactlyOne);
    assert_eq!(quantor::exactly_n(&[1], 2, odd).unwrap_err().kind(), QuantorKind::ExactlyN);
    assert_eq!(quantor::all_equal(&[1, 2]).unwrap_err().kind(), QuantorKind::AllEqual);
    assert_eq!(
        quantor::pairwise(&[2, 1], |a, b| a < b).unwrap_err().kind(),
        QuantorKind::Pairwise
    );
    assert_eq!(
        quantor::forallexists(&[1], &empty, |_, _| true).unwrap_err().kind(),
        QuantorKind::ForAllExists
    );
    assert_eq!(
        quantor::existsforall(&empty, &[1], |_, _: &i32| true).unwrap_err().kind(),
        QuantorKind::ExistsForAll
    );
}

#[test]
fn variant_tests_tell_the_variants_apart() {
    let failed = QuantorError::PredicateFailed { kind: QuantorKind::Forall, index: 3 };
    let no_match = QuantorError::NoMatch { kind: QuantorKind::Exists };
    assert!(failed.is_predicate_failed());
    assert!(!failed.is_no_match());
    assert!(no_match.is_no_match());
    assert!(!no_match.is_predicate_failed());
    assert!(!QuantorError::Custom("x").is_predicate_failed());
}

#[test]
fn failing_index_reads_the_four_indexed_variants() {
    let k = QuantorKind::Custom;
    let some: [(QuantorError, usize); 4] = [
        (QuantorError::PredicateFailed { kind: k, index: 1 }, 1),
        (QuantorError::UnexpectedMatch { kind: k, index: 2 }, 2),
        (QuantorError::PairwiseFailed { kind: k, index: 3 }, 3),
        (QuantorError::ForAllExistsFailed { kind: k, outer_index: 4 }, 4),
    ];
    for (error, index) in some {
        let result: Result<(), QuantorError> = Err(error);
        assert_eq!(result.failing_index(), Some(index));
        assert_eq!(result.match_count(), None);
    }
}

#[test]
fn failing_index_is_empty_for_the_other_variants() {
    let k = QuantorKind::Custom;
    let none: [QuantorError; 6] = [
        QuantorError::EmptyInput { kind: k },
        QuantorError::NoMatch { kind: k },
        QuantorError::NotAllEqual { kind: k, index: 7 },
        QuantorError::ExistsForAllFailed { kind: k, outer_index: 7 },
        QuantorError::ExactlyNFailed { kind: k, found: 7, expected: 8 },
        QuantorError::Custom("x"),
    ];
    for error in none {
        let result: Result<(), QuantorError> = Err(error);
        assert_eq!(result.failing_index(), None);
    }
    let ok: Result<(), QuantorError> = Ok(());
    assert_eq!(ok.failing_index(), None);
    assert_eq!(ok.match_count(), None);
}

#[test]
fn match_count_reads_found() {
    let result: Result<(), QuantorError> =
        Err(QuantorError::ExactlyNFailed { kind: QuantorKind::ExactlyN, found: 5, expected: 2 });
    assert_eq!(result.match_count(), Some(5));
}

#[test]
fn a_static_message_converts_into_custom() {
    assert_eq!(QuantorError::from("out of range"), QuantorError::Custom("out of range"));
    let converted: QuantorError = "empty".into();
    assert_eq!(converted, QuantorError::Custom("empty"));
    assert_eq!(converted.to_string(), "empty");
}

#[test]
fn kinds_render_as_their_names() {
    let names: [(QuantorKind, &str); 10] = [
        (QuantorKind::Forall, "forall"),
        (QuantorKind::Exists, "exists"),
        (QuantorKind::NoneOf, "none"),
        (QuantorKind::ExactlyOne, "exactly_one"),
        (QuantorKind::ExactlyN, "exactly_n"),
        (QuantorKind::AllEqual, "all_equal"),
        (QuantorKind::Pairwise, "pairwise"),
        (QuantorKind::ForAllExists, "forallexists"),
        (QuantorKind::ExistsForAll, "existsforall"),
        (QuantorKind::Custom, "custom"),
    ];
    for (kind, name) in names {
        assert_eq!(kind.name(), name);
        assert_eq!(kind.to_string(), name);
    }
}

#[test]
fn failures_render_in_one_line() {
    assert_eq!(
        QuantorError::PredicateFailed { kind: QuantorKind::Forall, index: 2 }.to_string(),
        "Predicate failed for element at index 2 of quantifier forall."
    );
    assert_eq!(
        QuantorError::EmptyInput { kind: QuantorKind::ExactlyOne }.to_string(),
        "Empty input for quantifier exactly_one."
    );
    assert_eq!(
        QuantorError::NoMatch { kind: QuantorKind::Exists }.to_string(),
        "No element satisfied the predicate for quantifier exists."
    );
    assert_eq!(
        QuantorError::UnexpectedMatch { kind: QuantorKind::NoneOf, index: 14 }.to_string(),
        "Unexpected match found at index 14 of quantifier none."
    );
    assert_eq!(
        QuantorError::NotAllEqual { kind: QuantorKind::AllEqual, index: 1 }.to_string(),
        "Element at index 1 of quantifier all_equal does not match the first element."
    );
    assert_eq!(
        QuantorError::PairwiseFailed { kind: QuantorKind::Pairwise, index: 0 }.to_string(),
        "Predicate failed for adjacent pair starting at index 0 for quantifier pairwise."
    );
    assert_eq!(
        QuantorError::ForAllExistsFailed { kind: QuantorKind::ForAllExists, outer_index: 3 }
            .to_string(),
        "Element at index 3 in the outer collection failed to match any right-hand value for quantifier forallexists."
    );
    assert_eq!(
        QuantorError::ExistsForAllFailed { kind: QuantorKind::ExistsForAll, outer_index: 0 }
            .to_string(),
        "Element at index 0 in the left-hand collection failed the universal condition for quantifier existsforall."
    );
    assert_eq!(
        QuantorError::ExactlyNFailed { kind: QuantorKind::ExactlyN, found: 3, expected: 2 }
            .to_string(),
        "Expected 2 elements to match, found 3 for quantifier exactly_n."
    );
    assert_eq!(QuantorError::Custom("as given").to_string(), "as given");
}

#[test]
fn rendering_names_the_kind_that_is_carried() {
    assert_eq!(
        QuantorError::PredicateFailed { kind: QuantorKind::ExactlyOne, index: 0 }.to_string(),
        "Predicate failed for element at index 0 of quantifier exactly_one."
    );
}

#[test]
fn numbers_render_in_decimal() {
    let cases: [usize; 9] = [0, 7, 9, 10, 11, 99, 100, 1203, 4_000_000_000];
    for n in cases {
        assert_eq!(
            QuantorError::UnexpectedMatch { kind: QuantorKind::NoneOf, index: n }.to_string(),
            format!("Unexpected match found at index {} of quantifier none.", n)
        );
    }
    assert_eq!(
        QuantorError::ExactlyNFailed {
            kind: QuantorKind::ExactlyN,
            found: usize::MAX,
            expected: 1050,
        }
        .to_string(),
        format!("Expected 1050 elements to match, found {} for quantifier exactly_n.", usize::MAX)
    );
}

#[test]
fn an_owned_message_converts_into_custom() {
    let message = format!("limit {} exceeded", 7);
    let converted = QuantorError::from(message);
    assert_eq!(converted, QuantorError::Custom("limit 7 exceeded"));
    assert_eq!(converted.kind(), QuantorKind::Custom);
    assert_eq!(converted.to_string(), "limit 7 exceeded");
    let empty: QuantorError = String::new().into();
    assert_eq!(empty, QuantorError::Custom(""));
}
