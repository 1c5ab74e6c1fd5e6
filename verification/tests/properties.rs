use quantor::{
    all_equal, exactly_n, existsforall, for_all, forallexists, pairwise, there_exists,
    QuantorResultExt,
};

/// Every sequence over `0..base` of a length up to `max_len`.
fn sequences(base: u32, max_len: usize) -> Vec<Vec<u32>> {
    let mut all = vec![Vec::new()];
    let mut last = vec![Vec::new()];
    for _ in 0..max_len {
        let mut next = Vec::new();
        for s in &last {
            for d in 0..base {
                let mut longer: Vec<u32> = s.clone();
                longer.push(d);
                next.push(longer);
            }
        }
        all.extend(next.iter().cloned());
        last = next;
    }
    all
}

#[test]
fn for_all_succeeds_exactly_when_every_element_satisfies() {
    for xs in sequences(3, 4) {
        let result = for_all(&xs, |x| *x != 1);
        assert_eq!(result.is_ok(), xs.iter().all(|x| *x != 1));
        assert_eq!(result.failing_index(), xs.iter().position(|x| *x == 1));
    }
}

#[test]
fn there_exists_succeeds_exactly_when_an_element_satisfies() {
    for xs in sequences(3, 4) {
        assert_eq!(there_exists(&xs, |x| *x == 2).is_ok(), xs.iter().any(|x| *x == 2));
    }
}

#[test]
fn exactly_n_succeeds_exactly_on_the_number_of_matches() {
    for xs in sequences(2, 4) {
        let matches = xs.iter().filter(|x| **x == 1).count();
        for n in 0..6 {
            let result = exactly_n(&xs, n, |x| *x == 1);
            assert_eq!(result.is_ok(), matches == n);
            if matches != n {
                assert_eq!(result.match_count(), Some(matches));
            }
        }
    }
}

#[test]
fn all_equal_succeeds_exactly_when_any_two_elements_are_equal() {
    for xs in sequences(3, 4) {
        let any_two_equal = xs.iter().all(|a| xs.iter().all(|b| a == b));
        let result = all_equal(&xs);
        assert_eq!(result.is_ok(), any_two_equal);
        if let Err(quantor::QuantorError::NotAllEqual { index, .. }) = result {
            assert!(index >= 1);
            assert_ne!(xs[index], xs[0]);
            assert!(xs[1..index].iter().all(|x| *x == xs[0]));
        }
    }
}

#[test]
fn pairwise_succeeds_exactly_when_every_adjacent_pair_satisfies() {
    for xs in sequences(3, 4) {
        let result = pairwise(&xs, |a, b| a <= b);
        assert_eq!(result.is_ok(), xs.windows(2).all(|w| w[0] <= w[1]));
        assert_eq!(result.failing_index(), xs.windows(2).position(|w| w[0] > w[1]));
    }
}

#[test]
fn forallexists_succeeds_exactly_when_every_left_element_has_a_partner() {
    for a in sequences(3, 3) {
        for b in sequences(3, 2) {
            let result = forallexists(&a, &b, |x, y| x < y);
            assert_eq!(result.is_ok(), a.iter().all(|x| b.iter().any(|y| x < y)));
            assert_eq!(
                result.failing_index(),
                a.iter().position(|x| !b.iter().any(|y| x < y))
            );
        }
    }
}

#[test]
fn existsforall_succeeds_exactly_when_a_left_element_suits_every_right_one() {
    for a in sequences(3, 3) {
        for b in sequences(3, 2) {
            let result = existsforall(&a, &b, |x, y| x > y);
            assert_eq!(result.is_ok(), a.iter().any(|x| b.iter().all(|y| x > y)));
        }
    }
}
