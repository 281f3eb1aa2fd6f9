use collatz::generic;
use collatz::generic::ParameterFault;
use collatz::parameterised;

#[test]
fn parameterised_forward_scenarios() {
    assert_eq!(parameterised::function(17, 2, 3, 3), 54);
    assert_eq!(parameterised::function(12, 3, 5, 1), 4);
    assert_eq!(parameterised::function(-7, 2, 3, 3), -18);
    // a negative modulus divides exactly as well
    assert_eq!(parameterised::function(6, -3, 2, 5), -2);
}

#[test]
fn checked_forward_matches_branch_rule() {
    assert_eq!(generic::function(17, 2, 3, 3), Ok(54));
    assert_eq!(generic::function(9, 3, 5, 2), Ok(3));
    assert_eq!(generic::function(7, 3, 5, 2), Ok(37));
}

#[test]
fn checked_forward_rejects_zero_modulus() {
    let e = generic::function(7, 0, 5, 1).unwrap_err();
    assert_eq!(e.fault, ParameterFault::ZeroModulus);
    assert_eq!(e.message(), "'p' should not be 0 ~ violates modulo being non-zero.");
}

#[test]
fn checked_forward_rejects_zero_multiplier() {
    let e = generic::function(7, 3, 0, 1).unwrap_err();
    assert_eq!(e.fault, ParameterFault::ZeroMultiplier);
    assert_eq!(e.message(), "'a' should not be 0 ~ violates the reversability.");
}

#[test]
fn validation_is_independent_of_subject_and_offset() {
    for n in [-9i128, 0, 3, 1000] {
        for b in [-2i128, 0, 7] {
            assert_eq!(generic::function(n, 0, 9, b).unwrap_err().fault, ParameterFault::ZeroModulus);
            // a zero modulus is reported first, even beside a zero multiplier
            assert_eq!(generic::function(n, 0, 0, b).unwrap_err().fault, ParameterFault::ZeroModulus);
            assert_eq!(generic::function(n, 4, 0, b).unwrap_err().fault, ParameterFault::ZeroMultiplier);
        }
    }
}

#[test]
fn sanity_check_alone() {
    assert_eq!(generic::assert_sane_parameterisation(2, 3, 100), Ok(()));
    assert_eq!(
        generic::assert_sane_parameterisation(0, 3, 1).unwrap_err().fault,
        ParameterFault::ZeroModulus,
    );
    assert_eq!(
        generic::assert_sane_parameterisation(5, 0, 1).unwrap_err().fault,
        ParameterFault::ZeroMultiplier,
    );
}

#[test]
fn parameterised_reverse_scenarios() {
    // -2 is divisible by 2 but not by 10, so a second pre-image exists,
    // and 2 * -1 + 3 == 1 indeed steps back to the subject
    assert_eq!(parameterised::reverse_function(1, 5, 2, 3), (5, Some(-1)));
    assert_eq!(parameterised::function(-1, 5, 2, 3), 1);
    // classical parameters reproduce the classical reverse
    assert_eq!(parameterised::reverse_function(16, 2, 3, 1), (32, Some(5)));
    assert_eq!(parameterised::reverse_function(13, 2, 3, 1), (26, None));
    assert_eq!(generic::reverse_function(16, 2, 3, 1), (32, Some(5)));
    assert_eq!(generic::reverse_function(13, 2, 3, 1), (26, None));
}

#[test]
fn multiplied_predecessor_round_trips() {
    for (n, p, a, b) in [(4i128, 3i128, 5i128, 1i128), (0, 7, 2, 9), (-6, -2, 3, 1)] {
        let (d, _) = parameterised::reverse_function(n, p, a, b);
        assert_eq!(d, p * n);
        assert_eq!(parameterised::function(d, p, a, b), n);
    }
}

#[test]
fn second_predecessor_round_trips() {
    for (n, p, a, b) in [(16i128, 2i128, 3i128, 1i128), (1, 5, 2, 3), (10, 2, 3, 1)] {
        let (_, m) = parameterised::reverse_function(n, p, a, b);
        let m = m.unwrap();
        assert_ne!(m % p, 0);
        assert_eq!(parameterised::function(m, p, a, b), n);
    }
}
