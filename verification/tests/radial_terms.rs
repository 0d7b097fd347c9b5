use horb::error::OrbitalError;
use horb::radial::{factorial, radial_normalisation_terms};

fn numerical(r: Result<u64, OrbitalError>) -> String {
    match r {
        Err(OrbitalError::Numerical(msg)) => msg,
        other => panic!("expected a numerical error, got {:?}", other),
    }
}

#[test]
fn factorial_values() {
    assert_eq!(factorial(0).unwrap(), 1);
    assert_eq!(factorial(1).unwrap(), 1);
    assert_eq!(factorial(5).unwrap(), 120);
    assert_eq!(factorial(20).unwrap(), 2432902008176640000);
}

#[test]
fn factorial_errors() {
    assert_eq!(numerical(factorial(21)), "factorial overflow");
    assert_eq!(numerical(factorial(i32::MAX)), "factorial overflow");
    assert_eq!(numerical(factorial(-1)), "factorial called with negative input");
}

#[test]
fn radial_terms_of_d_z2() {
    let t = radial_normalisation_terms(3, 2).unwrap();
    assert_eq!((t.k, t.alpha, t.k_factorial, t.n_plus_l_factorial), (0, 5, 1, 120));
}

#[test]
fn radial_terms_of_ground_state_and_2s() {
    let t = radial_normalisation_terms(1, 0).unwrap();
    assert_eq!((t.k, t.alpha, t.k_factorial, t.n_plus_l_factorial), (0, 1, 1, 1));
    let t = radial_normalisation_terms(2, 0).unwrap();
    assert_eq!((t.k, t.alpha, t.k_factorial, t.n_plus_l_factorial), (1, 1, 1, 2));
    let t = radial_normalisation_terms(5, 1).unwrap();
    assert_eq!((t.k, t.alpha, t.k_factorial, t.n_plus_l_factorial), (3, 3, 6, 720));
}

#[test]
fn radial_terms_errors() {
    match radial_normalisation_terms(1, 3) {
        Err(OrbitalError::Numerical(msg)) => assert_eq!(msg, "factorial called with negative input"),
        other => panic!("unexpected {:?}", other),
    }
    match radial_normalisation_terms(15, 6) {
        Err(OrbitalError::Numerical(msg)) => assert_eq!(msg, "factorial overflow"),
        other => panic!("unexpected {:?}", other),
    }
    // n read as i32 wraps to -1.
    match radial_normalisation_terms(u32::MAX, 0) {
        Err(OrbitalError::Numerical(msg)) => assert_eq!(msg, "factorial called with negative input"),
        other => panic!("unexpected {:?}", other),
    }
}
