use horb::angular::{HarmonicComponent, RealSphericalHarmonic};
use horb::error::OrbitalError;
use horb::quantum::{curve_state, spectroscopic_label, validate_quantum_numbers};

fn reason_of(r: Result<(), OrbitalError>) -> String {
    match r {
        Err(OrbitalError::InvalidQuantumNumbers { reason }) => reason,
        other => panic!("expected an invalid-quantum-numbers error, got {:?}", other),
    }
}

#[test]
fn quantum_numbers_reject_bad_values() {
    assert_eq!(reason_of(validate_quantum_numbers(0, 0, 0)), "n must be >= 1");
    assert_eq!(reason_of(validate_quantum_numbers(2, 2, 0)), "l=2 must be < n=2");
    assert_eq!(reason_of(validate_quantum_numbers(3, 2, 3)), "|m|=3 must be <= l=2");
    assert_eq!(reason_of(validate_quantum_numbers(3, 2, -3)), "|m|=3 must be <= l=2");
}

#[test]
fn quantum_numbers_accept_valid_states() {
    assert!(validate_quantum_numbers(1, 0, 0).is_ok());
    assert!(validate_quantum_numbers(3, 2, 0).is_ok());
    assert!(validate_quantum_numbers(4, 3, -2).is_ok());
    assert!(validate_quantum_numbers(4, 3, 3).is_ok());
}

#[test]
fn quantum_numbers_checked_in_order() {
    // n is reported before l, l before m.
    assert_eq!(reason_of(validate_quantum_numbers(0, 5, 9)), "n must be >= 1");
    assert_eq!(reason_of(validate_quantum_numbers(3, 7, 9)), "l=7 must be < n=3");
    assert_eq!(reason_of(validate_quantum_numbers(12, 10, 11)), "|m|=11 must be <= l=10");
}

#[test]
fn spectroscopic_labels_match_convention() {
    assert_eq!(spectroscopic_label(1, 0, 0), "1s");
    assert_eq!(spectroscopic_label(3, 2, 0), "3d_z2");
    assert_eq!(spectroscopic_label(2, 1, 0), "2pz");
    assert_eq!(spectroscopic_label(4, 3, 0), "4fz3");
    assert_eq!(spectroscopic_label(4, 3, 2), "4f+2");
    assert_eq!(spectroscopic_label(4, 3, -2), "4f-2");
    assert_eq!(spectroscopic_label(5, 4, 0), "5gm0");
    assert_eq!(spectroscopic_label(6, 5, -5), "6h-5");
    assert_eq!(spectroscopic_label(8, 6, 0), "8?m0");
    assert_eq!(spectroscopic_label(10, 0, 0), "10s");
    assert_eq!(spectroscopic_label(120, 11, 10), "120?+10");
}

#[test]
fn curve_tool_state_names() {
    assert_eq!(curve_state("1s"), Some((1, 0, 0)));
    assert_eq!(curve_state("3d_z2"), Some((3, 2, 0)));
    assert_eq!(curve_state("2p_z"), None);
    assert_eq!(curve_state(""), None);
}

#[test]
fn harmonic_rejects_m_beyond_l() {
    match RealSphericalHarmonic::new(2, 3) {
        Err(OrbitalError::InvalidQuantumNumbers { reason }) => {
            assert_eq!(reason, "|m|=3 must be <= l=2")
        }
        other => panic!("unexpected {:?}", other),
    }
    let y = RealSphericalHarmonic::new(2, -2).unwrap();
    assert_eq!((y.l, y.m), (2, -2));
}

#[test]
fn harmonic_components_cover_s_p_d() {
    let cases = [
        (0, 0, HarmonicComponent::S),
        (1, 0, HarmonicComponent::Pz),
        (1, 1, HarmonicComponent::Px),
        (1, -1, HarmonicComponent::Py),
        (2, 0, HarmonicComponent::Dz2),
        (2, 1, HarmonicComponent::Dxz),
        (2, -1, HarmonicComponent::Dyz),
        (2, 2, HarmonicComponent::Dx2y2),
        (2, -2, HarmonicComponent::Dxy),
    ];
    for (l, m, c) in cases {
        let y = RealSphericalHarmonic::new(l, m).unwrap();
        assert_eq!(y.component().unwrap(), c);
    }
}

#[test]
fn harmonic_beyond_d_is_not_implemented() {
    let y = RealSphericalHarmonic::new(3, -1).unwrap();
    match y.component() {
        Err(OrbitalError::Numerical(msg)) => {
            assert_eq!(msg, "real spherical harmonic l=3, m=-1 not implemented yet")
        }
        other => panic!("unexpected {:?}", other),
    }
}

#[test]
fn curve_states_are_evaluable() {
    for name in ["1s", "3d_z2"] {
        let (n, l, m) = curve_state(name).unwrap();
        assert!(validate_quantum_numbers(n, l, m).is_ok());
        assert!(RealSphericalHarmonic::new(l, m).unwrap().component().is_ok());
        assert!(horb::radial::radial_normalisation_terms(n, l).is_ok());
    }
}
