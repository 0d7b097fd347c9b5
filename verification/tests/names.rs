use horb::basis_states::state_id;
use horb::error::{InputError, OrbitalError};
use horb::halo_models::ClassicalHaloKind;
use horb::rows::{baryon_kind, BaryonKind};

#[test]
fn halo_kind_aliases() {
    for s in ["piso", "pseudo_isothermal", "pseudo-isothermal"] {
        assert_eq!(ClassicalHaloKind::parse(s).unwrap(), ClassicalHaloKind::PseudoIsothermal);
    }
    for s in ["nfw", "NFW"] {
        assert_eq!(ClassicalHaloKind::parse(s).unwrap(), ClassicalHaloKind::Nfw);
    }
    assert_eq!(ClassicalHaloKind::parse("burkert").unwrap(), ClassicalHaloKind::Burkert);
}

#[test]
fn halo_kind_label_roundtrip() {
    for k in [ClassicalHaloKind::PseudoIsothermal, ClassicalHaloKind::Nfw, ClassicalHaloKind::Burkert] {
        assert_eq!(ClassicalHaloKind::parse(k.label()).unwrap(), k);
    }
    assert_eq!(ClassicalHaloKind::Nfw.label(), "nfw");
}

#[test]
fn halo_kind_unknown_name() {
    match ClassicalHaloKind::parse("Burkert") {
        Err(OrbitalError::InvalidParameter { name, reason }) => {
            assert_eq!(name, "classical_halo_kind");
            assert_eq!(reason, "unknown halo kind 'Burkert'; use piso, nfw, or burkert");
        }
        other => panic!("unexpected {:?}", other),
    }
}

#[test]
fn basis_state_ids() {
    let table = [
        ("1s", 0),
        ("2p_z", 10),
        ("2p_x", 11),
        ("2p_y", 12),
        ("3d_z2", 20),
        ("3d_x2_y2", 21),
        ("3d_xy", 22),
        ("3d_xz", 23),
        ("3d_yz", 24),
    ];
    for (name, id) in table {
        assert_eq!(state_id(name).unwrap(), id);
    }
    match state_id("3d_zz") {
        Err(InputError::UnknownState { name }) => assert_eq!(name, "3d_zz"),
        other => panic!("unexpected {:?}", other),
    }
}

#[test]
fn baryon_kind_names() {
    for s in ["disk", "exponential_disk", "exponential-disk"] {
        assert_eq!(baryon_kind(s), Some(BaryonKind::ExponentialDisk));
    }
    for s in ["bulge", "hernquist", "hernquist_bulge", "hernquist-bulge"] {
        assert_eq!(baryon_kind(s), Some(BaryonKind::HernquistBulge));
    }
    assert_eq!(baryon_kind("gas"), None);
    assert_eq!(baryon_kind("Disk"), None);
}
