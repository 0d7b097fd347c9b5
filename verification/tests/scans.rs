use horb::cli::{print_usage_and_exit, select_mode, Mode, CURVE_FITTER_USAGE};
use horb::coeffs::integer_coeff_vectors;
use horb::quadrature::simpson_weight;

#[test]
fn coeff_vectors_small_box() {
    assert_eq!(
        integer_coeff_vectors(2, 1),
        vec![vec![0, 1], vec![1, -1], vec![1, 0], vec![1, 1]]
    );
    assert_eq!(integer_coeff_vectors(1, 2), vec![vec![1], vec![2]]);
}

#[test]
fn coeff_vectors_degenerate_inputs() {
    assert!(integer_coeff_vectors(0, 2).is_empty());
    assert!(integer_coeff_vectors(3, 0).is_empty());
    assert!(integer_coeff_vectors(3, -1).is_empty());
}

#[test]
fn coeff_vectors_one_per_sign_class() {
    let out = integer_coeff_vectors(3, 2);
    assert_eq!(out.len(), (5 * 5 * 5 - 1) / 2);
    for v in &out {
        assert!(v.iter().any(|&x| x != 0));
        let neg: Vec<i32> = v.iter().map(|&x| -x).collect();
        assert!(!out.contains(&neg));
        let first = v.iter().find(|&&x| x != 0).unwrap();
        assert!(*first > 0);
    }
    let mut sorted = out.clone();
    sorted.sort();
    sorted.dedup();
    assert_eq!(sorted, out);
}

#[test]
fn simpson_weights() {
    let w: Vec<u32> = (0..=4).map(|i| simpson_weight(i, 4)).collect();
    assert_eq!(w, vec![1, 4, 2, 4, 1]);
    let total4: u32 = (0..=4).map(|i| simpson_weight(i, 4)).sum();
    assert_eq!(total4, 12);
    let total5: u32 = (0..=5).map(|i| simpson_weight(i, 5)).sum();
    assert_eq!(total5, 14);
}

fn args(v: &[&str]) -> Vec<String> {
    v.iter().map(|s| s.to_string()).collect()
}

#[test]
fn mode_selection() {
    assert_eq!(select_mode(&args(&["cf", "curve", "1s", "1.0", "1e11"])), Some(Mode::Curve));
    assert_eq!(select_mode(&args(&["cf", "xz", "1s", "1.0", "1e11"])), Some(Mode::Xz));
    assert_eq!(select_mode(&args(&["cf", "curve", "1s", "1.0"])), None);
    assert_eq!(select_mode(&args(&["cf", "halo", "nfw", "15.0", "1e11", "80.0"])), Some(Mode::Halo));
    assert_eq!(
        select_mode(&args(&["cf", "total", "1s", "1", "2", "3", "4", "5", "6"])),
        Some(Mode::Total)
    );
    assert_eq!(
        select_mode(&args(&["cf", "compare_dm_fixed_baselines", "a", "b", "c", "d", "e", "f", "g", "h"])),
        Some(Mode::CompareDmFixedBaselines)
    );
    assert_eq!(select_mode(&args(&["cf", "fit_standard_rc"])), Some(Mode::FitStandardRc));
    assert_eq!(select_mode(&args(&["cf"])), None);
    assert_eq!(select_mode(&args(&["cf", "plot"])), None);
}

#[test]
fn usage_is_an_error() {
    let e = print_usage_and_exit().unwrap_err();
    assert_eq!(e, CURVE_FITTER_USAGE);
    assert!(e.starts_with("usage:\ncargo run -p curve_fitter -- curve      <state>"));
    assert!(e.ends_with("5.0 15.0 8.0 80.0"));
}
