//! Command selection of the rotation-curve tool.

use crate::text::str_eq;
use vstd::prelude::*;
use vstd::string::StringExecFns;

verus! {

/// The usage text of the rotation-curve tool.
pub const CURVE_FITTER_USAGE: &'static str = "usage:\n\
         cargo run -p curve_fitter -- curve      <state> <a0_star_kpc> <dm_mass_msun>\n\
         cargo run -p curve_fitter -- density    <state> <a0_star_kpc> <dm_mass_msun>\n\
         cargo run -p curve_fitter -- xz         <state> <a0_star_kpc> <dm_mass_msun>\n\
         cargo run -p curve_fitter -- total      <state> <a0_star_kpc> <dm_mass_msun> <disk_mass_msun> <disk_scale_kpc> <bulge_mass_msun> <bulge_scale_kpc>\n\
         cargo run -p curve_fitter -- halo       <halo_kind> <scale_kpc> <m_ref_msun> <r_ref_kpc>\n\
         cargo run -p curve_fitter -- compare_dm <state> <a0_star_kpc> <dm_mass_msun> <piso_rc_kpc> <nfw_rs_kpc> <burkert_r0_kpc> <r_ref_kpc>\n\
         cargo run -p curve_fitter -- compare_dm_fixed_baselines <state> <a0_star_kpc> <horb_mass_msun> <baseline_mass_msun> <piso_rc_kpc> <nfw_rs_kpc> <burkert_r0_kpc> <r_ref_kpc>\n\
         \n\
         states: 1s, 3d_z2\n\
         halo_kind: piso, nfw, burkert\n\
         \n\
         examples:\n\
         cargo run -p curve_fitter -- halo nfw 15.0 1e11 80.0\n\
         cargo run -p curve_fitter -- compare_dm 3d_z2 1.5 1e11 5.0 15.0 8.0 80.0\n\
         cargo run -p curve_fitter -- compare_dm_fixed_baselines 3d_z2 1.5 5e10 1e11 5.0 15.0 8.0 80.0";

/// The tool's modes.
#[derive(Debug, Clone, Copy, PartialEq, Eq, Structural)]
pub enum Mode {
    Curve,
    Density,
    Xz,
    Total,
    Halo,
    CompareDm,
    CompareDmFixedBaselines,
    FitStandardRc,
    FitStandardRcMultiBaryons,
}

/// The mode that a command line selects, `None` where the usage text is
/// owed instead. `args[0]` is the program, `args[1]` the mode; each mode but
/// the two fitting modes takes a fixed number of further arguments.
pub open spec fn mode_of(args: Seq<Seq<char>>) -> Option<Mode> {
    if args.len() < 2 {
        None
    } else {
        let m = args[1];
        let n = args.len();
        if m == "curve"@ {
            if n == 5 { Some(Mode::Curve) } else { None }
        } else if m == "density"@ {
            if n == 5 { Some(Mode::Density) } else { None }
        } else if m == "xz"@ {
            if n == 5 { Some(Mode::Xz) } else { None }
        } else if m == "total"@ {
            if n == 9 { Some(Mode::Total) } else { None }
        } else if m == "halo"@ {
            if n == 6 { Some(Mode::Halo) } else { None }
        } else if m == "compare_dm"@ {
            if n == 9 { Some(Mode::CompareDm) } else { None }
        } else if m == "compare_dm_fixed_baselines"@ {
            if n == 10 { Some(Mode::CompareDmFixedBaselines) } else { None }
        } else if m == "fit_standard_rc"@ {
            Some(Mode::FitStandardRc)
        } else if m == "fit_standard_rc_multi_baryons"@ {
            Some(Mode::FitStandardRcMultiBaryons)
        } else {
            None
        }
    }
}

/// The word that names each mode on the command line.
pub open spec fn mode_word(md: Mode) -> Seq<char> {
    match md {
        Mode::Curve => "curve"@,
        Mode::Density => "density"@,
        Mode::Xz => "xz"@,
        Mode::Total => "total"@,
        Mode::Halo => "halo"@,
        Mode::CompareDm => "compare_dm"@,
        Mode::CompareDmFixedBaselines => "compare_dm_fixed_baselines"@,
        Mode::FitStandardRc => "fit_standard_rc"@,
        Mode::FitStandardRcMultiBaryons => "fit_standard_rc_multi_baryons"@,
    }
}

/// Whether a command line of `count` words (program and mode included) has
/// the length that the mode takes; the two fitting modes check their own
/// arguments.
pub open spec fn arity_fits(md: Mode, count: nat) -> bool {
    match md {
        Mode::Curve | Mode::Density | Mode::Xz => count == 5,
        Mode::Total | Mode::CompareDm => count == 9,
        Mode::Halo => count == 6,
        Mode::CompareDmFixedBaselines => count == 10,
        Mode::FitStandardRc | Mode::FitStandardRcMultiBaryons => true,
    }
}

/// Distinct modes have distinct words.
pub proof fn lemma_mode_words_distinct(a: Mode, b: Mode)
    requires
        a != b,
    ensures
        mode_word(a) != mode_word(b),
{
    reveal_strlit("curve");
    reveal_strlit("density");
    reveal_strlit("xz");
    reveal_strlit("total");
    reveal_strlit("halo");
    reveal_strlit("compare_dm");
    reveal_strlit("compare_dm_fixed_baselines");
    reveal_strlit("fit_standard_rc");
    reveal_strlit("fit_standard_rc_multi_baryons");
    assert("curve"@.len() == 5);
    assert("density"@.len() == 7);
    assert("xz"@.len() == 2);
    assert("total"@.len() == 5);
    assert("halo"@.len() == 4);
    assert("compare_dm"@.len() == 10);
    assert("compare_dm_fixed_baselines"@.len() == 26);
    assert("fit_standard_rc"@.len() == 15);
    assert("fit_standard_rc_multi_baryons"@.len() == 29);
    assert("curve"@[0] != "total"@[0]);
}

/// A command line selects a mode exactly when its second word names that
/// mode and it has the mode's length; each mode word selects the mode of the
/// same name.
pub proof fn lemma_mode_of_words(args: Seq<Seq<char>>, md: Mode)
    ensures
        mode_of(args) == Some(md) <==> (args.len() >= 2 && args[1] == mode_word(md) && arity_fits(
            md,
            args.len(),
        )),
{
    if args.len() >= 2 {
        let w = args[1];
        assert forall|x: Mode| #[trigger] mode_word(x) == w implies x == md || mode_word(md) != w by {
            if x != md {
                lemma_mode_words_distinct(x, md);
            }
        }
        lemma_mode_words_distinct(Mode::Curve, Mode::Density);
        lemma_mode_words_distinct(Mode::Curve, Mode::Xz);
        lemma_mode_words_distinct(Mode::Curve, Mode::Total);
        lemma_mode_words_distinct(Mode::Curve, Mode::Halo);
        lemma_mode_words_distinct(Mode::Curve, Mode::CompareDm);
        lemma_mode_words_distinct(Mode::Curve, Mode::CompareDmFixedBaselines);
        lemma_mode_words_distinct(Mode::Curve, Mode::FitStandardRc);
        lemma_mode_words_distinct(Mode::Curve, Mode::FitStandardRcMultiBaryons);
        lemma_mode_words_distinct(Mode::Density, Mode::Xz);
        lemma_mode_words_distinct(Mode::Density, Mode::Total);
        lemma_mode_words_distinct(Mode::Density, Mode::Halo);
        lemma_mode_words_distinct(Mode::Density, Mode::CompareDm);
        lemma_mode_words_distinct(Mode::Density, Mode::CompareDmFixedBaselines);
        lemma_mode_words_distinct(Mode::Density, Mode::FitStandardRc);
        lemma_mode_words_distinct(Mode::Density, Mode::FitStandardRcMultiBaryons);
        lemma_mode_words_distinct(Mode::Xz, Mode::Total);
        lemma_mode_words_distinct(Mode::Xz, Mode::Halo);
        lemma_mode_words_distinct(Mode::Xz, Mode::CompareDm);
        lemma_mode_words_distinct(Mode::Xz, Mode::CompareDmFixedBaselines);
        lemma_mode_words_distinct(Mode::Xz, Mode::FitStandardRc);
        lemma_mode_words_distinct(Mode::Xz, Mode::FitStandardRcMultiBaryons);
        lemma_mode_words_distinct(Mode::Total, Mode::Halo);
        lemma_mode_words_distinct(Mode::Total, Mode::CompareDm);
        lemma_mode_words_distinct(Mode::Total, Mode::CompareDmFixedBaselines);
        lemma_mode_words_distinct(Mode::Total, Mode::FitStandardRc);
        lemma_mode_words_distinct(Mode::Total, Mode::FitStandardRcMultiBaryons);
        lemma_mode_words_distinct(Mode::Halo, Mode::CompareDm);
        lemma_mode_words_distinct(Mode::Halo, Mode::CompareDmFixedBaselines);
        lemma_mode_words_distinct(Mode::Halo, Mode::FitStandardRc);
        lemma_mode_words_distinct(Mode::Halo, Mode::FitStandardRcMultiBaryons);
        lemma_mode_words_distinct(Mode::CompareDm, Mode::CompareDmFixedBaselines);
        lemma_mode_words_distinct(Mode::CompareDm, Mode::FitStandardRc);
        lemma_mode_words_distinct(Mode::CompareDm, Mode::FitStandardRcMultiBaryons);
        lemma_mode_words_distinct(Mode::CompareDmFixedBaselines, Mode::FitStandardRc);
        lemma_mode_words_distinct(Mode::CompareDmFixedBaselines, Mode::FitStandardRcMultiBaryons);
        lemma_mode_words_distinct(Mode::FitStandardRc, Mode::FitStandardRcMultiBaryons);
    }
}

/// Two command lines that select the same mode name it with the same word.
pub proof fn lemma_mode_selection_injective(a: Seq<Seq<char>>, b: Seq<Seq<char>>)
    requires
        mode_of(a) is Some,
        mode_of(a) == mode_of(b),
    ensures
        a[1] == b[1],
{
    let md = mode_of(a)->0;
    lemma_mode_of_words(a, md);
    lemma_mode_of_words(b, md);
}

/// Selects the mode of a command line.
pub fn select_mode(args: &Vec<String>) -> (r: Option<Mode>)
    ensures
        r == mode_of(args@.map_values(|s: String| s@)),
        r matches Some(md) ==> (args.len() >= 2 && args@[1]@ == mode_word(md) && arity_fits(
            md,
            args.len() as nat,
        )),
        forall|md: Mode|
            args.len() >= 2 && args@[1]@ == #[trigger] mode_word(md) && arity_fits(md, args.len() as nat)
                ==> r == Some(md),
{
    proof {
        let a = args@.map_values(|s: String| s@);
        assert forall|md: Mode| #[trigger] mode_word(md) == mode_word(md) implies (mode_of(a)
            == Some(md) <==> (a.len() >= 2 && a[1] == mode_word(md) && arity_fits(md, a.len()))) by {
            lemma_mode_of_words(a, md);
        }
        if args.len() >= 2 {
            assert(a[1] == args@[1]@);
        }
    }
    let ghost a = args@.map_values(|s: String| s@);
    let n = args.len();
    if n < 2 {
        return None;
    }
    let m = args[1].as_str();
    assert(m@ == a[1]);
    if str_eq(m, "curve") {
        if n == 5 { Some(Mode::Curve) } else { None }
    } else if str_eq(m, "density") {
        if n == 5 { Some(Mode::Density) } else { None }
    } else if str_eq(m, "xz") {
        if n == 5 { Some(Mode::Xz) } else { None }
    } else if str_eq(m, "total") {
        if n == 9 { Some(Mode::Total) } else { None }
    } else if str_eq(m, "halo") {
        if n == 6 { Some(Mode::Halo) } else { None }
    } else if str_eq(m, "compare_dm") {
        if n == 9 { Some(Mode::CompareDm) } else { None }
    } else if str_eq(m, "compare_dm_fixed_baselines") {
        if n == 10 { Some(Mode::CompareDmFixedBaselines) } else { None }
    } else if str_eq(m, "fit_standard_rc") {
        Some(Mode::FitStandardRc)
    } else if str_eq(m, "fit_standard_rc_multi_baryons") {
        Some(Mode::FitStandardRcMultiBaryons)
    } else {
        None
    }
}

/// The usage error of the rotation-curve tool: always `Err` with the usage
/// text.
pub fn print_usage_and_exit() -> (r: Result<(), String>)
    ensures
        r matches Err(msg) && msg@ == CURVE_FITTER_USAGE@,
{
    Err(String::from_str(CURVE_FITTER_USAGE))
}

} // verus!
