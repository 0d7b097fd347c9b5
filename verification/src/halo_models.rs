//! Names of the classical spherical halo profiles.

use crate::error::OrbitalError;
use crate::text::str_eq;
use vstd::prelude::*;
use vstd::string::StringExecFns;

verus! {

/// The classical halo profiles compared against the orbital halo.
#[derive(Debug, Clone, Copy, PartialEq, Eq, Structural)]
pub enum ClassicalHaloKind {
    PseudoIsothermal,
    Nfw,
    Burkert,
}

/// The profile that a name selects: `piso`, `pseudo_isothermal` or
/// `pseudo-isothermal`; `nfw` or `NFW`; `burkert`.
pub open spec fn halo_kind_of(s: Seq<char>) -> Option<ClassicalHaloKind> {
    if s == "piso"@ || s == "pseudo_isothermal"@ || s == "pseudo-isothermal"@ {
        Some(ClassicalHaloKind::PseudoIsothermal)
    } else if s == "nfw"@ || s == "NFW"@ {
        Some(ClassicalHaloKind::Nfw)
    } else if s == "burkert"@ {
        Some(ClassicalHaloKind::Burkert)
    } else {
        None
    }
}

/// The short name of a profile.
pub open spec fn halo_label_of(k: ClassicalHaloKind) -> Seq<char> {
    match k {
        ClassicalHaloKind::PseudoIsothermal => "piso"@,
        ClassicalHaloKind::Nfw => "nfw"@,
        ClassicalHaloKind::Burkert => "burkert"@,
    }
}

/// The accepted names, spelled out: `piso`, `pseudo_isothermal`,
/// `pseudo-isothermal` for the pseudo-isothermal profile, `nfw`, `NFW` for
/// NFW, `burkert` for Burkert.
pub open spec fn names_profile(s: Seq<char>, k: ClassicalHaloKind) -> bool {
    match k {
        ClassicalHaloKind::PseudoIsothermal => s == seq!['p', 'i', 's', 'o'] || s == seq![
            'p',
            's',
            'e',
            'u',
            'd',
            'o',
            '_',
            'i',
            's',
            'o',
            't',
            'h',
            'e',
            'r',
            'm',
            'a',
            'l',
        ] || s == seq![
            'p',
            's',
            'e',
            'u',
            'd',
            'o',
            '-',
            'i',
            's',
            'o',
            't',
            'h',
            'e',
            'r',
            'm',
            'a',
            'l',
        ],
        ClassicalHaloKind::Nfw => s == seq!['n', 'f', 'w'] || s == seq!['N', 'F', 'W'],
        ClassicalHaloKind::Burkert => s == seq!['b', 'u', 'r', 'k', 'e', 'r', 't'],
    }
}

/// The profile names read as the fixed table of accepted names says.
pub proof fn lemma_halo_names_plain(s: Seq<char>, k: ClassicalHaloKind)
    ensures
        halo_kind_of(s) == Some(k) <==> names_profile(s, k),
        halo_kind_of(s) is None <==> (!names_profile(s, ClassicalHaloKind::PseudoIsothermal)
            && !names_profile(s, ClassicalHaloKind::Nfw) && !names_profile(
            s,
            ClassicalHaloKind::Burkert,
        )),
        names_profile(halo_label_of(k), k),
{
    reveal_strlit("piso");
    reveal_strlit("pseudo_isothermal");
    reveal_strlit("pseudo-isothermal");
    reveal_strlit("nfw");
    reveal_strlit("NFW");
    reveal_strlit("burkert");
    assert("piso"@ =~= seq!['p', 'i', 's', 'o']);
    assert("pseudo_isothermal"@ =~= seq![
        'p',
        's',
        'e',
        'u',
        'd',
        'o',
        '_',
        'i',
        's',
        'o',
        't',
        'h',
        'e',
        'r',
        'm',
        'a',
        'l',
    ]);
    assert("pseudo-isothermal"@ =~= seq![
        'p',
        's',
        'e',
        'u',
        'd',
        'o',
        '-',
        'i',
        's',
        'o',
        't',
        'h',
        'e',
        'r',
        'm',
        'a',
        'l',
    ]);
    assert("nfw"@ =~= seq!['n', 'f', 'w']);
    assert("NFW"@ =~= seq!['N', 'F', 'W']);
    assert("burkert"@ =~= seq!['b', 'u', 'r', 'k', 'e', 'r', 't']);
    assert(seq!['n', 'f', 'w'][0] != seq!['p', 'i', 's', 'o'][0]);
    assert(seq!['N', 'F', 'W'][0] != seq!['p', 'i', 's', 'o'][0]);
    assert(seq!['b', 'u', 'r', 'k', 'e', 'r', 't'][0] != seq!['n', 'f', 'w'][0]);
    assert(seq!['b', 'u', 'r', 'k', 'e', 'r', 't'][0] != seq!['N', 'F', 'W'][0]);
    assert(seq!['b', 'u', 'r', 'k', 'e', 'r', 't'][0] != seq!['p', 'i', 's', 'o'][0]);
}

/// The message for an unknown profile name.
pub open spec fn unknown_halo_reason(s: Seq<char>) -> Seq<char> {
    "unknown halo kind '"@ + s + "'; use piso, nfw, or burkert"@
}

impl ClassicalHaloKind {
    /// Reads a profile name.
    pub fn parse(s: &str) -> (r: Result<Self, OrbitalError>)
        ensures
            r is Ok <==> halo_kind_of(s@) is Some,
            r matches Ok(k) ==> halo_kind_of(s@) == Some(k),
            r matches Err(e) ==> (e matches OrbitalError::InvalidParameter { name, reason }
                && name@ == "classical_halo_kind"@ && reason@ == unknown_halo_reason(s@)),
            forall|k: ClassicalHaloKind| #[trigger] names_profile(s@, k) ==> r == Ok::<
                ClassicalHaloKind,
                OrbitalError,
            >(k),
            r matches Ok(k) ==> names_profile(s@, k),
    {
        proof {
            assert forall|k: ClassicalHaloKind| #[trigger] names_profile(s@, k) implies halo_kind_of(s@)
                == Some(k) by {
                lemma_halo_names_plain(s@, k);
            }
            lemma_halo_names_plain(s@, ClassicalHaloKind::Nfw);
        }
        if str_eq(s, "piso") || str_eq(s, "pseudo_isothermal") || str_eq(s, "pseudo-isothermal") {
            Ok(Self::PseudoIsothermal)
        } else if str_eq(s, "nfw") || str_eq(s, "NFW") {
            Ok(Self::Nfw)
        } else if str_eq(s, "burkert") {
            Ok(Self::Burkert)
        } else {
            let mut reason = String::from_str("unknown halo kind '");
            reason.append(s);
            reason.append("'; use piso, nfw, or burkert");
            Err(OrbitalError::InvalidParameter { name: "classical_halo_kind", reason })
        }
    }

    /// The short name of the profile.
    pub fn label(&self) -> (r: &'static str)
        ensures
            r@ == halo_label_of(*self),
            names_profile(r@, *self),
            halo_kind_of(r@) == Some(*self),
    {
        proof {
            lemma_halo_names_plain(halo_label_of(*self), *self);
        }
        match self {
            Self::PseudoIsothermal => "piso",
            Self::Nfw => "nfw",
            Self::Burkert => "burkert",
        }
    }
}

/// Reading the short name of a profile gives the profile back.
pub proof fn lemma_halo_label_roundtrip(k: ClassicalHaloKind)
    ensures
        halo_kind_of(halo_label_of(k)) == Some(k),
{
    reveal_strlit("piso");
    reveal_strlit("pseudo_isothermal");
    reveal_strlit("pseudo-isothermal");
    reveal_strlit("nfw");
    reveal_strlit("NFW");
    reveal_strlit("burkert");
    match k {
        ClassicalHaloKind::PseudoIsothermal => {},
        ClassicalHaloKind::Nfw => {
            assert("nfw"@ != "piso"@ && "nfw"@ != "pseudo_isothermal"@ && "nfw"@
                != "pseudo-isothermal"@) by {
                assert("nfw"@[0] != "piso"@[0]);
            }
        },
        ClassicalHaloKind::Burkert => {
            assert("burkert"@ != "piso"@ && "burkert"@ != "pseudo_isothermal"@ && "burkert"@
                != "pseudo-isothermal"@ && "burkert"@ != "nfw"@ && "burkert"@ != "NFW"@) by {
                assert("burkert"@[0] != "piso"@[0]);
                assert("burkert"@[0] != "nfw"@[0]);
                assert("burkert"@[0] != "NFW"@[0]);
            }
        },
    }
}

/// Distinct profiles have distinct short names.
pub proof fn lemma_halo_labels_distinct(a: ClassicalHaloKind, b: ClassicalHaloKind)
    requires
        a != b,
    ensures
        halo_label_of(a) != halo_label_of(b),
{
    lemma_halo_label_roundtrip(a);
    lemma_halo_label_roundtrip(b);
}

} // verus!
