//! Real spherical harmonics Y_lm: which (l, m) exist and which have a
//! closed form.

use crate::error::OrbitalError;
use crate::quantum::{abs_m, abs_overflows, m_too_large_message, m_too_large_reason};
use crate::text::{dec_int, dec_nat, push_decimal, push_signed_decimal};
use vstd::prelude::*;
use vstd::string::StringExecFns;

verus! {

/// A real spherical harmonic Y_lm, identified by its degree and order.
#[derive(Debug, Clone)]
pub struct RealSphericalHarmonic {
    pub l: u32,
    pub m: i32,
}

/// The real harmonics that have a closed form: s, the three p and the five d
/// orbitals.
#[derive(Debug, Clone, Copy, PartialEq, Eq, Structural)]
pub enum HarmonicComponent {
    /// (0, 0)
    S,
    /// (1, 0), proportional to cos(theta)
    Pz,
    /// (1, 1), proportional to sin(theta) cos(phi)
    Px,
    /// (1, -1), proportional to sin(theta) sin(phi)
    Py,
    /// (2, 0), proportional to 3 cos^2(theta) - 1
    Dz2,
    /// (2, 1)
    Dxz,
    /// (2, -1)
    Dyz,
    /// (2, 2)
    Dx2y2,
    /// (2, -2)
    Dxy,
}

/// The closed form for (l, m), if there is one.
pub open spec fn component_of(l: u32, m: i32) -> Option<HarmonicComponent> {
    if l == 0 && m == 0 {
        Some(HarmonicComponent::S)
    } else if l == 1 && m == 0 {
        Some(HarmonicComponent::Pz)
    } else if l == 1 && m == 1 {
        Some(HarmonicComponent::Px)
    } else if l == 1 && m == -1 {
        Some(HarmonicComponent::Py)
    } else if l == 2 && m == 0 {
        Some(HarmonicComponent::Dz2)
    } else if l == 2 && m == 1 {
        Some(HarmonicComponent::Dxz)
    } else if l == 2 && m == -1 {
        Some(HarmonicComponent::Dyz)
    } else if l == 2 && m == 2 {
        Some(HarmonicComponent::Dx2y2)
    } else if l == 2 && m == -2 {
        Some(HarmonicComponent::Dxy)
    } else {
        None
    }
}

/// The degree l of each closed form.
pub open spec fn degree_of(c: HarmonicComponent) -> u32 {
    match c {
        HarmonicComponent::S => 0,
        HarmonicComponent::Pz | HarmonicComponent::Px | HarmonicComponent::Py => 1,
        HarmonicComponent::Dz2 | HarmonicComponent::Dxz | HarmonicComponent::Dyz
        | HarmonicComponent::Dx2y2 | HarmonicComponent::Dxy => 2,
    }
}

/// The order m of each closed form.
pub open spec fn order_of(c: HarmonicComponent) -> i32 {
    match c {
        HarmonicComponent::S => 0,
        HarmonicComponent::Pz => 0,
        HarmonicComponent::Px => 1,
        HarmonicComponent::Py => -1i32,
        HarmonicComponent::Dz2 => 0,
        HarmonicComponent::Dxz => 1,
        HarmonicComponent::Dyz => -1i32,
        HarmonicComponent::Dx2y2 => 2,
        HarmonicComponent::Dxy => -2i32,
    }
}

/// A closed form is chosen exactly for l <= 2 and -l <= m <= l, and the
/// chosen form has that degree and order.
pub proof fn lemma_component_matches_degree_and_order(l: u32, m: i32)
    ensures
        component_of(l, m) is Some <==> (l <= 2 && -(l as int) <= m as int && m as int <= l as int),
        component_of(l, m) matches Some(c) ==> degree_of(c) == l && order_of(c) == m,
{
}

/// Distinct closed forms differ in degree or order.
pub proof fn lemma_components_distinct(a: HarmonicComponent, b: HarmonicComponent)
    requires
        a != b,
    ensures
        degree_of(a) != degree_of(b) || order_of(a) != order_of(b),
{
}

/// The message for a harmonic without a closed form.
pub open spec fn not_implemented_reason(l: u32, m: i32) -> Seq<char> {
    "real spherical harmonic l="@ + dec_nat(l as nat) + ", m="@ + dec_int(m as int)
        + " not implemented yet"@
}

impl RealSphericalHarmonic {
    /// Accepts (l, m) exactly when |m| <= l.
    pub fn new(l: u32, m: i32) -> (r: Result<Self, OrbitalError>)
        requires
            !abs_overflows(l, m),
        ensures
            r is Ok <==> abs_m(m) <= l,
            r is Ok <==> (-(l as int) <= m as int && m as int <= l as int),
            r matches Ok(y) ==> y.l == l && y.m == m,
            r matches Err(e) ==> (e matches OrbitalError::InvalidQuantumNumbers { reason }
                && reason@ == m_too_large_reason(l, m)),
    {
        let mag: u32 = if m < 0 {
            if m == i32::MIN {
                0x8000_0000u32
            } else {
                (-m) as u32
            }
        } else {
            m as u32
        };
        if mag > l {
            return Err(OrbitalError::InvalidQuantumNumbers { reason: m_too_large_message(l, m) });
        }
        Ok(Self { l, m })
    }

    /// Which closed form Y_lm(theta, phi) takes; the real harmonics are
    /// implemented up to l = 2.
    pub fn component(&self) -> (r: Result<HarmonicComponent, OrbitalError>)
        ensures
            r matches Ok(c) ==> component_of(self.l, self.m) == Some(c),
            r is Err ==> component_of(self.l, self.m) is None,
            r matches Err(e) ==> (e matches OrbitalError::Numerical(msg) && msg@
                == not_implemented_reason(self.l, self.m)),
            r is Ok <==> (self.l <= 2 && -(self.l as int) <= self.m as int && self.m as int
                <= self.l as int),
            r matches Ok(c) ==> degree_of(c) == self.l && order_of(c) == self.m,
    {
        proof {
            lemma_component_matches_degree_and_order(self.l, self.m);
        }
        match (self.l, self.m) {
            (0, 0) => Ok(HarmonicComponent::S),
            (1, 0) => Ok(HarmonicComponent::Pz),
            (1, 1) => Ok(HarmonicComponent::Px),
            (1, -1) => Ok(HarmonicComponent::Py),
            (2, 0) => Ok(HarmonicComponent::Dz2),
            (2, 1) => Ok(HarmonicComponent::Dxz),
            (2, -1) => Ok(HarmonicComponent::Dyz),
            (2, 2) => Ok(HarmonicComponent::Dx2y2),
            (2, -2) => Ok(HarmonicComponent::Dxy),
            _ => {
                let mut msg = String::from_str("real spherical harmonic l=");
                push_decimal(&mut msg, self.l as u64);
                msg.append(", m=");
                push_signed_decimal(&mut msg, self.m as i64);
                msg.append(" not implemented yet");
                Err(OrbitalError::Numerical(msg))
            },
        }
    }
}

/// Every harmonic that `new` accepts with l <= 2 has a closed form.
pub proof fn lemma_low_degree_harmonics_have_closed_forms(l: u32, m: i32)
    requires
        abs_m(m) <= l,
        l <= 2,
    ensures
        component_of(l, m) is Some,
{
}

} // verus!
