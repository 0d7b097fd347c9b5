//! Quantum numbers (n, l, m) of a hydrogenic state: validity and labels.

use crate::angular::component_of;
use crate::error::OrbitalError;
use crate::radial::{lemma_valid_states_have_radial_terms, radial_terms_error, radial_terms_in_range};
use crate::text::{dec_int, dec_nat, push_char, push_decimal, push_signed_decimal, str_eq};
use vstd::prelude::*;
use vstd::string::StringExecFns;

verus! {

/// |m| as a natural number.
pub open spec fn abs_m(m: i32) -> nat {
    if m < 0 {
        (-(m as int)) as nat
    } else {
        m as nat
    }
}

/// The validity constraints: `n >= 1`, `0 <= l < n`, `-l <= m <= l`.
pub open spec fn valid_quantum_numbers(n: u32, l: u32, m: i32) -> bool {
    &&& n >= 1
    &&& l < n
    &&& abs_m(m) <= l
}

/// Inputs on which the check itself would overflow: taking `|m|` of
/// `i32::MIN` when that value is reported.
pub open spec fn abs_overflows(l: u32, m: i32) -> bool {
    m == i32::MIN && l < 0x8000_0000
}

/// The reason given for the first constraint that fails, if any.
pub open spec fn quantum_numbers_reason(n: u32, l: u32, m: i32) -> Option<Seq<char>> {
    if n == 0 {
        Some("n must be >= 1"@)
    } else if l >= n {
        Some("l="@ + dec_nat(l as nat) + " must be < n="@ + dec_nat(n as nat))
    } else if abs_m(m) > l {
        Some("|m|="@ + dec_nat(abs_m(m)) + " must be <= l="@ + dec_nat(l as nat))
    } else {
        None
    }
}

/// The message for `|m| > l`.
pub open spec fn m_too_large_reason(l: u32, m: i32) -> Seq<char> {
    "|m|="@ + dec_nat(abs_m(m)) + " must be <= l="@ + dec_nat(l as nat)
}

/// Builds the message `|m|=<|m|> must be <= l=<l>`.
pub(crate) fn m_too_large_message(l: u32, m: i32) -> (r: String)
    requires
        m != i32::MIN,
    ensures
        r@ == m_too_large_reason(l, m),
{
    let mut r = String::from_str("|m|=");
    let mag: u32 = if m < 0 {
        (-m) as u32
    } else {
        m as u32
    };
    push_decimal(&mut r, mag as u64);
    r.append(" must be <= l=");
    push_decimal(&mut r, l as u64);
    r
}

/// Checks the quantum numbers in the order `n`, `l`, `m` and reports the
/// first constraint that fails.
pub fn validate_quantum_numbers(n: u32, l: u32, m: i32) -> (r: Result<(), OrbitalError>)
    requires
        !(n >= 1 && l < n && abs_overflows(l, m)),
    ensures
        r is Ok <==> valid_quantum_numbers(n, l, m),
        r is Ok <==> quantum_numbers_reason(n, l, m) is None,
        r matches Err(e) ==> (e matches OrbitalError::InvalidQuantumNumbers { reason }
            && quantum_numbers_reason(n, l, m) == Some(reason@)),
        r is Ok <==> (n >= 1 && l < n && -(l as int) <= m as int && m as int <= l as int),
        n == 0 ==> (r matches Err(OrbitalError::InvalidQuantumNumbers { reason }) && reason@
            == seq!['n', ' ', 'm', 'u', 's', 't', ' ', 'b', 'e', ' ', '>', '=', ' ', '1']),
        n >= 1 && l >= n ==> (r matches Err(OrbitalError::InvalidQuantumNumbers { reason })
            && reason@ == seq!['l', '='] + dec_nat(l as nat) + seq![
            ' ',
            'm',
            'u',
            's',
            't',
            ' ',
            'b',
            'e',
            ' ',
            '<',
            ' ',
            'n',
            '=',
        ] + dec_nat(n as nat)),
{
    proof {
        lemma_validity_plain(n, l, m);
        reveal_strlit("n must be >= 1");
        reveal_strlit("l=");
        reveal_strlit(" must be < n=");
        assert("n must be >= 1"@ =~= seq!['n', ' ', 'm', 'u', 's', 't', ' ', 'b', 'e', ' ', '>', '=', ' ', '1']);
        assert("l="@ =~= seq!['l', '=']);
        assert(" must be < n="@ =~= seq![' ', 'm', 'u', 's', 't', ' ', 'b', 'e', ' ', '<', ' ', 'n', '=']);
    }
    if n == 0 {
        return Err(OrbitalError::InvalidQuantumNumbers { reason: String::from_str("n must be >= 1") });
    }
    if l >= n {
        let mut reason = String::from_str("l=");
        push_decimal(&mut reason, l as u64);
        reason.append(" must be < n=");
        push_decimal(&mut reason, n as u64);
        return Err(OrbitalError::InvalidQuantumNumbers { reason });
    }
    let mag: u32 = if m < 0 {
        if m == i32::MIN {
            0x8000_0000u32
        } else {
            (-m) as u32
        }
    } else {
        m as u32
    };
    if mag > l {
        let reason = m_too_large_message(l, m);
        return Err(OrbitalError::InvalidQuantumNumbers { reason });
    }
    Ok(())
}

/// Validity in plain integer terms: n >= 1, 0 <= l < n and -l <= m <= l;
/// the constraint on m does not depend on its sign.
pub proof fn lemma_validity_plain(n: u32, l: u32, m: i32)
    ensures
        valid_quantum_numbers(n, l, m) <==> (n >= 1 && l < n && -(l as int) <= m as int && m as int
            <= l as int),
        m != i32::MIN ==> (valid_quantum_numbers(n, l, m) <==> valid_quantum_numbers(
            n,
            l,
            (-m) as i32,
        )),
{
}

/// The letter of the azimuthal number: s, p, d, f, g, h, and `?` beyond.
pub open spec fn l_letter(l: u32) -> char {
    if l == 0 {
        's'
    } else if l == 1 {
        'p'
    } else if l == 2 {
        'd'
    } else if l == 3 {
        'f'
    } else if l == 4 {
        'g'
    } else if l == 5 {
        'h'
    } else {
        '?'
    }
}

/// The spectroscopic label of (n, l, m), such as `3d_z2`, `2pz` or `4f+2`.
pub open spec fn label_of(n: u32, l: u32, m: i32) -> Seq<char> {
    let head = dec_nat(n as nat);
    if m == 0 {
        if l == 0 {
            head + "s"@
        } else if l == 1 {
            head + "pz"@
        } else if l == 2 {
            head + "d_z2"@
        } else if l == 3 {
            head + "fz3"@
        } else {
            head.push(l_letter(l)) + "m0"@
        }
    } else if m > 0 {
        head.push(l_letter(l)).push('+') + dec_int(m as int)
    } else {
        head.push(l_letter(l)) + dec_int(m as int)
    }
}

fn l_letter_exec(l: u32) -> (c: char)
    ensures
        c == l_letter(l),
{
    match l {
        0 => 's',
        1 => 'p',
        2 => 'd',
        3 => 'f',
        4 => 'g',
        5 => 'h',
        _ => '?',
    }
}

/// Human-readable spectroscopic label, e.g. "3d_z2", "2pz", "4f+2".
pub fn spectroscopic_label(n: u32, l: u32, m: i32) -> (r: String)
    ensures
        r@ == label_of(n, l, m),
        r@ == spectroscopic_text(n, l, m),
{
    proof {
        lemma_label_of_plain(n, l, m);
    }
    let mut r = String::new();
    push_decimal(&mut r, n as u64);
    let c = l_letter_exec(l);
    if m == 0 {
        if l == 0 {
            r.append("s");
        } else if l == 1 {
            r.append("pz");
        } else if l == 2 {
            r.append("d_z2");
        } else if l == 3 {
            r.append("fz3");
        } else {
            push_char(&mut r, c);
            r.append("m0");
        }
    } else if m > 0 {
        push_char(&mut r, c);
        push_char(&mut r, '+');
        push_signed_decimal(&mut r, m as i64);
    } else {
        push_char(&mut r, c);
        push_signed_decimal(&mut r, m as i64);
    }
    proof {
        let head = dec_nat(n as nat);
        if m != 0 {
            assert(r@ =~= label_of(n, l, m));
        }
    }
    r
}

/// The spectroscopic letter of l from the fixed table s, p, d, f, g, h, and
/// `?` beyond it.
pub open spec fn letter_from_table(l: u32) -> char {
    if l < 6 {
        seq!['s', 'p', 'd', 'f', 'g', 'h'][l as int]
    } else {
        '?'
    }
}

/// The label spelled out: the decimal n, then for m = 0 the suffixes `s`,
/// `pz`, `d_z2`, `fz3`, or the letter and `m0`; for m != 0 the letter, a `+`
/// when m is positive, and the decimal m with its sign.
pub open spec fn spectroscopic_text(n: u32, l: u32, m: i32) -> Seq<char> {
    let head = dec_nat(n as nat);
    if m == 0 {
        if l == 0 {
            head + seq!['s']
        } else if l == 1 {
            head + seq!['p', 'z']
        } else if l == 2 {
            head + seq!['d', '_', 'z', '2']
        } else if l == 3 {
            head + seq!['f', 'z', '3']
        } else {
            head + seq![letter_from_table(l), 'm', '0']
        }
    } else if m > 0 {
        head + seq![letter_from_table(l), '+'] + dec_nat(m as nat)
    } else {
        head + seq![letter_from_table(l), '-'] + dec_nat((-(m as int)) as nat)
    }
}

/// The label agrees with the letter table and the decimal renderings: the
/// character after the digits of n is the letter of l.
pub proof fn lemma_label_of_plain(n: u32, l: u32, m: i32)
    ensures
        label_of(n, l, m) == spectroscopic_text(n, l, m),
        (m != 0 || l >= 4) ==> label_of(n, l, m)[dec_nat(n as nat).len() as int]
            == letter_from_table(l),
{
    reveal_strlit("s");
    reveal_strlit("pz");
    reveal_strlit("d_z2");
    reveal_strlit("fz3");
    reveal_strlit("m0");
    let head = dec_nat(n as nat);
    assert(l_letter(l) == letter_from_table(l));
    if m == 0 {
        if l == 0 {
            assert("s"@ =~= seq!['s']);
        } else if l == 1 {
            assert("pz"@ =~= seq!['p', 'z']);
        } else if l == 2 {
            assert("d_z2"@ =~= seq!['d', '_', 'z', '2']);
        } else if l == 3 {
            assert("fz3"@ =~= seq!['f', 'z', '3']);
        } else {
            assert(head.push(l_letter(l)) + "m0"@ =~= head + seq![letter_from_table(l), 'm', '0']);
        }
    } else if m > 0 {
        assert(dec_int(m as int) == dec_nat(m as nat));
        assert(head.push(l_letter(l)).push('+') + dec_int(m as int) =~= head + seq![
            letter_from_table(l),
            '+',
        ] + dec_nat(m as nat));
    } else {
        assert(head.push(l_letter(l)) + dec_int(m as int) =~= head + seq![
            letter_from_table(l),
            '-',
        ] + dec_nat((-(m as int)) as nat));
    }
}

/// The quantum numbers of the states that the rotation-curve tool accepts
/// by name: `1s` is (1, 0, 0) and `3d_z2` is (3, 2, 0).
pub open spec fn curve_state_of(state: Seq<char>) -> Option<(u32, u32, i32)> {
    if state == "1s"@ {
        Some((1u32, 0u32, 0i32))
    } else if state == "3d_z2"@ {
        Some((3u32, 2u32, 0i32))
    } else {
        None
    }
}

/// Each state name of the rotation-curve tool is the spectroscopic label of
/// the valid state it selects.
pub proof fn lemma_curve_state_names_are_labels(state: Seq<char>)
    ensures
        curve_state_of(state) is Some <==> (state == seq!['1', 's'] || state == seq![
            '3',
            'd',
            '_',
            'z',
            '2',
        ]),
        curve_state_of(state) matches Some(q) ==> (spectroscopic_text(q.0, q.1, q.2) == state
            && valid_quantum_numbers(q.0, q.1, q.2)),
{
    reveal_strlit("1s");
    reveal_strlit("3d_z2");
    assert("1s"@ =~= seq!['1', 's']);
    assert("3d_z2"@ =~= seq!['3', 'd', '_', 'z', '2']);
    assert(dec_nat(1) == seq!['1']);
    assert(dec_nat(3) == seq!['3']);
    assert(seq!['1'] + seq!['s'] =~= seq!['1', 's']);
    assert(seq!['3'] + seq!['d', '_', 'z', '2'] =~= seq!['3', 'd', '_', 'z', '2']);
}

/// Looks up a state name of the rotation-curve tool.
pub fn curve_state(state: &str) -> (r: Option<(u32, u32, i32)>)
    ensures
        r == curve_state_of(state@),
        r is Some <==> (state@ == seq!['1', 's'] || state@ == seq!['3', 'd', '_', 'z', '2']),
        r matches Some(q) ==> (spectroscopic_text(q.0, q.1, q.2) == state@
            && valid_quantum_numbers(q.0, q.1, q.2)),
{
    proof {
        lemma_curve_state_names_are_labels(state@);
    }
    if str_eq(state, "1s") {
        Some((1, 0, 0))
    } else if str_eq(state, "3d_z2") {
        Some((3, 2, 0))
    } else {
        None
    }
}


/// Every state that the rotation-curve tool accepts by name is a valid
/// state whose harmonic has a closed form and whose radial normalisation
/// terms are computed without error.
pub proof fn lemma_curve_states_are_evaluable(state: Seq<char>)
    requires
        curve_state_of(state) is Some,
    ensures
        ({
            let (n, l, m) = curve_state_of(state)->0;
            &&& valid_quantum_numbers(n, l, m)
            &&& component_of(l, m) is Some
            &&& radial_terms_in_range(n, l)
            &&& radial_terms_error(n, l) is None
        }),
{
    let (n, l, m) = curve_state_of(state)->0;
    lemma_valid_states_have_radial_terms(n, l);
}

} // verus!
