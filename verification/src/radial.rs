//! Integer parts of the hydrogenic radial wavefunction R_nl: the factorials
//! of its normalisation and the indices of its Laguerre polynomial.

use crate::error::OrbitalError;
use vstd::prelude::*;
use vstd::string::StringExecFns;

verus! {

/// n! for natural n, with 0! = 1.
pub open spec fn fact(n: nat) -> nat
    decreases n,
{
    if n <= 1 {
        1
    } else {
        n * fact((n - 1) as nat)
    }
}

/// Why `factorial(n)` fails, if it does: a negative input, or a result that
/// does not fit in a `u64`.
pub open spec fn factorial_error(n: int) -> Option<Seq<char>> {
    if n < 0 {
        Some("factorial called with negative input"@)
    } else if fact(n as nat) > u64::MAX {
        Some("factorial overflow"@)
    } else {
        None
    }
}

proof fn lemma_fact_positive(n: nat)
    ensures
        fact(n) >= 1,
    decreases n,
{
    if n > 1 {
        lemma_fact_positive((n - 1) as nat);
        assert(n * fact((n - 1) as nat) >= fact((n - 1) as nat)) by (nonlinear_arith)
            requires
                n > 1,
                fact((n - 1) as nat) >= 1,
        ;
    }
}

/// The factorial grows with its argument.
pub proof fn lemma_fact_monotone(i: nat, j: nat)
    requires
        i <= j,
    ensures
        fact(i) <= fact(j),
    decreases j - i,
{
    if i < j {
        lemma_fact_monotone(i, (j - 1) as nat);
        lemma_fact_positive((j - 1) as nat);
        if j > 1 {
            assert(j * fact((j - 1) as nat) >= fact((j - 1) as nat)) by (nonlinear_arith)
                requires
                    j > 1,
                    fact((j - 1) as nat) >= 1,
            ;
        }
    }
}

/// n!, checked: an error for negative n and for results beyond `u64`.
pub fn factorial(n: i32) -> (r: Result<u64, OrbitalError>)
    ensures
        r is Err <==> factorial_error(n as int) is Some,
        r matches Ok(v) ==> v == fact(n as nat),
        r matches Err(e) ==> (e matches OrbitalError::Numerical(msg) && factorial_error(n as int)
            == Some(msg@)),
        r is Ok <==> 0 <= n <= 20,
        r matches Ok(v) ==> v >= 1,
        r matches Ok(v) ==> (n >= 1 ==> v == n * fact((n - 1) as nat)),
{
    proof {
        if n >= 0 {
            lemma_factorial_range(n as nat);
            lemma_fact_positive(n as nat);
        }
    }
    if n < 0 {
        return Err(OrbitalError::Numerical(String::from_str("factorial called with negative input")));
    }
    let top = n as u64;
    let mut acc: u64 = 1;
    let mut i: u64 = 2;
    while i <= top
        invariant
            top == n,
            2 <= i,
            i <= top + 1 || i == 2,
            acc == fact((i - 1) as nat),
        decreases top + 1 - i,
    {
        match acc.checked_mul(i) {
            Some(v) => {
                acc = v;
            },
            None => {
                proof {
                    assert(fact(i as nat) == i * fact((i - 1) as nat));
                    lemma_fact_monotone(i as nat, top as nat);
                    lemma_factorial_range(top as nat);
                }
                return Err(OrbitalError::Numerical(String::from_str("factorial overflow")));
            },
        }
        i = i + 1;
    }
    proof {
        if top >= 1 {
            assert(i == top + 1);
        } else {
            assert(fact(top as nat) == 1);
        }
        lemma_factorial_range(top as nat);
        if top == 1 {
            assert(fact(0) == 1);
            assert(fact(1) == 1);
            let a = fact(top as nat);
            let b = fact((top - 1) as nat);
            assert(a == 1 && b == 1);
            assert(a == (top as int) * b) by (nonlinear_arith)
                requires
                    a == 1,
                    b == 1,
                    top == 1,
            ;
        } else if top > 1 {
            assert(fact(top as nat) == top * fact((top - 1) as nat));
        }
        if top >= 1 {
            assert(acc == fact(top as nat));
            assert(fact(top as nat) == top * fact((top - 1) as nat));
            assert(((n - 1) as nat) == ((top - 1) as nat));
            assert(top as int == n as int);
            assert(acc == n * fact((n - 1) as nat));
        }
    }
    Ok(acc)
}

/// The factorial fits in a `u64` exactly up to 20!.
pub proof fn lemma_factorial_range(n: nat)
    ensures
        fact(n) <= u64::MAX <==> n <= 20,
{
    assert(fact(0) == 1);
    assert(fact(1) == 1);
    assert(fact(2) == 2);
    assert(fact(3) == 6);
    assert(fact(4) == 24);
    assert(fact(5) == 120);
    assert(fact(6) == 720);
    assert(fact(7) == 5040);
    assert(fact(8) == 40320);
    assert(fact(9) == 362880);
    assert(fact(10) == 3628800);
    assert(fact(11) == 39916800);
    assert(fact(12) == 479001600);
    assert(fact(13) == 6227020800);
    assert(fact(14) == 87178291200);
    assert(fact(15) == 1307674368000);
    assert(fact(16) == 20922789888000);
    assert(fact(17) == 355687428096000);
    assert(fact(18) == 6402373705728000);
    assert(fact(19) == 121645100408832000);
    assert(fact(20) == 2432902008176640000);
    assert(fact(21) == 51090942171709440000);
    if n <= 20 {
        lemma_fact_monotone(n, 20);
    } else {
        lemma_fact_monotone(21, n);
    }
}


/// The value of `x as i32` for a `u32`: two's-complement wrap-around.
pub open spec fn wrap_i32(x: u32) -> int {
    if x < 0x8000_0000 {
        x as int
    } else {
        x as int - 0x1_0000_0000
    }
}

fn to_i32(x: u32) -> (r: i32)
    ensures
        r as int == wrap_i32(x),
{
    if x < 0x8000_0000 {
        x as i32
    } else {
        let d: u32 = x - 0x8000_0000;
        assert(d < 0x8000_0000);
        let di: i32 = d as i32;
        i32::MIN + di
    }
}

/// The integer quantities behind R_nl(r): the Laguerre degree `k = n - l - 1`,
/// its order `alpha = 2l + 1`, and the factorials `k!` and `(n + l)!` of the
/// normalisation constant.
#[derive(Debug, Clone, Copy)]
pub struct RadialTerms {
    pub k: i32,
    pub alpha: i32,
    pub k_factorial: u64,
    pub n_plus_l_factorial: u64,
}

/// `k = n - l - 1`, with n and l read as `i32`.
pub open spec fn radial_k(n: u32, l: u32) -> int {
    wrap_i32(n) - wrap_i32(l) - 1
}

/// `alpha = 2l + 1`, with l read as `i32`.
pub open spec fn radial_alpha(l: u32) -> int {
    2 * wrap_i32(l) + 1
}

/// `n + l`, with n and l read as `i32`.
pub open spec fn radial_n_plus_l(n: u32, l: u32) -> int {
    wrap_i32(n) + wrap_i32(l)
}

pub open spec fn fits_i32(x: int) -> bool {
    i32::MIN <= x <= i32::MAX
}

/// The inputs on which the integer arithmetic of R_nl stays within `i32`:
/// `n - l - 1` and `2l + 1` (each step of them) always, `n + l` once `k!` has been computed.
pub open spec fn radial_terms_in_range(n: u32, l: u32) -> bool {
    &&& fits_i32(wrap_i32(n) - wrap_i32(l))
    &&& fits_i32(radial_k(n, l))
    &&& fits_i32(2 * wrap_i32(l))
    &&& fits_i32(radial_alpha(l))
    &&& factorial_error(radial_k(n, l)) is None ==> fits_i32(radial_n_plus_l(n, l))
}

/// Why the integer part of R_nl fails, if it does: the error of `k!`, else
/// the error of `(n + l)!`.
pub open spec fn radial_terms_error(n: u32, l: u32) -> Option<Seq<char>> {
    if factorial_error(radial_k(n, l)) is Some {
        factorial_error(radial_k(n, l))
    } else {
        factorial_error(radial_n_plus_l(n, l))
    }
}

/// Computes the integer part of R_nl(r) for quantum numbers n and l, in the
/// order the radial wavefunction needs it.
pub fn radial_normalisation_terms(n: u32, l: u32) -> (r: Result<RadialTerms, OrbitalError>)
    requires
        radial_terms_in_range(n, l),
    ensures
        r is Err <==> radial_terms_error(n, l) is Some,
        r matches Ok(t) ==> {
            &&& t.k == radial_k(n, l)
            &&& t.alpha == radial_alpha(l)
            &&& t.k_factorial == fact(radial_k(n, l) as nat)
            &&& t.n_plus_l_factorial == fact(radial_n_plus_l(n, l) as nat)
        },
        r matches Err(e) ==> (e matches OrbitalError::Numerical(msg) && radial_terms_error(n, l)
            == Some(msg@)),
        n < 0x8000_0000 && l < 0x8000_0000 ==> {
            &&& r is Ok <==> (0 <= n - l - 1 && n + l <= 20)
            &&& r matches Ok(t) ==> (t.k == n - l - 1 && t.alpha == 2 * l + 1)
        },
{
    proof {
        if n < 0x8000_0000 && l < 0x8000_0000 {
            if n - l - 1 >= 0 {
                lemma_factorial_range((n - l - 1) as nat);
                lemma_factorial_range((n + l) as nat);
            }
        }
    }
    let ni = to_i32(n);
    let li = to_i32(l);
    let k = ni - li - 1;
    let alpha = 2 * li + 1;
    let k_factorial = factorial(k)?;
    let n_plus_l_factorial = factorial(ni + li)?;
    Ok(RadialTerms { k, alpha, k_factorial, n_plus_l_factorial })
}

/// Valid quantum numbers with n + l <= 20 always give the integer part of
/// R_nl, with a non-negative Laguerre degree.
pub proof fn lemma_valid_states_have_radial_terms(n: u32, l: u32)
    requires
        1 <= n,
        l < n,
        n + l <= 20,
    ensures
        radial_terms_in_range(n, l),
        radial_terms_error(n, l) is None,
        radial_k(n, l) >= 0,
{
    lemma_factorial_range(radial_k(n, l) as nat);
    lemma_factorial_range(radial_n_plus_l(n, l) as nat);
}

} // verus!
