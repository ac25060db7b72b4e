//! Integer arithmetic of the language: 64-bit, wrapping on overflow,
//! division rounding towards zero.
use vstd::prelude::*;
use vstd::arithmetic::div_mod::{lemma_fundamental_div_mod, lemma_mod_pos_bound};

verus! {

/// The magnitude of an integer.
pub open spec fn magnitude(a: int) -> int {
    if a < 0 {
        -a
    } else {
        a
    }
}

/// The quotient of `a` by `b`, rounded towards zero: the quotient of the
/// magnitude of `a`, with the sign of `a`.
pub open spec fn trunc_div(a: int, b: int) -> int
    recommends
        b != 0,
{
    if a >= 0 {
        a / b
    } else {
        -((-a) / b)
    }
}

/// The quotient of two 64-bit integers as a 64-bit integer. The one quotient
/// that does not fit, that of the least integer by -1, wraps to the least
/// integer.
pub open spec fn quotient(a: i64, b: i64) -> i64
    recommends
        b != 0,
{
    if a == i64::MIN && b == -1 {
        i64::MIN
    } else {
        trunc_div(a as int, b as int) as i64
    }
}

/// The negation of a 64-bit integer; that of the least integer wraps to
/// itself.
pub open spec fn negation(a: i64) -> i64 {
    if a == i64::MIN {
        i64::MIN
    } else {
        (-a) as i64
    }
}

/// Division rounds towards zero: what is left of the dividend after the
/// quotient times the divisor is taken away is smaller in magnitude than
/// the divisor, and is zero or has the sign of the dividend.
pub proof fn lemma_trunc_div_rounds_to_zero(a: int, b: int)
    requires
        b != 0,
    ensures
        ({
            let rem = a - trunc_div(a, b) * b;
            &&& magnitude(rem) < magnitude(b)
            &&& a >= 0 ==> rem >= 0
            &&& a < 0 ==> rem <= 0
        }),
{
    if a >= 0 {
        lemma_fundamental_div_mod(a, b);
        if b > 0 {
            lemma_mod_pos_bound(a, b);
        } else {
            assert(0 <= a % b < -b);
        }
        assert(a - (a / b) * b == a % b) by (nonlinear_arith)
            requires
                a == b * (a / b) + a % b,
        ;
    } else {
        let m = -a;
        lemma_fundamental_div_mod(m, b);
        if b > 0 {
            lemma_mod_pos_bound(m, b);
        } else {
            assert(0 <= m % b < -b);
        }
        assert(a - (-(m / b)) * b == -(m % b)) by (nonlinear_arith)
            requires
                m == b * (m / b) + m % b,
                a == -m,
        ;
    }
}

/// Divides `a` by `b`, rounding towards zero.
pub fn divide(a: i64, b: i64) -> (r: i64)
    requires
        b != 0,
    ensures
        r == quotient(a, b),
{
    if a == i64::MIN && b == -1 {
        i64::MIN
    } else {
        a / b
    }
}

/// Negates `a`.
pub fn negate(a: i64) -> (r: i64)
    ensures
        r == negation(a),
{
    if a == i64::MIN {
        i64::MIN
    } else {
        -a
    }
}

} // verus!
