//! Signed integer division helpers: floor, ceiling and clamped-quotient
//! variants, each with an exact contract over mathematical division.
use vstd::prelude::*;
use vstd::arithmetic::div_mod::lemma_fundamental_div_mod;
use vstd::arithmetic::div_mod::lemma_fundamental_div_mod_converse;
use vstd::arithmetic::div_mod::lemma_mod_bound;

verus! {

/// Truncating division: the quotient rounded toward zero, as the `/`
/// operator computes it on machine integers.
pub open spec fn tdiv(a: int, b: int) -> int {
    if a >= 0 {
        a / b
    } else {
        -((-a) / b)
    }
}

/// Floor division with remainder: `a == q*b + r` with `0 <= r < b`.
///
/// For a positive divisor the mathematical (Euclidean) quotient `a / b`
/// coincides with the floor quotient, so the contract is stated with it.
pub fn div_mod_floor(a: i64, b: i64) -> (qr: (i64, i64))
    requires
        b > 0,
    ensures
        a == qr.0 * b + qr.1,
        0 <= qr.1 < b,
        qr.0 == a as int / b as int,
        qr.1 == a as int % b as int,
{
    let q: i64 = a / b;
    let m: i64 = a % b;
    if m < 0 {
        proof {
            let x: int = -(a as int);
            let qe: int = x / (b as int);
            let re: int = x % (b as int);
            lemma_fundamental_div_mod(x, b as int);
            lemma_mod_bound(x, b as int);
            assert(a == (q - 1) * b + (m + b) && q > i64::MIN) by (nonlinear_arith)
                requires
                    x == b * qe + re,
                    0 < re < b,
                    0 < x <= i64::MAX + 1,
                    q == -qe,
                    m == -re,
                    a == -x,
            ;
            lemma_fundamental_div_mod_converse(a as int, b as int, q as int - 1, m + b);
        }
        let qf: i64 = q - 1;
        let mf: i64 = m + b;
        proof {
            assert(a == qf * b + mf) by (nonlinear_arith)
                requires
                    qf == q - 1,
                    mf == m + b,
                    a == (q - 1) * b + (m + b),
            ;
        }
        (qf, mf)
    } else {
        proof {
            if a < 0 {
                let x: int = -(a as int);
                let qe: int = x / (b as int);
                lemma_fundamental_div_mod(x, b as int);
                assert(a == q * b + m) by (nonlinear_arith)
                    requires
                        x == b * qe,
                        q == -qe,
                        m == 0,
                        a == -x,
                ;
                lemma_fundamental_div_mod_converse(a as int, b as int, q as int, 0);
            } else {
                lemma_fundamental_div_mod(a as int, b as int);
                assert(a == q * b + m) by (nonlinear_arith)
                    requires
                        a == b * (a as int / b as int) + a as int % b as int,
                        q == a as int / b as int,
                        m == a as int % b as int,
                ;
            }
        }
        (q, m)
    }
}

/// Ceiling division with a non-negative remainder: `a == q*b - r` with
/// `0 <= r < b`, so `q` is the least integer with `q*b >= a`.
pub fn div_rem_ceil(a: i64, b: i64) -> (qr: (i64, i64))
    requires
        b > 0,
        i64::MIN < a < i64::MAX,
    ensures
        a == qr.0 * b - qr.1,
        0 <= qr.1 < b,
        qr.0 * b >= a,
        (qr.0 - 1) * b < a,
{
    let (q, m) = div_mod_floor(a, b);
    if m == 0 {
        proof {
            assert((q - 1) * b == q * b - b) by (nonlinear_arith);
        }
        (q, 0)
    } else {
        proof {
            assert((q + 1) * b == q * b + b) by (nonlinear_arith);
        }
        (q + 1, b - m)
    }
}

/// Division with the quotient clamped to `max_q`; whatever the clamp cuts
/// off stays in the remainder: `q == min(a / b, max_q)` with the quotient
/// rounded toward zero, and `r == a - q*b`.
pub fn clamped_div_rem(a: i64, b: i64, max_q: i64) -> (qr: (i64, i64))
    requires
        b > 0,
        max_q >= 0,
    ensures
        qr.0 == if tdiv(a as int, b as int) <= max_q {
            tdiv(a as int, b as int)
        } else {
            max_q as int
        },
        qr.1 == a - qr.0 * b,
        a >= 0 ==> 0 <= qr.1 <= a && qr.0 * b <= a,
{
    let q0: i64 = a / b;
    let q: i64 = if q0 <= max_q {
        q0
    } else {
        max_q
    };
    proof {
        if a >= 0 {
            assert(q0 == a as int / b as int);
            assert(0 <= q * b <= a) by (nonlinear_arith)
                requires
                    b > 0,
                    a >= 0,
                    0 <= q <= a as int / b as int,
            ;
        } else {
            // The truncated quotient of a negative dividend is at most
            // zero, so the clamp never binds and the product stays by `a`.
            let x: int = -(a as int);
            let qe: int = x / (b as int);
            let re: int = x % (b as int);
            lemma_fundamental_div_mod(x, b as int);
            lemma_mod_bound(x, b as int);
            assert(qe >= 0 && q0 * b == a + re) by (nonlinear_arith)
                requires
                    x == b * qe + re,
                    0 <= re < b,
                    b > 0,
                    x > 0,
                    q0 == -qe,
                    a == -x,
            ;
        }
    }
    (q, a - q * b)
}

/// Floor remainder of `a` by a positive modulus, over the full `i128` range.
pub fn rem_floor(a: i128, b: i128) -> (r: i128)
    requires
        b > 0,
    ensures
        r == a as int % b as int,
        0 <= r < b,
{
    let q: i128 = a / b;
    let m: i128 = a % b;
    if m < 0 {
        proof {
            let x: int = -(a as int);
            let qe: int = x / (b as int);
            let re: int = x % (b as int);
            lemma_fundamental_div_mod(x, b as int);
            lemma_mod_bound(x, b as int);
            assert(a == (q - 1) * b + (m + b)) by (nonlinear_arith)
                requires
                    x == b * qe + re,
                    0 < re < b,
                    q == -qe,
                    m == -re,
                    a == -x,
            ;
            lemma_fundamental_div_mod_converse(a as int, b as int, q as int - 1, m + b);
        }
        m + b
    } else {
        proof {
            if a < 0 {
                let x: int = -(a as int);
                let qe: int = x / (b as int);
                lemma_fundamental_div_mod(x, b as int);
                assert(a == q * b + m) by (nonlinear_arith)
                    requires
                        x == b * qe,
                        q == -qe,
                        m == 0,
                        a == -x,
                ;
                lemma_fundamental_div_mod_converse(a as int, b as int, q as int, 0);
            }
        }
        m
    }
}

} // verus!
