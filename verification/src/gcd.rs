//! Greatest common divisors.
//!
//! Composing or inverting transforms multiplies denominators, so the
//! parts of a result can outgrow the operation entry bound even when
//! the value they denote is small.  Dividing every part by the greatest
//! common divisor brings such a value back to lowest terms; the
//! `reduce` operations of the value types rely on the facts proved
//! here.

use vstd::prelude::*;

verus! {

/// `d` divides `x` exactly.
pub open spec fn divides(d: int, x: int) -> bool {
    exists|k: int| x == #[trigger] (d * k)
}

/// Magnitude of an integer.
pub open spec fn iabs(x: int) -> int {
    if x < 0 {
        -x
    } else {
        x
    }
}

/// Greatest common divisor of two non-negative integers, by Euclid's
/// recursion.
pub open spec fn gcd(a: int, b: int) -> int
    recommends
        0 <= a,
        0 <= b,
    decreases b,
        when 0 <= b
{
    if b <= 0 {
        a
    } else {
        gcd(b, a % b)
    }
}

/// The recursion's result divides both arguments, and is positive as
/// soon as one of them is.
pub proof fn lemma_gcd_props(a: int, b: int)
    requires
        0 <= a,
        0 <= b,
    ensures
        divides(gcd(a, b), a),
        divides(gcd(a, b), b),
        a > 0 || b > 0 ==> gcd(a, b) > 0,
    decreases b,
{
    if b <= 0 {
        assert(a == a * 1) by (nonlinear_arith);
        assert(b == a * 0) by (nonlinear_arith)
            requires b == 0;
    } else {
        lemma_gcd_props(b, a % b);
        let g = gcd(b, a % b);
        let k1 = choose|k: int| b == #[trigger] (g * k);
        let k2 = choose|k: int| (a % b) == #[trigger] (g * k);
        vstd::arithmetic::div_mod::lemma_fundamental_div_mod(a, b);
        assert(a == g * (k1 * (a / b) + k2)) by (nonlinear_arith)
            requires
                b == g * k1,
                a % b == g * k2,
                a == b * (a / b) + a % b,
        ;
        assert(divides(g, a));
    }
}

/// Dividing a multiple of `g` by `g` and multiplying back gives the
/// original number.
pub proof fn lemma_exact_div(x: int, g: int)
    requires
        0 < g,
        divides(g, x),
    ensures
        g * (x / g) == x,
{
    let k = choose|k: int| x == #[trigger] (g * k);
    vstd::arithmetic::div_mod::lemma_div_multiples_vanish(k, g);
}

/// Divisibility carries through a middle divisor.
pub proof fn lemma_divides_trans(a: int, b: int, c: int)
    requires
        divides(a, b),
        divides(b, c),
    ensures
        divides(a, c),
{
    let k1 = choose|k: int| b == #[trigger] (a * k);
    let k2 = choose|k: int| c == #[trigger] (b * k);
    assert(c == a * (k1 * k2)) by (nonlinear_arith)
        requires
            b == a * k1,
            c == b * k2,
    ;
}

/// A divisor of the magnitude divides the number itself.
pub proof fn lemma_divides_abs(g: int, x: int)
    requires
        divides(g, iabs(x)),
    ensures
        divides(g, x),
{
    let k = choose|k: int| iabs(x) == #[trigger] (g * k);
    if x < 0 {
        assert(x == g * (-k)) by (nonlinear_arith)
            requires -x == g * k;
    }
}

/// The Euclidean quotient of a signed number by a positive divisor of
/// its magnitude, in terms of the magnitude's quotient.
pub proof fn lemma_signed_div(x: int, g: int, q: int)
    requires
        0 < g,
        iabs(x) == g * q,
    ensures
        x / g == if x < 0 { -q } else { q },
{
    if x < 0 {
        vstd::arithmetic::div_mod::lemma_div_multiples_vanish(-q, g);
        assert(x == g * (-q)) by (nonlinear_arith)
            requires -x == g * q;
    } else {
        vstd::arithmetic::div_mod::lemma_div_multiples_vanish(q, g);
    }
}

/// Greatest common divisor, computed by Euclid's algorithm.
pub fn gcd_u128(a0: u128, b0: u128) -> (g: u128)
    ensures
        g as int == gcd(a0 as int, b0 as int),
{
    let mut a = a0;
    let mut b = b0;
    while b != 0
        invariant
            gcd(a as int, b as int) == gcd(a0 as int, b0 as int),
        decreases b,
    {
        let t = a % b;
        a = b;
        b = t;
    }
    a
}

} // verus!
