//! Greatest common divisor: the specification, its divisibility facts, and
//! the one call into an outside crate that computes it.

use vstd::arithmetic::div_mod::{
    lemma_fundamental_div_mod, lemma_mod_multiples_basic, lemma_mod_self_0, lemma_small_mod,
};
use vstd::prelude::*;

verus! {

/// Euclid's greatest common divisor.  `gcd_spec(a, 0) == a`, so
/// `gcd_spec(0, 0) == 0`.
pub open spec fn gcd_spec(a: nat, b: nat) -> nat
    decreases b,
{
    if b == 0 {
        a
    } else {
        gcd_spec(b, a % b)
    }
}

/// The greatest common divisor is positive unless both arguments are zero,
/// and it divides both arguments.
pub proof fn lemma_gcd_divides(a: nat, b: nat)
    ensures
        a > 0 || b > 0 ==> gcd_spec(a, b) > 0,
        gcd_spec(a, b) > 0 ==> a % gcd_spec(a, b) == 0,
        gcd_spec(a, b) > 0 ==> b % gcd_spec(a, b) == 0,
    decreases b,
{
    if b == 0 {
        if a > 0 {
            lemma_mod_self_0(a as int);
            lemma_small_mod(0, a);
        }
    } else {
        let r = a % b;
        let g = gcd_spec(b, r);
        lemma_gcd_divides(b, r);
        assert(g > 0);
        let ai = a as int;
        let bi = b as int;
        let gi = g as int;
        lemma_fundamental_div_mod(ai, bi);
        lemma_fundamental_div_mod(bi, gi);
        lemma_fundamental_div_mod(r as int, gi);
        let k = (ai / bi) * (bi / gi) + (r as int / gi);
        assert(ai == k * gi) by (nonlinear_arith)
            requires
                ai == bi * (ai / bi) + r,
                bi == gi * (bi / gi),
                r == gi * (r as int / gi),
                k == (ai / bi) * (bi / gi) + (r as int / gi),
        {}
        lemma_mod_multiples_basic(k, gi);
        assert(ai % gi == 0);
    }
}

/// A positive number that another divides is at least as large as it.
pub proof fn lemma_divisor_le(a: nat, d: nat)
    requires
        a > 0,
        d > 0,
        a % d == 0,
    ensures
        d <= a,
        a / d >= 1,
{
    lemma_fundamental_div_mod(a as int, d as int);
    if a / d == 0 {
        assert(a as int == d as int * 0 + 0);
        assert(false);
    }
    assert(a as int == d as int * (a as int / d as int));
    vstd::arithmetic::mul::lemma_mul_ordering(d as int, a as int / d as int);
}

/// A common divisor of both arguments divides their greatest common
/// divisor.
pub proof fn lemma_common_divisor_divides_gcd(a: nat, b: nat, d: nat)
    requires
        d > 0,
        a % d == 0,
        b % d == 0,
    ensures
        gcd_spec(a, b) % d == 0,
    decreases b,
{
    if b == 0 {
    } else {
        let r = a % b;
        let ai = a as int;
        let bi = b as int;
        let di = d as int;
        lemma_fundamental_div_mod(ai, bi);
        lemma_fundamental_div_mod(bi, di);
        let k = (bi / di) * (ai / bi);
        assert(bi * (ai / bi) == di * k) by (nonlinear_arith)
            requires
                bi == di * (bi / di),
                k == (bi / di) * (ai / bi),
        {}
        assert(di * (-k) == -(di * k)) by (nonlinear_arith);
        assert(r == di * (-k) + ai);
        vstd::arithmetic::div_mod::lemma_mod_multiples_vanish(-k, ai, di);
        assert(r % d == 0);
        lemma_common_divisor_divides_gcd(b, r, d);
    }
}

/// Dividing two positive numbers by their greatest common divisor leaves a
/// coprime pair: the ratio is fully reduced.
pub proof fn lemma_reduced_coprime(a: nat, b: nat)
    requires
        a > 0,
        b > 0,
    ensures
        gcd_spec(a / gcd_spec(a, b), b / gcd_spec(a, b)) == 1,
{
    let g = gcd_spec(a, b);
    lemma_gcd_divides(a, b);
    lemma_divisor_le(a, g);
    lemma_divisor_le(b, g);
    let u = a / g;
    let v = b / g;
    let d = gcd_spec(u, v);
    lemma_gcd_divides(u, v);
    assert(d > 0);
    lemma_fundamental_div_mod(a as int, g as int);
    lemma_fundamental_div_mod(b as int, g as int);
    lemma_fundamental_div_mod(u as int, d as int);
    lemma_fundamental_div_mod(v as int, d as int);
    let gd = g * d;
    assert(a == gd * ((u / d) as int)) by (nonlinear_arith)
        requires
            a == g * u,
            u == d * (u / d),
            gd == g * d,
    {}
    assert(b == gd * ((v / d) as int)) by (nonlinear_arith)
        requires
            b == g * v,
            v == d * (v / d),
            gd == g * d,
    {}
    assert(gd >= 1) by (nonlinear_arith)
        requires
            gd == g * d,
            g >= 1,
            d >= 1,
    {}
    vstd::arithmetic::mul::lemma_mul_is_commutative(gd as int, (u / d) as int);
    vstd::arithmetic::mul::lemma_mul_is_commutative(gd as int, (v / d) as int);
    lemma_mod_multiples_basic((u / d) as int, gd as int);
    lemma_mod_multiples_basic((v / d) as int, gd as int);
    lemma_common_divisor_divides_gcd(a, b, gd);
    lemma_divisor_le(g, gd);
    assert(d == 1) by (nonlinear_arith)
        requires
            g * d <= g,
            g >= 1,
            d >= 1,
    {}
}

/// The greatest common divisor of positive numbers does not depend on the
/// order of its arguments.
pub proof fn lemma_gcd_symmetric(a: nat, b: nat)
    requires
        a > 0,
        b > 0,
    ensures
        gcd_spec(a, b) == gcd_spec(b, a),
{
    let g1 = gcd_spec(a, b);
    let g2 = gcd_spec(b, a);
    lemma_gcd_divides(a, b);
    lemma_gcd_divides(b, a);
    lemma_common_divisor_divides_gcd(b, a, g1);
    lemma_common_divisor_divides_gcd(a, b, g2);
    lemma_divisor_le(g2, g1);
    lemma_divisor_le(g1, g2);
}

/// Relies on `num::integer::gcd` (Stein's algorithm for unsigned integers):
/// it returns the greatest common divisor of its arguments, and zero when
/// both are zero.
#[verifier::external_body]
pub(crate) fn gcd_usize(a: usize, b: usize) -> (r: usize)
    ensures
        r == gcd_spec(a as nat, b as nat),
{
    num::integer::gcd(a, b)
}

} // verus!
