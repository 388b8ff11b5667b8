//! Greatest common divisors and lowest-terms ratios.

use vstd::arithmetic::div_mod::{
    lemma_fundamental_div_mod, lemma_mod_multiples_basic, lemma_small_mod,
};
use vstd::prelude::*;

verus! {

/// The greatest common divisor of `a` and `b`, by Euclid's recurrence.
/// `gcd(0, 0)` is `0`.
pub open spec fn gcd(a: nat, b: nat) -> nat
    decreases b,
{
    if b == 0 {
        a
    } else {
        gcd(b, a % b)
    }
}

/// `d` is a positive divisor of `n`.
pub open spec fn divides(d: nat, n: nat) -> bool {
    d > 0 && n % d == 0
}

/// A width-to-height ratio in lowest terms.
#[derive(Clone, Copy, Debug, PartialEq, Eq, Structural)]
pub struct AspectRatio {
    pub num: u32,
    pub den: u32,
}

impl AspectRatio {
    /// Both terms are positive and share no divisor but one.
    pub open spec fn is_reduced(self) -> bool {
        self.num > 0 && self.den > 0 && gcd(self.num as nat, self.den as nat) == 1
    }
}

/// The ratio `width : height` divided through by the greatest common divisor.
pub open spec fn reduced(width: nat, height: nat) -> (nat, nat) {
    (width / gcd(width, height), height / gcd(width, height))
}

/// With nothing to divide by, the greatest common divisor is the other number.
pub proof fn lemma_gcd_zero(a: nat)
    ensures
        gcd(a, 0) == a,
        gcd(0, a) == a,
{
    if a > 0 {
        assert(0nat % a == 0);
        assert(gcd(0, a) == gcd(a, 0));
    }
}

/// One step of Euclid's algorithm leaves the greatest common divisor unchanged.
pub proof fn lemma_gcd_step(a: nat, b: nat)
    requires
        b > 0,
    ensures
        gcd(a, b) == gcd(b, a % b),
{
}

/// A multiple of `d` is divisible by `d`.
proof fn lemma_multiple_divides(d: nat, k: nat)
    requires
        d > 0,
    ensures
        divides(d, d * k),
{
    lemma_mod_multiples_basic(k as int, d as int);
    assert(d * k == k * d) by (nonlinear_arith);
}

/// A number that `d` divides is `d` times its quotient by `d`.
proof fn lemma_divides_quotient(d: nat, n: nat)
    requires
        divides(d, n),
    ensures
        n == d * (n / d),
{
    lemma_fundamental_div_mod(n as int, d as int);
}

/// A divisor of `a` and `b` divides the remainder of `a` by `b`.
proof fn lemma_divides_remainder(d: nat, a: nat, b: nat)
    requires
        b > 0,
        divides(d, a),
        divides(d, b),
    ensures
        divides(d, a % b),
{
    lemma_divides_quotient(d, a);
    lemma_divides_quotient(d, b);
    lemma_fundamental_div_mod(a as int, b as int);
    let ka = a / d;
    let kb = b / d;
    let q = a / b;
    let r = a % b;
    assert(r == d * (ka - kb * q)) by (nonlinear_arith)
        requires
            a == d * ka,
            b == d * kb,
            a == b * q + r,
    ;
    assert(ka - kb * q >= 0) by (nonlinear_arith)
        requires
            r == d * (ka - kb * q),
            r >= 0,
            d > 0,
    ;
    lemma_multiple_divides(d, (ka - kb * q) as nat);
}

/// A divisor of `b` and of the remainder of `a` by `b` divides `a`.
proof fn lemma_divides_dividend(d: nat, a: nat, b: nat)
    requires
        b > 0,
        divides(d, b),
        divides(d, a % b),
    ensures
        divides(d, a),
{
    lemma_divides_quotient(d, b);
    lemma_divides_quotient(d, a % b);
    lemma_fundamental_div_mod(a as int, b as int);
    let kb = b / d;
    let kr = (a % b) / d;
    let q = a / b;
    assert(a == d * (kb * q + kr)) by (nonlinear_arith)
        requires
            b == d * kb,
            a % b == d * kr,
            a == b * q + a % b,
    ;
    lemma_multiple_divides(d, kb * q + kr);
}

/// The greatest common divisor of two numbers, not both zero, is positive and
/// divides each of them.
pub proof fn lemma_gcd_divides(a: nat, b: nat)
    requires
        a > 0 || b > 0,
    ensures
        divides(gcd(a, b), a),
        divides(gcd(a, b), b),
    decreases b,
{
    if b == 0 {
        assert(a % a == 0) by (nonlinear_arith)
            requires
                a > 0,
        ;
        assert(0nat % a == 0);
    } else {
        lemma_gcd_divides(b, a % b);
        lemma_divides_dividend(gcd(a, b), a, b);
    }
}

/// Every common divisor of two numbers divides their greatest common divisor.
pub proof fn lemma_gcd_greatest(a: nat, b: nat, d: nat)
    requires
        divides(d, a),
        divides(d, b),
    ensures
        divides(d, gcd(a, b)),
    decreases b,
{
    if b > 0 {
        lemma_divides_remainder(d, a, b);
        lemma_gcd_greatest(b, a % b, d);
    }
}

/// A positive number is at least as large as each of its divisors.
proof fn lemma_divisor_bound(d: nat, n: nat)
    requires
        divides(d, n),
        n > 0,
    ensures
        d <= n,
{
    if d > n {
        lemma_small_mod(n, d);
    }
}

/// Dividing two positive numbers by their greatest common divisor leaves a
/// pair in lowest terms that stands in the same proportion.
pub proof fn lemma_reduced_ratio(width: nat, height: nat)
    requires
        width > 0,
        height > 0,
    ensures
        gcd(width, height) > 0,
        reduced(width, height).0 > 0,
        reduced(width, height).1 > 0,
        reduced(width, height).0 * gcd(width, height) == width,
        reduced(width, height).1 * gcd(width, height) == height,
        reduced(width, height).0 * height == reduced(width, height).1 * width,
        gcd(reduced(width, height).0, reduced(width, height).1) == 1,
{
    let g = gcd(width, height);
    let f1 = width / g;
    let f2 = height / g;
    lemma_gcd_divides(width, height);
    lemma_divides_quotient(g, width);
    lemma_divides_quotient(g, height);
    assert(f1 > 0 && f2 > 0) by (nonlinear_arith)
        requires
            width == g * f1,
            height == g * f2,
            width > 0,
            height > 0,
    ;
    assert(f1 * g == width && f2 * g == height) by (nonlinear_arith)
        requires
            width == g * f1,
            height == g * f2,
    ;
    assert(f1 * height == f2 * width) by (nonlinear_arith)
        requires
            width == g * f1,
            height == g * f2,
    ;
    let e = gcd(f1, f2);
    lemma_gcd_divides(f1, f2);
    lemma_divides_quotient(e, f1);
    lemma_divides_quotient(e, f2);
    let c = e * g;
    assert(c > 0) by (nonlinear_arith)
        requires
            c == e * g,
            e > 0,
            g > 0,
    ;
    assert(width == c * (f1 / e)) by (nonlinear_arith)
        requires
            c == e * g,
            width == g * f1,
            f1 == e * (f1 / e),
    ;
    assert(height == c * (f2 / e)) by (nonlinear_arith)
        requires
            c == e * g,
            height == g * f2,
            f2 == e * (f2 / e),
    ;
    lemma_multiple_divides(c, f1 / e);
    lemma_multiple_divides(c, f2 / e);
    lemma_gcd_greatest(width, height, c);
    lemma_divisor_bound(c, g);
    assert(e == 1) by (nonlinear_arith)
        requires
            c == e * g,
            c <= g,
            e > 0,
            g > 0,
    ;
}

/// Computes the greatest common divisor by Euclid's algorithm.
pub fn greatest_common_divisor(left_val: usize, right_val: usize) -> (divisor: usize)
    ensures
        divisor == gcd(left_val as nat, right_val as nat),
{
    let mut a: usize = left_val;
    let mut b: usize = right_val;
    while b > 0
        invariant
            gcd(a as nat, b as nat) == gcd(left_val as nat, right_val as nat),
        decreases b,
    {
        let t: usize = b;
        b = a % b;
        a = t;
    }
    a
}

/// Reduces `width : height` to lowest terms; there is no ratio to reduce when
/// either side is zero.
pub fn reduce_ratio(width: u32, height: u32) -> (ratio: Option<AspectRatio>)
    ensures
        ratio is Some <==> width > 0 && height > 0,
        ratio matches Some(r) ==> {
            &&& r.num == reduced(width as nat, height as nat).0
            &&& r.den == reduced(width as nat, height as nat).1
            &&& r.is_reduced()
            &&& r.num * height == r.den * width
        },
{
    if width == 0 || height == 0 {
        return None;
    }
    let divisor: usize = greatest_common_divisor(width as usize, height as usize);
    proof {
        lemma_reduced_ratio(width as nat, height as nat);
    }
    let num: usize = width as usize / divisor;
    let den: usize = height as usize / divisor;
    assert(num <= width && den <= height) by (nonlinear_arith)
        requires
            num * divisor == width,
            den * divisor == height,
            divisor > 0,
    ;
    Some(AspectRatio { num: num as u32, den: den as u32 })
}

} // verus!
