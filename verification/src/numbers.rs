//! Divisibility, gcd and lcm over natural numbers.
//!
//! These spec functions give the encoded clocks their meaning: a tick
//! multiplies by a prime, a merge takes the least common multiple, and the
//! causality ground truth is plain divisibility.

use vstd::prelude::*;
use vstd::arithmetic::div_mod::lemma_fundamental_div_mod;
use vstd::arithmetic::div_mod::lemma_mod_multiples_basic;

verus! {

/// `d` divides `n`; division by zero is read as "only zero is a multiple
/// of zero", matching the bignum library's divisibility test.
pub open spec fn divides(d: nat, n: nat) -> bool {
    if d == 0 {
        n == 0
    } else {
        n % d == 0
    }
}

/// Euclid's greatest common divisor.
pub open spec fn gcd(a: nat, b: nat) -> nat
    decreases b,
{
    if b == 0 {
        a
    } else {
        gcd(b, a % b)
    }
}

/// Least common multiple, zero when either argument is zero.
pub open spec fn lcm(a: nat, b: nat) -> nat {
    if a == 0 || b == 0 {
        0
    } else {
        (a / gcd(a, b)) * b
    }
}

/// The number of significant bits of `n`: zero for zero, otherwise the
/// position of the highest set bit plus one.
pub open spec fn bit_len(n: nat) -> nat
    decreases n,
{
    if n == 0 {
        0
    } else {
        1 + bit_len(n / 2)
    }
}

/// The pairs the statistics engine can treat as causally ordered: one
/// encoded clock divides the other.
pub open spec fn comparable(a: nat, b: nat) -> bool {
    divides(b, a) || divides(a, b)
}

/// Both directions divide.
pub open spec fn mutually_divisible(a: nat, b: nat) -> bool {
    divides(b, a) && divides(a, b)
}

/// The gcd divides both of its arguments.
pub proof fn lemma_gcd_divides(a: nat, b: nat)
    ensures
        divides(gcd(a, b), a),
        divides(gcd(a, b), b),
    decreases b,
{
    if b == 0 {
        if a > 0 {
            lemma_mod_multiples_basic(1, a as int);
            assert((1 * (a as int)) % (a as int) == 0);
        }
    } else {
        lemma_gcd_divides(b, a % b);
        let g = gcd(b, (a % b) as nat);
        lemma_fundamental_div_mod(a as int, b as int);
        if g == 0 {
            // divides(0, b) forces b == 0, against the case split.
            assert(false);
        }
        lemma_fundamental_div_mod(b as int, g as int);
        lemma_fundamental_div_mod((a % b) as int, g as int);
        let x = b as int / g as int;
        let y = (a % b) as int / g as int;
        let q = a as int / b as int;
        assert(a == (x * q + y) * g) by (nonlinear_arith)
            requires
                a == b * q + (a as int % b as int),
                b == g * x,
                a as int % b as int == g * y,
        ;
        lemma_mod_multiples_basic(x * q + y, g as int);
    }
}

/// A nonzero multiple is at least as large as the divisor.
pub proof fn lemma_divides_le(d: nat, n: nat)
    requires
        divides(d, n),
        n >= 1,
    ensures
        1 <= d <= n,
        1 <= n / d,
        n == d * (n / d),
{
    assert(d != 0);
    lemma_fundamental_div_mod(n as int, d as int);
    let q = n as int / d as int;
    assert(q >= 1) by (nonlinear_arith)
        requires
            n == d * q,
            n >= 1,
            d >= 1,
            q >= 0,
    ;
    assert(d <= n) by (nonlinear_arith)
        requires
            n == d * q,
            q >= 1,
            d >= 1,
    ;
}

/// The least common multiple of positive numbers sits at or above both:
/// under a merge neither encoded clock ever shrinks.
pub proof fn lemma_lcm_bounds(a: nat, b: nat)
    requires
        a >= 1,
        b >= 1,
    ensures
        lcm(a, b) >= a,
        lcm(a, b) >= b,
        lcm(a, b) >= 1,
{
    lemma_gcd_divides(a, b);
    let g = gcd(a, b);
    lemma_divides_le(g, a);
    lemma_divides_le(g, b);
    let x = a / g;
    let y = b / g;
    assert(lcm(a, b) == x * b);
    assert(x * b >= b) by (nonlinear_arith)
        requires
            x >= 1,
            b >= 1,
    ;
    assert(x * b >= a) by (nonlinear_arith)
        requires
            a == g * x,
            b == g * y,
            x >= 1,
            y >= 1,
            g >= 1,
    ;
}

/// Multiplying a positive clock by a prime strictly grows it.
pub proof fn lemma_tick_grows(a: nat, p: nat)
    requires
        a >= 1,
        p >= 2,
    ensures
        a * p > a,
        a * p >= 1,
{
    assert(a * p > a && a * p >= 1) by (nonlinear_arith)
        requires
            a >= 1,
            p >= 2,
    ;
}

/// The causality ground truth does not depend on which way round a pair is
/// framed, and two positive clocks that divide each other are equal.
pub proof fn lemma_ground_truth_symmetric(a: nat, b: nat)
    ensures
        comparable(a, b) == comparable(b, a),
        mutually_divisible(a, b) == mutually_divisible(b, a),
        a >= 1 && b >= 1 && mutually_divisible(a, b) ==> a == b,
{
    if a >= 1 && b >= 1 && mutually_divisible(a, b) {
        lemma_divides_le(a, b);
        lemma_divides_le(b, a);
    }
}

} // verus!

