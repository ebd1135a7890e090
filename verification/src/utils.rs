//! Prime-number utilities.
//!
//! Every process in the simulation owns a distinct prime, assigned by index
//! through `nth_prime`.

use vstd::prelude::*;
use vstd::arithmetic::div_mod::lemma_fundamental_div_mod;
use vstd::arithmetic::div_mod::lemma_mod_bound;
use vstd::arithmetic::div_mod::lemma_mod_multiples_basic;

verus! {

/// `d` divides `n` exactly (both positive in every use below).
pub open spec fn is_factor(d: int, n: int) -> bool {
    n % d == 0
}

/// `n` is prime: at least 2, and no number strictly between 1 and `n`
/// divides it.
pub open spec fn is_prime_spec(n: int) -> bool {
    n >= 2 && forall|d: int| 2 <= d < n ==> !#[trigger] is_factor(d, n)
}

/// How many primes lie in the interval `[2, k]`.
pub open spec fn primes_up_to(k: int) -> nat
    decreases k,
{
    if k < 2 {
        0
    } else {
        primes_up_to(k - 1) + if is_prime_spec(k) {
            1nat
        } else {
            0nat
        }
    }
}

/// Counting primes never decreases as the interval grows.
pub proof fn lemma_primes_up_to_monotone(i: int, j: int)
    requires
        i <= j,
    ensures
        primes_up_to(i) <= primes_up_to(j),
    decreases j - i,
{
    if i < j {
        lemma_primes_up_to_monotone(i, j - 1);
    }
}

/// There are at most `k - 1` primes in `[2, k]`.
pub proof fn lemma_primes_up_to_bound(k: int)
    requires
        k >= 1,
    ensures
        primes_up_to(k) <= k - 1,
    decreases k,
{
    if k > 1 {
        lemma_primes_up_to_bound(k - 1);
    }
}

/// If `a` divides `d` and `d` divides `n`, then `a` divides `n`.
proof fn lemma_factor_transitive(a: int, d: int, n: int)
    requires
        1 <= a,
        1 <= d,
        0 <= n,
        is_factor(a, d),
        is_factor(d, n),
    ensures
        is_factor(a, n),
{
    lemma_fundamental_div_mod(d, a);
    lemma_fundamental_div_mod(n, d);
    let x = d / a;
    let y = n / d;
    assert(n == (x * y) * a) by (nonlinear_arith)
        requires
            d == a * x,
            n == d * y,
    ;
    lemma_mod_multiples_basic(x * y, a);
}

/// A proper factor `d` of `n` pairs with the cofactor `n / d`, itself a
/// factor and at least 2.
proof fn lemma_cofactor_at_least_two(n: int, d: int)
    requires
        2 <= d < n,
        is_factor(d, n),
        n >= 2,
    ensures
        2 <= n / d,
        is_factor(n / d, n),
{
    lemma_fundamental_div_mod(n, d);
    let q = n / d;
    assert(q != 0) by (nonlinear_arith)
        requires
            n == d * q,
            n >= 2,
            d >= 2,
    ;
    assert(q != 1) by (nonlinear_arith)
        requires
            n == d * q,
            d < n,
    ;
    assert(q > 0);
    lemma_mod_multiples_basic(d, q);
    assert((d * q) % q == 0);
    assert(is_factor(q, n));
}

/// Primality test by trial division (the classic 6k +- 1 wheel).
pub fn is_prime(n: u64) -> (r: bool)
    ensures
        r == is_prime_spec(n as int),
{
    if n <= 1 {
        return false;
    }
    if n <= 3 {
        assert forall|d: int| 2 <= d < n implies !#[trigger] is_factor(d, n as int) by {
            assert(d == 2 && n == 3);
        }
        return true;
    }
    if n % 2 == 0 {
        assert(is_factor(2, n as int));
        return false;
    }
    if n % 3 == 0 {
        assert(is_factor(3, n as int));
        proof {
            lemma_fundamental_div_mod(n as int, 3);
            assert(n as int > 3 && n as int == 3 * (n as int / 3) ==> n as int / 3 >= 2);
        }
        return false;
    }
    let mut i: u64 = 5;
    proof {
        assert forall|d: int| 2 <= d < 5 implies !#[trigger] is_factor(d, n as int) by {
            if d == 4 && is_factor(4, n as int) {
                assert(is_factor(2, 4));
                lemma_factor_transitive(2, 4, n as int);
            }
        }
    }
    while i <= n / i
        invariant
            5 <= i,
            i % 6 == 5,
            n >= 5,
            n % 2 != 0,
            n % 3 != 0,
            forall|d: int| 2 <= d < i ==> !#[trigger] is_factor(d, n as int),
        decreases n - i,
    {
        proof {
            lemma_fundamental_div_mod(n as int, i as int);
            lemma_mod_bound(n as int, i as int);
            let q = n as int / i as int;
            let rr = n as int % i as int;
            assert(i * i <= n && i + 2 < n) by (nonlinear_arith)
                requires
                    i as int <= q,
                    n == i * q + rr,
                    0 <= rr < i,
                    i >= 5,
            ;
        }
        if n % i == 0 {
            assert(is_factor(i as int, n as int));
            return false;
        }
        if n % (i + 2) == 0 {
            assert(is_factor(i as int + 2, n as int));
            return false;
        }
        proof {
            // The four residues skipped between i and i + 6 are multiples of
            // 2 or 3, which n is not.
            lemma_fundamental_div_mod(i as int, 6);
            let k = i as int / 6;
            assert(i == 6 * k + 5);
            lemma_mod_multiples_basic(3 * k + 3, 2);
            lemma_mod_multiples_basic(3 * k + 4, 2);
            lemma_mod_multiples_basic(3 * k + 5, 2);
            lemma_mod_multiples_basic(2 * k + 3, 3);
            assert forall|d: int| 2 <= d < i + 6 implies !#[trigger] is_factor(d, n as int) by {
                if d >= i && is_factor(d, n as int) {
                    if d == i + 1 {
                        assert(d == (3 * k + 3) * 2);
                        lemma_factor_transitive(2, d, n as int);
                    } else if d == i + 3 {
                        assert(d == (3 * k + 4) * 2);
                        lemma_factor_transitive(2, d, n as int);
                    } else if d == i + 5 {
                        assert(d == (3 * k + 5) * 2);
                        lemma_factor_transitive(2, d, n as int);
                    } else if d == i + 4 {
                        assert(d == (2 * k + 3) * 3);
                        lemma_factor_transitive(3, d, n as int);
                    }
                }
            }
        }
        i += 6;
    }
    proof {
        // No factor at most the square root, hence none at all: a factor
        // d < n pairs with the cofactor n / d, and one of the two lies
        // below i.
        lemma_fundamental_div_mod(n as int, i as int);
        lemma_mod_bound(n as int, i as int);
        let q0 = n as int / i as int;
        let rr0 = n as int % i as int;
        assert(i * i > n) by (nonlinear_arith)
            requires
                q0 < i,
                n == i * q0 + rr0,
                0 <= rr0 < i,
                i >= 1,
        ;
        assert forall|d: int| 2 <= d < n implies !#[trigger] is_factor(d, n as int) by {
            if is_factor(d, n as int) {
                lemma_cofactor_at_least_two(n as int, d);
                let q = n as int / d;
                lemma_fundamental_div_mod(n as int, d);
                assert(d < i || q < i) by (nonlinear_arith)
                    requires
                        n == d * q,
                        i * i > n,
                        d >= 2,
                        q >= 2,
                ;
                assert(is_factor(q, n as int));
            }
        }
    }
    true
}

/// The `n`-th prime, 1-indexed: `nth_prime(1) == 2`.
///
/// The caller vouches that the answer exists below `u64::MAX`; for every
/// humanly reachable `n` it does.
pub fn nth_prime(n: u64) -> (r: u64)
    requires
        n >= 1,
        exists|p: int|
            #[trigger] is_prime_spec(p) && p < u64::MAX as int && primes_up_to(p) >= n,
    ensures
        is_prime_spec(r as int),
        primes_up_to(r as int) == n,
{
    let ghost pw = choose|p: int|
        #[trigger] is_prime_spec(p) && p < u64::MAX as int && primes_up_to(p) >= n;
    proof {
        lemma_primes_up_to_bound(pw);
    }
    let mut i: u64 = 1;
    let mut counter: u64 = 1;
    while counter <= n
        invariant
            1 <= i,
            i as int <= pw,
            pw < u64::MAX as int,
            n < u64::MAX,
            counter == primes_up_to(i as int) + 1,
            counter <= n + 1,
            counter > n ==> is_prime_spec(i as int),
            primes_up_to(pw) >= n,
        decreases pw - i,
    {
        proof {
            if i as int >= pw {
                lemma_primes_up_to_monotone(pw, i as int);
                assert(false);
            }
        }
        i += 1;
        if is_prime(i) {
            counter += 1;
        }
    }
    i
}

} // verus!
