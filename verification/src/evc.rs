//! Encoded vector clocks: unbounded nonnegative integers.
//!
//! The value is held as little-endian base-2^32 limbs, the same digit form
//! the bignum library exchanges, so every arithmetic call is a plain
//! conversion in and out of `num_bigint::BigUint`.

use vstd::prelude::*;
use crate::numbers::bit_len;
use crate::numbers::divides;
use crate::numbers::gcd;
use crate::numbers::lcm;
use num_integer::Integer as BigIntOps;

verus! {

/// The number a limb sequence denotes, least significant limb first.
pub open spec fn limbs_val(s: Seq<u32>) -> nat
    decreases s.len(),
{
    if s.len() == 0 {
        0
    } else {
        s[0] as nat + 0x1_0000_0000 * limbs_val(s.drop_first())
    }
}

/// An encoded vector clock: a single unbounded nonnegative integer, the
/// product of one prime per tick, merged by least common multiple.
#[derive(Debug, PartialEq, Eq)]
pub struct Evc {
    pub limbs: Vec<u32>,
}

impl View for Evc {
    type V = nat;

    open spec fn view(&self) -> nat {
        limbs_val(self.limbs@)
    }
}

/// A limb sequence denotes zero exactly when every limb is zero.
pub proof fn lemma_limbs_val_zero(s: Seq<u32>)
    ensures
        (limbs_val(s) == 0) <==> (forall|k: int| 0 <= k < s.len() ==> s[k] == 0),
    decreases s.len(),
{
    if s.len() > 0 {
        lemma_limbs_val_zero(s.drop_first());
        assert(forall|k: int| 0 <= k < s.drop_first().len() ==> s.drop_first()[k] == s[k + 1]);
        if limbs_val(s) == 0 {
            assert(s[0] == 0 && limbs_val(s.drop_first()) == 0);
            assert forall|k: int| 0 <= k < s.len() implies s[k] == 0 by {
                if k > 0 {
                    assert(s.drop_first()[k - 1] == 0);
                }
            }
        } else {
            if forall|k: int| 0 <= k < s.len() ==> s[k] == 0 {
                assert(s[0] == 0);
                assert forall|k: int| 0 <= k < s.drop_first().len() implies s.drop_first()[k]
                    == 0 by {
                    assert(s[k + 1] == 0);
                }
            }
        }
    }
}

impl Clone for Evc {
    /// Cloning keeps the value.
    fn clone(&self) -> (r: Self)
        ensures
            r@ == self@,
    {
        Evc { limbs: crate::copy_vec(&self.limbs) }
    }
}

impl Evc {
    /// The clock value `v`, in canonical (trailing-zero-free) limb form.
    pub fn from_u64(v: u64) -> (r: Evc)
        ensures
            r@ == v as nat,
    {
        let lo = #[verifier::truncate] ((v & 0xffff_ffff) as u32);
        let hi = #[verifier::truncate] ((v >> 32) as u32);
        proof {
            assert(lo == v as int % 0x1_0000_0000 && hi == v as int / 0x1_0000_0000
                && (v < 0x1_0000_0000 ==> lo == v)) by (bit_vector)
                requires
                    lo == (v & 0xffff_ffff) as u32,
                    hi == (v >> 32) as u32,
            ;
        }
        let mut limbs: Vec<u32> = Vec::new();
        if hi != 0 {
            limbs.push(lo);
            limbs.push(hi);
            proof {
                let s = limbs@;
                assert(s.drop_first() =~= seq![hi]);
                assert(s.drop_first().drop_first() =~= Seq::<u32>::empty());
                assert(limbs_val(s.drop_first().drop_first()) == 0);
                assert(limbs_val(s.drop_first()) == hi as nat);
                assert(limbs_val(s) == lo as nat + 0x1_0000_0000 * hi as nat);
                vstd::arithmetic::div_mod::lemma_fundamental_div_mod(v as int, 0x1_0000_0000);
            }
        } else if lo != 0 {
            limbs.push(lo);
            proof {
                let s = limbs@;
                assert(s.drop_first() =~= Seq::<u32>::empty());
                assert(limbs_val(Seq::<u32>::empty()) == 0);
                assert(limbs_val(s) == lo as nat);
            }
        } else {
            proof {
                assert(limbs@.len() == 0);
            }
        }
        Evc { limbs }
    }

    /// The multiplicative unit every process's clock starts from.
    pub fn one() -> (r: Evc)
        ensures
            r@ == 1,
    {
        Evc::from_u64(1)
    }

    /// Whether the value is zero; a healthy encoded clock never is.
    pub fn is_zero(&self) -> (r: bool)
        ensures
            r == (self@ == 0),
    {
        let mut j: usize = 0;
        let mut all_zero: bool = true;
        while j < self.limbs.len()
            invariant
                0 <= j <= self.limbs.len(),
                all_zero == (forall|k: int| 0 <= k < j ==> self.limbs@[k] == 0),
            decreases self.limbs.len() - j,
        {
            if self.limbs[j] != 0 {
                all_zero = false;
            }
            j += 1;
        }
        proof {
            lemma_limbs_val_zero(self.limbs@);
        }
        all_zero
    }
}

/// Relies on num-bigint: `BigUint::from_slice` and `to_u32_digits` exchange
/// little-endian base-2^32 digits, and multiplying by a `u64` scalar yields
/// the exact product.
#[verifier::external_body]
pub(crate) fn evc_mul_u64(a: &Evc, p: u64) -> (r: Evc)
    ensures
        r@ == a@ * p as nat,
{
    let x = num_bigint::BigUint::from_slice(&a.limbs) * p;
    Evc { limbs: x.to_u32_digits() }
}

/// Relies on num-bigint's `Integer::lcm` for `BigUint`: the least common
/// multiple, zero when either argument is zero.
#[verifier::external_body]
pub(crate) fn evc_lcm(a: &Evc, b: &Evc) -> (r: Evc)
    ensures
        r@ == lcm(a@, b@),
{
    let x = num_bigint::BigUint::from_slice(&a.limbs);
    let y = num_bigint::BigUint::from_slice(&b.limbs);
    Evc { limbs: x.lcm(&y).to_u32_digits() }
}

/// Relies on num-bigint's `Integer::gcd` for `BigUint`: the greatest common
/// divisor, with `gcd(x, 0) == gcd(0, x) == x`.
#[verifier::external_body]
pub(crate) fn evc_gcd(a: &Evc, b: &Evc) -> (r: Evc)
    ensures
        r@ == gcd(a@, b@),
{
    let x = num_bigint::BigUint::from_slice(&a.limbs);
    let y = num_bigint::BigUint::from_slice(&b.limbs);
    Evc { limbs: x.gcd(&y).to_u32_digits() }
}

/// Relies on num-bigint's `Integer::is_multiple_of` for `BigUint`: whether
/// `b` divides `a`, where only zero is a multiple of zero.
#[verifier::external_body]
pub(crate) fn evc_is_divisible(a: &Evc, b: &Evc) -> (r: bool)
    ensures
        r == divides(b@, a@),
{
    let x = num_bigint::BigUint::from_slice(&a.limbs);
    let y = num_bigint::BigUint::from_slice(&b.limbs);
    x.is_multiple_of(&y)
}

/// Relies on num-bigint's `BigUint::bits`: the number of significant bits,
/// zero for the value zero.
#[verifier::external_body]
pub(crate) fn evc_bits(a: &Evc) -> (r: u64)
    ensures
        r as nat == bit_len(a@),
{
    num_bigint::BigUint::from_slice(&a.limbs).bits()
}

} // verus!
