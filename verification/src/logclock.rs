//! The log-domain approximation of an encoded clock.
//!
//! A log-encoded clock is an arbitrary-precision float tracking
//! `log2(encoded_clock)`. Its value is inherently approximate — measuring
//! that approximation is the whole point of the statistics engine — so the
//! float itself stays opaque here: the library states nothing about the
//! number a float holds, only how floats are combined, and names the two
//! boolean tests the classifier branches on.

use vstd::prelude::*;
use crate::evc::Evc;

verus! {

#[verifier::external_type_specification]
#[verifier::external_body]
pub struct ExBigFloat(astro_float::BigFloat);

/// Relies on astro-float's `BigFloat::new`: a fresh zero of the given
/// precision, the starting value `log2(1)` of every log-encoded clock.
#[verifier::external_body]
pub(crate) fn lc_zero(prec: u32) -> astro_float::BigFloat {
    astro_float::BigFloat::new(prec as usize)
}

/// Relies on `BigFloat`'s `Clone`: a field-for-field copy, the same
/// value.
#[verifier::external_body]
pub(crate) fn lc_clone(f: &astro_float::BigFloat) -> (r: astro_float::BigFloat)
    ensures
        r == *f,
{
    f.clone()
}

/// Relies on astro-float's `BigFloat::add` at precision `prec`, ties to
/// even.
#[verifier::external_body]
pub(crate) fn lc_add(
    a: &astro_float::BigFloat,
    b: &astro_float::BigFloat,
    prec: u32,
) -> astro_float::BigFloat
    requires
        prec >= 2,
{
    a.add(b, prec as usize, astro_float::RoundingMode::ToEven)
}

/// Relies on astro-float's `BigFloat::sub` at precision `prec`, ties to
/// even.
#[verifier::external_body]
pub(crate) fn lc_sub(
    a: &astro_float::BigFloat,
    b: &astro_float::BigFloat,
    prec: u32,
) -> astro_float::BigFloat
    requires
        prec >= 2,
{
    a.sub(b, prec as usize, astro_float::RoundingMode::ToEven)
}

/// Relies on num-bigint's decimal formatting and astro-float's `parse` and
/// `log2`: the base-2 logarithm of a positive clock value, computed at
/// precision `prec`.
#[verifier::external_body]
pub(crate) fn lc_log2_evc(a: &Evc, prec: u32) -> astro_float::BigFloat
    requires
        a@ >= 1,
        prec >= 2,
{
    let u = num_bigint::BigUint::from_slice(&a.limbs);
    let mut cc = astro_float::Consts::new().expect("constants cache");
    let f = astro_float::BigFloat::parse(
        &u.to_string(),
        astro_float::Radix::Dec,
        prec as usize,
        astro_float::RoundingMode::ToEven,
        &mut cc,
    );
    f.log2(prec as usize, astro_float::RoundingMode::ToEven, &mut cc)
}

/// Relies on astro-float's `pow`: the anti-logarithm `exp2(f)` at
/// precision `prec`, ties to even.
#[verifier::external_body]
pub(crate) fn lc_exp2(f: &astro_float::BigFloat, prec: u32) -> astro_float::BigFloat
    requires
        prec >= 2,
{
    let mut cc = astro_float::Consts::new().expect("constants cache");
    let two = astro_float::BigFloat::from_word(2, prec as usize);
    two.pow(f, prec as usize, astro_float::RoundingMode::ToEven, &mut cc)
}

/// Relies on astro-float's `round` to zero fractional bits (ties to
/// even) and `as_raw_parts`, and on num-bigint's byte conversion and
/// shifts: the float rounded to the nearest whole clock value, or `None`
/// when it is not a finite nonnegative number. astro-float offers no
/// direct conversion to an integer, so after rounding away the fraction
/// the body rebuilds the same numeric value, mantissa times two to the
/// exponent, in integer form; no contract rests on the value, which
/// stays opaque like every float.
#[verifier::external_body]
pub(crate) fn lc_round_to_evc(f: &astro_float::BigFloat) -> Option<Evc> {
    let r = f.round(0, astro_float::RoundingMode::ToEven);
    if r.is_negative() {
        return None;
    }
    let (m, _, _, exp, _) = r.as_raw_parts()?;
    let bytes: Vec<u8> = m.iter().flat_map(|w| w.to_le_bytes()).collect();
    let mut u = num_bigint::BigUint::from_bytes_le(&bytes);
    let p = m.len() * astro_float::WORD_BIT_SIZE;
    if exp as i64 >= p as i64 {
        u <<= (exp as i64 - p as i64) as u64;
    } else {
        u >>= (p as i64 - exp as i64) as u64;
    }
    Some(Evc { limbs: u.to_u32_digits() })
}

/// Names the outcome of the log-domain integrality test: whether
/// `exp2(log2(b) - log2(a))`, with both logarithms and the power computed
/// at precision `prec` (ties rounded up, or to even), lands exactly on an
/// integer. A deterministic function of the two clock values, the
/// precision and the rounding choice alone.
pub uninterp spec fn log_int_test(a: nat, b: nat, prec: nat, round_up: bool) -> bool;

/// Names the outcome of comparing the two rounded logarithms: whether
/// `log2(a)` computed at precision `prec` is strictly below `log2(b)`.
pub uninterp spec fn log_approx_lt(a: nat, b: nat, prec: nat) -> bool;

/// Relies on astro-float's `parse`, `log2`, `sub`, `pow` and `is_int`:
/// performs the log-domain integrality test that `log_int_test` names.
#[verifier::external_body]
pub(crate) fn approx_pow_test(a: &Evc, b: &Evc, prec: u32, round_up: bool) -> (r: bool)
    requires
        a@ >= 1,
        b@ >= 1,
        prec >= 2,
    ensures
        r == log_int_test(a@, b@, prec as nat, round_up),
{
    let p = prec as usize;
    let rm = if round_up {
        astro_float::RoundingMode::Up
    } else {
        astro_float::RoundingMode::ToEven
    };
    let la = lc_log2_evc(a, prec);
    let lb = lc_log2_evc(b, prec);
    let d = lb.sub(&la, p, astro_float::RoundingMode::ToEven);
    let mut cc = astro_float::Consts::new().expect("constants cache");
    let two = astro_float::BigFloat::from_word(2, p);
    two.pow(&d, p, rm, &mut cc).is_int()
}

/// Relies on astro-float's `parse`, `log2` and `cmp`: performs the
/// log-domain comparison that `log_approx_lt` names.
#[verifier::external_body]
pub(crate) fn log_lt_test(a: &Evc, b: &Evc, prec: u32) -> (r: bool)
    requires
        a@ >= 1,
        b@ >= 1,
        prec >= 2,
    ensures
        r == log_approx_lt(a@, b@, prec as nat),
{
    let la = lc_log2_evc(a, prec);
    let lb = lc_log2_evc(b, prec);
    match la.cmp(&lb) {
        Some(c) => c < 0,
        None => false,
    }
}

} // verus!
