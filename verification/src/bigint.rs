//! Arithmetic on [`Natural`] numbers, carried out by `num_bigint`.
//!
//! Every function here hands its operands to `num_bigint::BigInt` as
//! non-negative numbers, makes one call, and takes the magnitude of the
//! result back. The contracts are believed, not proved: each says what the
//! documentation of the called operation says for non-negative operands.

use crate::natural::Natural;
use crate::protocol::mod_exp;
use num_bigint::{BigInt, RandBigInt, Sign};
use rand::rngs::ThreadRng;
use vstd::prelude::*;

verus! {

/// `BigInt::modpow`: `base^exponent mod modulus`, in `[0, modulus)`. It
/// panics on a zero modulus, which `requires` leaves out.
#[verifier::external_body]
pub(crate) fn modpow(base: &Natural, exponent: &Natural, modulus: &Natural) -> (r: Natural)
    requires
        modulus@ != 0,
    ensures
        r@ == mod_exp(base@, exponent@, modulus@),
{
    let b = BigInt::from_bytes_be(Sign::Plus, &base.bytes);
    let e = BigInt::from_bytes_be(Sign::Plus, &exponent.bytes);
    let m = BigInt::from_bytes_be(Sign::Plus, &modulus.bytes);
    Natural { bytes: b.modpow(&e, &m).to_bytes_be().1 }
}

/// `BigInt + BigInt`: the sum.
#[verifier::external_body]
pub(crate) fn sum(a: &Natural, b: &Natural) -> (r: Natural)
    ensures
        r@ == a@ + b@,
{
    let x = BigInt::from_bytes_be(Sign::Plus, &a.bytes);
    let y = BigInt::from_bytes_be(Sign::Plus, &b.bytes);
    Natural { bytes: (x + y).to_bytes_be().1 }
}

/// `BigInt - BigInt`: the difference. With `a < b` it would be negative and
/// no `Natural`, which `requires` leaves out.
#[verifier::external_body]
pub(crate) fn difference(a: &Natural, b: &Natural) -> (r: Natural)
    requires
        a@ >= b@,
    ensures
        r@ == a@ - b@,
{
    let x = BigInt::from_bytes_be(Sign::Plus, &a.bytes);
    let y = BigInt::from_bytes_be(Sign::Plus, &b.bytes);
    Natural { bytes: (x - y).to_bytes_be().1 }
}

/// `BigInt % BigInt`: the remainder, which for non-negative operands is the
/// least non-negative residue. It panics on a zero divisor, which `requires`
/// leaves out.
#[verifier::external_body]
pub(crate) fn remainder(a: &Natural, m: &Natural) -> (r: Natural)
    requires
        m@ != 0,
    ensures
        r@ == a@ % m@,
{
    let x = BigInt::from_bytes_be(Sign::Plus, &a.bytes);
    let y = BigInt::from_bytes_be(Sign::Plus, &m.bytes);
    Natural { bytes: (x % y).to_bytes_be().1 }
}

/// `RandBigInt::gen_bigint_range`: a random number `low <= r < high`. It
/// panics unless `low < high`, which `requires` says.
#[verifier::external_body]
pub(crate) fn random_range(rng: &mut ThreadRng, low: &Natural, high: &Natural) -> (r: Natural)
    requires
        low@ < high@,
    ensures
        low@ <= r@ < high@,
{
    let l = BigInt::from_bytes_be(Sign::Plus, &low.bytes);
    let h = BigInt::from_bytes_be(Sign::Plus, &high.bytes);
    Natural { bytes: rng.gen_bigint_range(&l, &h).to_bytes_be().1 }
}

} // verus!
