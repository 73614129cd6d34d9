//! Arithmetic and random numbers on [`Natural`] numbers, carried out by
//! OpenSSL's big numbers.
//!
//! Every function here builds `openssl::bn::BigNum` values from the
//! operands' bytes, makes one call, and takes the bytes of the result back.
//! The contracts are believed, not proved. OpenSSL reports a failure as an
//! `ErrorStack`, which is handed on: no contract promises success.

use crate::natural::{Natural, MAX_BYTES};
use crate::primes::{is_prime, is_safe_prime};
use crate::protocol::{mod_exp as spec_mod_exp, mod_mul as spec_mod_mul};
use openssl::bn::{BigNum, BigNumContext, MsbOption};
use openssl::error::ErrorStack;
use vstd::arithmetic::power2::pow2;
use vstd::prelude::*;

verus! {

/// `openssl::error::ErrorStack`, what OpenSSL reports when a call fails.
#[verifier::external_type_specification]
#[verifier::external_body]
pub struct ExErrorStack(ErrorStack);

/// `BigNumRef::generate_prime` with no `add` and no `rem`. Its documentation
/// says that it generates a prime number, that `bits` is the lower bound of
/// the prime's length in bits, and that with `safe` set the prime `p` is a
/// safe one, so that `(p - 1) / 2` is prime too. The contract claims that,
/// and the size in bytes, which `to_vec` bounds. OpenSSL tests primality by
/// repeated random trials, which let a composite pass with a probability that
/// is negligible and not zero: the claim is the documentation's, taken on
/// trust like the rest of this file.
#[verifier::external_body]
pub(crate) fn generate_prime(bits: i32, safe: bool) -> (r: Result<Natural, ErrorStack>)
    ensures
        r matches Ok(v) ==> {
            &&& is_prime(v@)
            &&& safe ==> is_safe_prime(v@)
            &&& bits >= 1 ==> v@ >= pow2((bits - 1) as nat)
            &&& v.bytes@.len() <= MAX_BYTES
        },
{
    let mut prime = BigNum::new()?;
    prime.generate_prime(bits, safe, None, None)?;
    Ok(Natural { bytes: prime.to_vec() })
}

/// `BigNumRef::rand` with `MsbOption::MAYBE_ZERO` and `odd` unset: a random
/// number of at most `bits` bits.
#[verifier::external_body]
pub(crate) fn rand_bits(bits: i32) -> (r: Result<Natural, ErrorStack>)
    ensures
        r matches Ok(v) ==> (bits >= 0 ==> v@ < pow2(bits as nat)) && v.bytes@.len() <= MAX_BYTES,
{
    let mut n = BigNum::new()?;
    n.rand(bits, MsbOption::MAYBE_ZERO, false)?;
    Ok(Natural { bytes: n.to_vec() })
}

/// `BigNumRef::rand_range`: a random number `0 <= r < bound`.
#[verifier::external_body]
pub(crate) fn rand_range(bound: &Natural) -> (r: Result<Natural, ErrorStack>)
    requires
        bound.bytes@.len() <= MAX_BYTES,
    ensures
        r matches Ok(v) ==> v@ < bound@ && v.bytes@.len() <= MAX_BYTES,
{
    let mut rnd = BigNum::new()?;
    BigNum::from_slice(&bound.bytes)?.rand_range(&mut rnd)?;
    Ok(Natural { bytes: rnd.to_vec() })
}

/// `BigNumRef::sub_word`: `a - w`. With `a < w` the result would be negative
/// and no `Natural`, which `requires` leaves out.
#[verifier::external_body]
pub(crate) fn sub_word(a: &Natural, w: u32) -> (r: Result<Natural, ErrorStack>)
    requires
        a.bytes@.len() <= MAX_BYTES,
        a@ >= w,
    ensures
        r matches Ok(v) ==> v@ == a@ - w && v.bytes@.len() <= MAX_BYTES,
{
    let mut n = BigNum::from_slice(&a.bytes)?;
    n.sub_word(w)?;
    Ok(Natural { bytes: n.to_vec() })
}

/// `BigNumRef::div_word`: the quotient `a / w`, the remainder dropped.
#[verifier::external_body]
pub(crate) fn div_word(a: &Natural, w: u32) -> (r: Result<Natural, ErrorStack>)
    requires
        a.bytes@.len() <= MAX_BYTES,
        w != 0,
    ensures
        r matches Ok(v) ==> v@ == a@ / (w as nat) && v.bytes@.len() <= MAX_BYTES,
{
    let mut n = BigNum::from_slice(&a.bytes)?;
    n.div_word(w)?;
    Ok(Natural { bytes: n.to_vec() })
}

/// `BigNumRef::mod_exp`: `a^p mod m`.
#[verifier::external_body]
pub(crate) fn mod_exp(a: &Natural, p: &Natural, m: &Natural) -> (r: Result<Natural, ErrorStack>)
    requires
        a.bytes@.len() <= MAX_BYTES,
        p.bytes@.len() <= MAX_BYTES,
        m.bytes@.len() <= MAX_BYTES,
        m@ != 0,
    ensures
        r matches Ok(v) ==> v@ == spec_mod_exp(a@, p@, m@) && v.bytes@.len() <= MAX_BYTES,
{
    let mut ctx = BigNumContext::new()?;
    let mut out = BigNum::new()?;
    let (a, p, m) = (
        BigNum::from_slice(&a.bytes)?,
        BigNum::from_slice(&p.bytes)?,
        BigNum::from_slice(&m.bytes)?,
    );
    out.mod_exp(&a, &p, &m, &mut ctx)?;
    Ok(Natural { bytes: out.to_vec() })
}

/// `BigNumRef::mod_mul`: `a * b mod m`.
#[verifier::external_body]
pub(crate) fn mod_mul(a: &Natural, b: &Natural, m: &Natural) -> (r: Result<Natural, ErrorStack>)
    requires
        a.bytes@.len() <= MAX_BYTES,
        b.bytes@.len() <= MAX_BYTES,
        m.bytes@.len() <= MAX_BYTES,
        m@ != 0,
    ensures
        r matches Ok(v) ==> v@ == spec_mod_mul(a@, b@, m@) && v.bytes@.len() <= MAX_BYTES,
{
    let mut ctx = BigNumContext::new()?;
    let mut out = BigNum::new()?;
    let (a, b, m) = (
        BigNum::from_slice(&a.bytes)?,
        BigNum::from_slice(&b.bytes)?,
        BigNum::from_slice(&m.bytes)?,
    );
    out.mod_mul(&a, &b, &m, &mut ctx)?;
    Ok(Natural { bytes: out.to_vec() })
}

} // verus!
