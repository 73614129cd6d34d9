//! The prover's operations on hexadecimal text, for callers that hold their
//! numbers as text: each reads its arguments, computes with [`Peggy`], and
//! writes the result.

use crate::choice::Choice;
use crate::hex::{hex_value, is_canonical_hex, is_hex_text};
use crate::natural::Natural;
use crate::peggy::Peggy;
use crate::protocol::{spec_commit, spec_public_key, spec_respond};
use vstd::prelude::*;

verus! {

/// Why an operation on text could not be carried out.
#[derive(Clone, Copy, Debug, PartialEq, Eq, Structural)]
pub enum FeError {
    /// An argument is not hexadecimal text.
    NotANumber,
    /// The modulus is too small for the operation to be defined.
    InvalidModulus,
}

/// The public key `g^x mod p`.
pub fn public_key(x: &str, g: &str, p: &str) -> (r: Result<String, FeError>)
    ensures
        !(is_hex_text(x@) && is_hex_text(g@) && is_hex_text(p@)) ==> r == Err::<String, FeError>(
            FeError::NotANumber,
        ),
        (is_hex_text(x@) && is_hex_text(g@) && is_hex_text(p@) && hex_value(p@) == 0) ==> r
            == Err::<String, FeError>(FeError::InvalidModulus),
        (is_hex_text(x@) && is_hex_text(g@) && is_hex_text(p@) && hex_value(p@) != 0) ==> (
        r matches Ok(y) && is_canonical_hex(y@) && hex_value(y@) == spec_public_key(
            hex_value(x@),
            hex_value(g@),
            hex_value(p@),
        )),
{
    let (x, g, p) = match (Natural::from_hex(x), Natural::from_hex(g), Natural::from_hex(p)) {
        (Some(x), Some(g), Some(p)) => (x, g, p),
        _ => {
            return Err(FeError::NotANumber);
        },
    };
    match Peggy::public_key(&x, &g, &p) {
        Ok(y) => Ok(y.to_hex()),
        Err(_) => Err(FeError::InvalidModulus),
    }
}

/// A fresh ephemeral secret from `[0, p - 2]`.
pub fn gen_r(p: &str) -> (r: Result<String, FeError>)
    ensures
        !is_hex_text(p@) ==> r == Err::<String, FeError>(FeError::NotANumber),
        (is_hex_text(p@) && hex_value(p@) < 2) ==> r == Err::<String, FeError>(
            FeError::InvalidModulus,
        ),
        (is_hex_text(p@) && hex_value(p@) >= 2) ==> (r matches Ok(v) && is_canonical_hex(v@)
            && hex_value(v@) <= hex_value(p@) - 2),
{
    let p = match Natural::from_hex(p) {
        Some(p) => p,
        None => {
            return Err(FeError::NotANumber);
        },
    };
    match Peggy::gen_r(&p) {
        Ok(r) => Ok(r.to_hex()),
        Err(_) => Err(FeError::InvalidModulus),
    }
}

/// The commitment `g^r mod p`.
pub fn calc_c(r: &str, g: &str, p: &str) -> (c: Result<String, FeError>)
    ensures
        !(is_hex_text(r@) && is_hex_text(g@) && is_hex_text(p@)) ==> c == Err::<String, FeError>(
            FeError::NotANumber,
        ),
        (is_hex_text(r@) && is_hex_text(g@) && is_hex_text(p@) && hex_value(p@) == 0) ==> c
            == Err::<String, FeError>(FeError::InvalidModulus),
        (is_hex_text(r@) && is_hex_text(g@) && is_hex_text(p@) && hex_value(p@) != 0) ==> (
        c matches Ok(v) && is_canonical_hex(v@) && hex_value(v@) == spec_commit(
            hex_value(r@),
            hex_value(g@),
            hex_value(p@),
        )),
{
    let (r, g, p) = match (Natural::from_hex(r), Natural::from_hex(g), Natural::from_hex(p)) {
        (Some(r), Some(g), Some(p)) => (r, g, p),
        _ => {
            return Err(FeError::NotANumber);
        },
    };
    match Peggy::calc_c(&r, &g, &p) {
        Ok(c) => Ok(c.to_hex()),
        Err(_) => Err(FeError::InvalidModulus),
    }
}

/// The response to the challenge `choice`.
pub fn calc_choice(choice: &Choice, x: &str, r: &str, p: &str) -> (res: Result<String, FeError>)
    ensures
        !(is_hex_text(x@) && is_hex_text(r@) && is_hex_text(p@)) ==> res == Err::<String, FeError>(
            FeError::NotANumber,
        ),
        (is_hex_text(x@) && is_hex_text(r@) && is_hex_text(p@) && *choice == Choice::XRMP
            && hex_value(p@) < 2) ==> res == Err::<String, FeError>(FeError::InvalidModulus),
        (is_hex_text(x@) && is_hex_text(r@) && is_hex_text(p@) && (*choice == Choice::R
            || hex_value(p@) >= 2)) ==> (res matches Ok(v) && is_canonical_hex(v@) && hex_value(v@)
            == spec_respond(*choice, hex_value(x@), hex_value(r@), hex_value(p@))),
{
    let (x, r, p) = match (Natural::from_hex(x), Natural::from_hex(r), Natural::from_hex(p)) {
        (Some(x), Some(r), Some(p)) => (x, r, p),
        _ => {
            return Err(FeError::NotANumber);
        },
    };
    match Peggy::calc_choice(choice, &x, &r, &p) {
        Ok(res) => Ok(res.to_hex()),
        Err(_) => Err(FeError::InvalidModulus),
    }
}

} // verus!
