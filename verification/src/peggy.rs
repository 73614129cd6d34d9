//! The proving party: key derivation, commitment and response.

use crate::bigint;
use crate::choice::Choice;
use crate::natural::Natural;
use crate::protocol::{spec_commit, spec_public_key, spec_respond};
use vstd::prelude::*;

verus! {

/// Why a prover operation could not be carried out.
#[derive(Clone, Copy, Debug, PartialEq, Eq, Structural)]
pub enum PeggyError {
    /// The modulus is too small for the operation to be defined.
    InvalidModulus,
}

/// The prover. It carries no state: the secret is passed to each operation.
#[derive(Clone, Copy, Debug)]
pub struct Peggy {}

impl Peggy {
    /// The public key `y = g^x mod p` of the secret `x`.
    pub fn public_key(x: &Natural, g: &Natural, p: &Natural) -> (r: Result<Natural, PeggyError>)
        ensures
            p@ == 0 ==> r == Err::<Natural, PeggyError>(PeggyError::InvalidModulus),
            p@ != 0 ==> (r matches Ok(y) && y@ == spec_public_key(x@, g@, p@)),
    {
        if p.is_zero() {
            return Err(PeggyError::InvalidModulus);
        }
        let y = bigint::modpow(g, x, p);
        Ok(y)
    }

    /// A fresh ephemeral secret, drawn from `[0, p - 2]`.
    pub fn gen_r(p: &Natural) -> (r: Result<Natural, PeggyError>)
        ensures
            p@ < 2 ==> r == Err::<Natural, PeggyError>(PeggyError::InvalidModulus),
            p@ >= 2 ==> (r matches Ok(v) && v@ <= p@ - 2),
    {
        let one = Natural::from_u64(1);
        if p.le(&one) {
            return Err(PeggyError::InvalidModulus);
        }
        let mut rng = rand::thread_rng();
        let low = Natural::from_u64(0);
        let high = bigint::difference(p, &one);
        let r = bigint::random_range(&mut rng, &low, &high);
        Ok(r)
    }

    /// The commitment `c = g^r mod p` to the ephemeral secret `r`.
    pub fn calc_c(r: &Natural, g: &Natural, p: &Natural) -> (c: Result<Natural, PeggyError>)
        ensures
            p@ == 0 ==> c == Err::<Natural, PeggyError>(PeggyError::InvalidModulus),
            p@ != 0 ==> (c matches Ok(v) && v@ == spec_commit(r@, g@, p@)),
    {
        if p.is_zero() {
            return Err(PeggyError::InvalidModulus);
        }
        let c = bigint::modpow(g, r, p);
        Ok(c)
    }

    /// The response to a challenge: `r` for `R`, `(x + r) mod (p - 1)` for
    /// `XRMP`.
    pub fn calc_choice(choice: &Choice, x: &Natural, r: &Natural, p: &Natural) -> (res: Result<
        Natural,
        PeggyError,
    >)
        ensures
            (*choice == Choice::XRMP && p@ < 2) ==> res == Err::<Natural, PeggyError>(
                PeggyError::InvalidModulus,
            ),
            (*choice == Choice::R || p@ >= 2) ==> (res matches Ok(v) && v@ == spec_respond(
                *choice,
                x@,
                r@,
                p@,
            )),
    {
        match choice {
            Choice::R => Ok(r.clone()),
            Choice::XRMP => {
                let one = Natural::from_u64(1);
                if p.le(&one) {
                    return Err(PeggyError::InvalidModulus);
                }
                let order = bigint::difference(p, &one);
                let total = bigint::sum(x, r);
                Ok(bigint::remainder(&total, &order))
            },
        }
    }
}

} // verus!
