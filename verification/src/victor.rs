//! The verifying party: group parameters, challenges and verification.

use crate::bn;
use crate::choice::Choice;
use crate::group::{has_full_order, lemma_group_validity};
use crate::natural::{lemma_weight_is_pow2, Natural, MAX_BYTES};
use crate::primes::is_safe_prime;
use crate::protocol::{mod_exp, spec_verify};
use crate::random;
use rand::rngs::ThreadRng;
use vstd::arithmetic::power2::pow2;
use vstd::prelude::*;

verus! {

/// The bit length of the modulus that [`Victor::handshake`] generates.
pub const BITS: i32 = 512;

/// The length of that modulus in bytes.
pub const BYTES: usize = 64;

/// How many candidates [`find_cyclic_group_generator`] draws before it gives
/// up. About half of all residues modulo a safe prime are generators, so the
/// limit is out of reach in practice.
pub const MAX_DRAWS: u64 = 0xffff_ffff_ffff_ffff;

/// Why a verifier operation could not be carried out.
#[derive(Clone, Copy, Debug, PartialEq, Eq, Structural)]
pub enum VictorError {
    /// The modulus is zero, or an operand is longer than [`MAX_BYTES`] bytes.
    InvalidInput,
    /// The search for a safe prime or for a generator did not complete.
    GenerationFailure,
    /// The big-number backend reported a failure.
    Backend,
}

/// What [`find_cyclic_group_generator`] tests of a candidate `g` modulo `p`:
/// it is neither 0 nor 1, and neither its square nor its `(p-1)/2`-th power
/// is 1. For a safe prime `p` this leaves `p - 1` as the only possible order.
pub open spec fn is_generator_witness(g: nat, p: nat) -> bool {
    &&& 1 < g < p
    &&& mod_exp(g, 2, p) != 1
    &&& mod_exp(g, ((p - 1) / 2) as nat, p) != 1
}

/// Whether `(p, g)` are group parameters as [`Victor::handshake`] gives them:
/// `p` is a safe prime of [`BITS`] bits, and `g` passes the generator test and
/// so has order exactly `p - 1`.
pub open spec fn is_valid_group(g: nat, p: nat) -> bool {
    &&& is_safe_prime(p)
    &&& pow2((BITS - 1) as nat) <= p < pow2(BITS as nat)
    &&& is_generator_witness(g, p)
    &&& has_full_order(g, p)
}

/// Takes a prime that the backend found if it is of no more than [`BITS`]
/// bits, and turns it down if it is longer.
pub fn accept_prime(prime: Natural) -> (r: Result<Natural, VictorError>)
    ensures
        prime@ < pow2(BITS as nat) ==> (r matches Ok(p) && p.bytes@ == prime.bytes@),
        prime@ >= pow2(BITS as nat) ==> r == Err::<Natural, VictorError>(
            VictorError::GenerationFailure,
        ),
{
    proof {
        lemma_weight_is_pow2(BYTES as nat);
    }
    if prime.fits_in(BYTES) {
        Ok(prime)
    } else {
        Err(VictorError::GenerationFailure)
    }
}

/// A random safe prime of exactly [`BITS`] bits.
///
/// The backend promises a safe prime of at least that length; a longer one
/// is turned down by [`accept_prime`]. That the number is a safe prime rests
/// on the backend's word.
pub fn generate_safe_prime() -> (r: Result<Natural, VictorError>)
    ensures
        r matches Ok(p) ==> {
            &&& is_safe_prime(p@)
            &&& pow2((BITS - 1) as nat) <= p@ < pow2(BITS as nat)
            &&& p.bytes@.len() <= MAX_BYTES
        },
        r matches Err(e) ==> e == VictorError::GenerationFailure,
{
    match bn::generate_prime(BITS, true) {
        Ok(prime) => accept_prime(prime),
        Err(_) => Err(VictorError::GenerationFailure),
    }
}

/// Whether the candidate `alpha` passes the generator test modulo `p`, where
/// `q` is to be `(p - 1) / 2`.
pub fn is_generator(alpha: &Natural, p: &Natural, q: &Natural) -> (r: Result<bool, VictorError>)
    ensures
        (p@ == 0 || !fit3(alpha, p, q)) ==> r == Err::<bool, VictorError>(
            VictorError::InvalidInput,
        ),
        r matches Ok(b) ==> b == (alpha@ > 1 && mod_exp(alpha@, 2, p@) != 1 && mod_exp(
            alpha@,
            q@,
            p@,
        ) != 1),
        r matches Err(e) ==> e == VictorError::InvalidInput || e == VictorError::Backend,
        (r matches Err(e) && e == VictorError::InvalidInput) ==> (p@ == 0 || !fit3(alpha, p, q)),
        (p@ != 0 && fit3(alpha, p, q) && alpha@ <= 1) ==> r == Ok::<bool, VictorError>(false),
{
    if p.is_zero() || !alpha.fits() || !p.fits() || !q.fits() {
        return Err(VictorError::InvalidInput);
    }
    let one = Natural::from_u64(1);
    let two = Natural::from_u64(2);
    if alpha.le(&one) {
        return Ok(false);
    }
    let square = match bn::mod_exp(alpha, &two, p) {
        Ok(v) => v,
        Err(_) => {
            return Err(VictorError::Backend);
        },
    };
    if square.equals(&one) {
        return Ok(false);
    }
    let power = match bn::mod_exp(alpha, q, p) {
        Ok(v) => v,
        Err(_) => {
            return Err(VictorError::Backend);
        },
    };
    Ok(!power.equals(&one))
}

/// Whether all three numbers are short enough for the backend.
pub open spec fn fit3(a: &Natural, b: &Natural, c: &Natural) -> bool {
    a.bytes@.len() <= MAX_BYTES && b.bytes@.len() <= MAX_BYTES && c.bytes@.len() <= MAX_BYTES
}

/// Searches a generator of the multiplicative group modulo `p` by drawing
/// candidates below `p` until one passes the test. The search ends after
/// [`MAX_DRAWS`] candidates at the latest; which candidates are drawn is up to
/// chance, so success is not promised.
pub fn find_cyclic_group_generator(p: &Natural) -> (r: Result<Natural, VictorError>)
    ensures
        (p@ == 0 || p.bytes@.len() > MAX_BYTES) ==> r == Err::<Natural, VictorError>(
            VictorError::InvalidInput,
        ),
        (p@ != 0 && p.bytes@.len() <= MAX_BYTES) ==> (r is Ok || r == Err::<Natural, VictorError>(
            VictorError::GenerationFailure,
        )),
        r matches Ok(g) ==> is_generator_witness(g@, p@) && g.bytes@.len() <= MAX_BYTES,
{
    if p.is_zero() || !p.fits() {
        return Err(VictorError::InvalidInput);
    }
    let less = match bn::sub_word(p, 1) {
        Ok(v) => v,
        Err(_) => {
            return Err(VictorError::GenerationFailure);
        },
    };
    let q = match bn::div_word(&less, 2) {
        Ok(v) => v,
        Err(_) => {
            return Err(VictorError::GenerationFailure);
        },
    };
    let mut draws: u64 = 0;
    while draws < MAX_DRAWS
        invariant
            p@ != 0,
            p.bytes@.len() <= MAX_BYTES,
            q.bytes@.len() <= MAX_BYTES,
            q@ == (p@ - 1) / 2,
        decreases MAX_DRAWS - draws,
    {
        draws = draws + 1;
        let alpha = match bn::rand_range(p) {
            Ok(v) => v,
            Err(_) => {
                return Err(VictorError::GenerationFailure);
            },
        };
        match is_generator(&alpha, p, &q) {
            Ok(true) => {
                return Ok(alpha);
            },
            Ok(false) => {},
            Err(_) => {
                return Err(VictorError::GenerationFailure);
            },
        }
    }
    Err(VictorError::GenerationFailure)
}

/// The verifier. It carries no state of its own.
#[derive(Clone, Copy, Debug)]
pub struct Victor {}

impl Victor {
    /// A verifier.
    pub fn new() -> (v: Self)
        ensures
            v == (Victor {}),
    {
        Victor {}
    }

    /// Fresh group parameters `(p, g)`: a safe prime of [`BITS`] bits and a
    /// generator of the multiplicative group modulo it, of order `p - 1`.
    pub fn handshake(&self) -> (r: Result<(Natural, Natural), VictorError>)
        ensures
            r matches Ok(pg) ==> is_valid_group(pg.1@, pg.0@) && pg.0.bytes@.len() <= MAX_BYTES
                && pg.1.bytes@.len() <= MAX_BYTES,
            r matches Err(e) ==> e == VictorError::GenerationFailure,
    {
        let p = generate_safe_prime()?;
        match find_cyclic_group_generator(&p) {
            Ok(g) => {
                proof {
                    lemma_group_validity(g@, p@);
                }
                Ok((p, g))
            },
            Err(_) => Err(VictorError::GenerationFailure),
        }
    }

    /// The challenge that a random bit stands for.
    pub fn choice_of(bit: bool) -> (c: Choice)
        ensures
            c == if bit {
                Choice::XRMP
            } else {
                Choice::R
            },
    {
        if bit {
            Choice::XRMP
        } else {
            Choice::R
        }
    }

    /// Draws the challenge of a round. Either challenge may come back.
    pub fn pick_choice(&self, rng: &mut ThreadRng) -> (c: Choice) {
        Victor::choice_of(random::random_bit(rng))
    }

    /// Decides a round from the two sides of the verification equation:
    /// `power` is `g^res mod p`, and `product` is `c * y mod p`, which only
    /// the challenge `XRMP` asks for. Without the product that challenge is
    /// not met.
    pub fn check_response(
        choice: &Choice,
        c: &Natural,
        product: Option<&Natural>,
        power: &Natural,
    ) -> (b: bool)
        ensures
            b == match *choice {
                Choice::R => c@ == power@,
                Choice::XRMP => product matches Some(left) && left@ == power@,
            },
    {
        match choice {
            Choice::R => c.equals(power),
            Choice::XRMP => match product {
                Some(left) => left.equals(power),
                None => false,
            },
        }
    }

    /// Whether `res` answers the challenge `choice` for the commitment `c`
    /// and the public key `y`.
    pub fn verify(
        &self,
        choice: &Choice,
        res: &Natural,
        c: &Natural,
        y: &Natural,
        g: &Natural,
        p: &Natural,
    ) -> (r: Result<bool, VictorError>)
        ensures
            !verify_operands_ok(*choice, res, c, y, g, p) ==> r == Err::<bool, VictorError>(
                VictorError::InvalidInput,
            ),
            verify_operands_ok(*choice, res, c, y, g, p) ==> (r is Ok || r == Err::<
                bool,
                VictorError,
            >(VictorError::Backend)),
            r matches Ok(b) ==> b == spec_verify(*choice, res@, c@, y@, g@, p@),
    {
        if p.is_zero() || !res.fits() || !g.fits() || !p.fits() {
            return Err(VictorError::InvalidInput);
        }
        match choice {
            Choice::R => {
                let power = match bn::mod_exp(g, res, p) {
                    Ok(v) => v,
                    Err(_) => {
                        return Err(VictorError::Backend);
                    },
                };
                Ok(Victor::check_response(choice, c, None, &power))
            },
            Choice::XRMP => {
                if !c.fits() || !y.fits() {
                    return Err(VictorError::InvalidInput);
                }
                let power = match bn::mod_exp(g, res, p) {
                    Ok(v) => v,
                    Err(_) => {
                        return Err(VictorError::Backend);
                    },
                };
                let product = match bn::mod_mul(c, y, p) {
                    Ok(v) => v,
                    Err(_) => {
                        return Err(VictorError::Backend);
                    },
                };
                Ok(Victor::check_response(choice, c, Some(&product), &power))
            },
        }
    }
}

/// Whether [`Victor::verify`] can hand to the backend what the challenge
/// needs: the modulus is not zero, and neither it nor the response nor the
/// generator is longer than [`MAX_BYTES`] bytes; for `XRMP`, which multiplies
/// the commitment and the public key, neither are those.
pub open spec fn verify_operands_ok(
    choice: Choice,
    res: &Natural,
    c: &Natural,
    y: &Natural,
    g: &Natural,
    p: &Natural,
) -> bool {
    &&& p@ != 0
    &&& res.bytes@.len() <= MAX_BYTES
    &&& g.bytes@.len() <= MAX_BYTES
    &&& p.bytes@.len() <= MAX_BYTES
    &&& choice == Choice::XRMP ==> c.bytes@.len() <= MAX_BYTES && y.bytes@.len() <= MAX_BYTES
}

} // verus!
