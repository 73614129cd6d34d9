//! The mathematics of the proof: what a public key, a commitment, a response
//! and an accepted response are, over the natural numbers, and the laws that
//! tie them together.

use crate::choice::Choice;
use vstd::arithmetic::div_mod::*;
use vstd::arithmetic::mul::*;
use vstd::arithmetic::power::*;
use vstd::prelude::*;

verus! {

/// `b^e mod m`.
pub open spec fn mod_exp(b: nat, e: nat, m: nat) -> nat {
    (pow(b as int, e) % (m as int)) as nat
}

/// `a * b mod m`.
pub open spec fn mod_mul(a: nat, b: nat, m: nat) -> nat {
    ((a * b) as int % (m as int)) as nat
}

/// The public key `y = g^x mod p` of the secret `x`.
pub open spec fn spec_public_key(x: nat, g: nat, p: nat) -> nat {
    mod_exp(g, x, p)
}

/// The commitment `c = g^r mod p` to the ephemeral secret `r`.
pub open spec fn spec_commit(r: nat, g: nat, p: nat) -> nat {
    mod_exp(g, r, p)
}

/// The answer to a challenge: `r` itself, or `(x + r) mod (p - 1)`.
pub open spec fn spec_respond(choice: Choice, x: nat, r: nat, p: nat) -> nat {
    match choice {
        Choice::R => r,
        Choice::XRMP => ((x + r) as int % (p - 1)) as nat,
    }
}

/// Whether the verifier accepts `res` as the answer to `choice`, for the
/// commitment `c` and the public key `y`.
pub open spec fn spec_verify(choice: Choice, res: nat, c: nat, y: nat, g: nat, p: nat) -> bool {
    match choice {
        Choice::R => c == mod_exp(g, res, p),
        Choice::XRMP => mod_mul(c, y, p) == mod_exp(g, res, p),
    }
}

/// Whether `g` can serve as generator modulo `p`: `g^(p-1) mod p = 1`. It is
/// what makes exponents count modulo `p - 1`.
pub open spec fn is_group(g: nat, p: nat) -> bool {
    p > 1 && mod_exp(g, (p - 1) as nat, p) == 1
}

/// A power that is 1 stays 1 when the exponent is multiplied.
pub proof fn lemma_unit_power(g: nat, p: nat, b: nat, k: nat)
    requires
        p > 1,
        mod_exp(g, b, p) == 1,
    ensures
        mod_exp(g, b * k, p) == 1,
{
    let gi = g as int;
    let pi = p as int;
    lemma_pow_multiplies(gi, b, k);
    lemma_pow_mod_noop(pow(gi, b), k, pi);
    lemma1_pow(k);
    lemma_small_mod(1, p);
}

/// `g^(k (p-1)) mod p = 1` in a group.
pub proof fn lemma_full_cycles(g: nat, p: nat, k: nat)
    requires
        is_group(g, p),
    ensures
        mod_exp(g, k * ((p - 1) as nat), p) == 1,
{
    let m = (p - 1) as nat;
    lemma_unit_power(g, p, m, k);
    assert(m * k == k * m) by (nonlinear_arith);
}

/// Exponents count modulo `p - 1` in a group.
pub proof fn lemma_exponent_reduces(g: nat, p: nat, n: nat)
    requires
        is_group(g, p),
    ensures
        mod_exp(g, n, p) == mod_exp(g, (n as int % (p - 1)) as nat, p),
{
    let m = (p - 1) as nat;
    let k = n / m;
    let s = n % m;
    let gi = g as int;
    let pi = p as int;
    lemma_fundamental_div_mod(n as int, m as int);
    assert(n == k * m + s) by (nonlinear_arith)
        requires
            n as int == (m as int) * (k as int) + (s as int),
    ;
    lemma_pow_adds(gi, k * m, s);
    lemma_full_cycles(g, p, k);
    lemma_mul_mod_noop_left(pow(gi, k * m), pow(gi, s), pi);
    assert(1 * pow(gi, s) == pow(gi, s));
}

/// The product of two powers of `g`, reduced, is the power of the sum.
pub proof fn lemma_mod_exp_adds(g: nat, a: nat, b: nat, p: nat)
    requires
        p > 0,
    ensures
        mod_mul(mod_exp(g, a, p), mod_exp(g, b, p), p) == mod_exp(g, a + b, p),
{
    let gi = g as int;
    let pi = p as int;
    lemma_pow_adds(gi, a, b);
    lemma_mul_mod_noop(pow(gi, a), pow(gi, b), pi);
    lemma_mod_bound(pow(gi, a), pi);
    lemma_mod_bound(pow(gi, b), pi);
    lemma_mul_nonnegative(pow(gi, a) % pi, pow(gi, b) % pi);
}

/// Round trip: an honest response to either challenge is accepted.
///
/// For every secret `x` and ephemeral secret `r`, in a group `(g, p)`, the
/// response computed for a challenge passes verification against the
/// commitment to `r` and the public key of `x`.
pub proof fn lemma_round_trip(choice: Choice, x: nat, r: nat, g: nat, p: nat)
    requires
        is_group(g, p),
    ensures
        spec_verify(
            choice,
            spec_respond(choice, x, r, p),
            spec_commit(r, g, p),
            spec_public_key(x, g, p),
            g,
            p,
        ),
{
    match choice {
        Choice::R => {},
        Choice::XRMP => {
            lemma_mod_exp_adds(g, r, x, p);
            lemma_exponent_reduces(g, p, x + r);
        },
    }
}

/// In a group, `g^(a+b) = g^a (mod p)` forces `g^b = 1 (mod p)`.
pub proof fn lemma_cancel(g: nat, p: nat, a: nat, b: nat)
    requires
        is_group(g, p),
        mod_exp(g, a + b, p) == mod_exp(g, a, p),
    ensures
        mod_exp(g, b, p) == 1,
{
    let m = (p - 1) as nat;
    let e = a * ((p - 2) as nat);
    assert(a + e == a * m) by (nonlinear_arith)
        requires
            e == a * ((p - 2) as nat),
            m == p - 1,
            p >= 2,
    ;
    lemma_mod_exp_adds(g, a + b, e, p);
    lemma_mod_exp_adds(g, a, e, p);
    lemma_full_cycles(g, p, a);
    assert(a + b + e == b + a * m);
    lemma_mod_exp_adds(g, b, a * m, p);
    lemma_mod_bound(pow(g as int, b), p as int);
    let v = mod_exp(g, b, p);
    assert(mod_mul(v, 1, p) == v) by {
        assert(v * 1 == v);
        lemma_small_mod(v, p);
    }
}

/// Soundness boundary: a response made for one challenge fails the other.
///
/// In a group `(g, p)`, and for a public key other than 1 (a secret that is
/// no multiple of the order of `g`), the response computed for `R` is
/// rejected when it is verified as a response to `XRMP`, and the response
/// computed for `XRMP` is rejected when it is verified as a response to `R`.
pub proof fn lemma_wrong_challenge_fails(x: nat, r: nat, g: nat, p: nat)
    requires
        is_group(g, p),
        spec_public_key(x, g, p) != 1,
    ensures
        !spec_verify(
            Choice::XRMP,
            spec_respond(Choice::R, x, r, p),
            spec_commit(r, g, p),
            spec_public_key(x, g, p),
            g,
            p,
        ),
        !spec_verify(
            Choice::R,
            spec_respond(Choice::XRMP, x, r, p),
            spec_commit(r, g, p),
            spec_public_key(x, g, p),
            g,
            p,
        ),
{
    lemma_mod_exp_adds(g, r, x, p);
    if mod_exp(g, r + x, p) == mod_exp(g, r, p) {
        lemma_cancel(g, p, r, x);
    }
    lemma_exponent_reduces(g, p, x + r);
}

} // verus!
