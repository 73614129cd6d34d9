//! Why the generator test is enough: modulo a safe prime `p = 2q + 1`, a
//! number that passes it has order exactly `p - 1`, and so a safe prime with
//! such a number carries the proof. That the verifier's prime is a safe one
//! is the backend's word; the rest is proved here.

use crate::choice::Choice;
use crate::fermat::lemma_fermat;
use crate::primes::{
    gcd, is_prime, is_safe_prime, lemma_divides_quotient, lemma_divisors_of_twice_a_prime,
    lemma_gcd_divides, lemma_safe_prime_is_odd,
};
use crate::protocol::{
    is_group, lemma_exponent_reduces, lemma_mod_exp_adds, lemma_round_trip, lemma_unit_power,
    lemma_wrong_challenge_fails, mod_exp, mod_mul, spec_commit, spec_public_key, spec_respond,
    spec_verify,
};
use crate::victor::is_generator_witness;
use vstd::arithmetic::div_mod::*;
use vstd::arithmetic::power::*;
use vstd::prelude::*;

verus! {

/// The exponents that give 1 are closed under the remainder.
pub proof fn lemma_unit_exponent_remainder(g: nat, p: nat, a: nat, b: nat)
    requires
        p > 1,
        b > 0,
        mod_exp(g, a, p) == 1,
        mod_exp(g, b, p) == 1,
    ensures
        mod_exp(g, a % b, p) == 1,
{
    let k = a / b;
    let r = a % b;
    lemma_fundamental_div_mod(a as int, b as int);
    lemma_unit_power(g, p, b, k);
    lemma_mod_exp_adds(g, b * k, r, p);
    assert(b * k + r == a);
    let v = mod_exp(g, r, p);
    lemma_mod_bound(pow(g as int, r), p as int);
    assert(mod_mul(1, v, p) == v) by {
        assert(1 * v == v);
        lemma_small_mod(v, p);
    }
}

/// The exponents that give 1 are closed under the greatest common divisor.
pub proof fn lemma_unit_exponent_gcd(g: nat, p: nat, a: nat, b: nat)
    requires
        p > 1,
        mod_exp(g, a, p) == 1,
        mod_exp(g, b, p) == 1,
    ensures
        mod_exp(g, gcd(a, b), p) == 1,
    decreases b,
{
    if b != 0 {
        lemma_unit_exponent_remainder(g, p, a, b);
        lemma_unit_exponent_gcd(g, p, b, a % b);
    }
}

/// Modulo `p = 2q + 1` with `q` prime, a number that passes the generator
/// test and whose `(p - 1)`-th power is 1 has no smaller positive power that
/// is 1.
pub proof fn lemma_generator_order(g: nat, p: nat, k: nat)
    requires
        p % 2 == 1,
        is_prime(((p - 1) / 2) as nat),
        is_group(g, p),
        is_generator_witness(g, p),
        0 < k < p - 1,
    ensures
        mod_exp(g, k, p) != 1,
{
    let q = ((p - 1) / 2) as nat;
    let n = (p - 1) as nat;
    assert(n == 2 * q);
    if mod_exp(g, k, p) == 1 {
        let e = gcd(k, n);
        lemma_unit_exponent_gcd(g, p, k, n);
        lemma_gcd_divides(k, n);
        lemma_divides_quotient(e, k);
        assert(e <= k) by (nonlinear_arith)
            requires
                k == e * (k / e),
                k > 0,
                e > 0,
        ;
        lemma_divisors_of_twice_a_prime(e, q);
        if e == 1 {
            lemma_pow1(g as int);
            lemma_small_mod(g, p);
        }
    }
}

/// Whether `g` has multiplicative order exactly `p - 1` modulo `p`: its
/// `(p - 1)`-th power is 1, and no smaller positive power is.
pub open spec fn has_full_order(g: nat, p: nat) -> bool {
    &&& is_group(g, p)
    &&& forall|k: nat| 0 < k < p - 1 ==> #[trigger] mod_exp(g, k, p) != 1
}

/// Group validity: modulo a safe prime `p`, a number `g` that passes the
/// generator test has multiplicative order exactly `p - 1`. Its `(p - 1)`-th
/// power is 1, and no smaller positive power is.
pub proof fn lemma_group_validity(g: nat, p: nat)
    requires
        is_safe_prime(p),
        is_generator_witness(g, p),
    ensures
        is_group(g, p),
        forall|k: nat| 0 < k < p - 1 ==> #[trigger] mod_exp(g, k, p) != 1,
        has_full_order(g, p),
{
    lemma_safe_prime_is_odd(p);
    lemma_small_mod(g, p);
    lemma_fermat(g, p);
    assert forall|k: nat| 0 < k < p - 1 implies #[trigger] mod_exp(g, k, p) != 1 by {
        lemma_generator_order(g, p, k);
    }
}

/// With generated parameters, the public key is 1 for the secrets that are
/// multiples of `p - 1` and for no others.
pub proof fn lemma_trivial_keys(x: nat, g: nat, p: nat)
    requires
        is_safe_prime(p),
        is_generator_witness(g, p),
    ensures
        spec_public_key(x, g, p) == 1 <==> x % ((p - 1) as nat) == 0,
{
    lemma_group_validity(g, p);
    lemma_exponent_reduces(g, p, x);
    let k = x % ((p - 1) as nat);
    if k == 0 {
        lemma_pow0(g as int);
        lemma_small_mod(1, p);
    }
}

/// Round trip and soundness boundary for generated parameters: modulo a safe
/// prime `p` and with a generator `g` that passed the test, an honest
/// response to either challenge is accepted for every secret `x` and
/// every ephemeral secret `r`; and unless `x` is a multiple of `p - 1`, the
/// response made for one challenge is rejected as a response to the other.
pub proof fn lemma_generated_parameters_carry_the_proof(x: nat, r: nat, g: nat, p: nat)
    requires
        is_safe_prime(p),
        is_generator_witness(g, p),
    ensures
        forall|choice: Choice|
            spec_verify(
                choice,
                #[trigger] spec_respond(choice, x, r, p),
                spec_commit(r, g, p),
                spec_public_key(x, g, p),
                g,
                p,
            ),
        x % ((p - 1) as nat) != 0 ==> !spec_verify(
            Choice::XRMP,
            spec_respond(Choice::R, x, r, p),
            spec_commit(r, g, p),
            spec_public_key(x, g, p),
            g,
            p,
        ) && !spec_verify(
            Choice::R,
            spec_respond(Choice::XRMP, x, r, p),
            spec_commit(r, g, p),
            spec_public_key(x, g, p),
            g,
            p,
        ),
{
    lemma_group_validity(g, p);
    lemma_trivial_keys(x, g, p);
    assert forall|choice: Choice|
        spec_verify(
            choice,
            #[trigger] spec_respond(choice, x, r, p),
            spec_commit(r, g, p),
            spec_public_key(x, g, p),
            g,
            p,
        ) by {
        lemma_round_trip(choice, x, r, g, p);
    }
    if x % ((p - 1) as nat) != 0 {
        lemma_wrong_challenge_fails(x, r, g, p);
    }
}

} // verus!
