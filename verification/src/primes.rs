//! Prime numbers and divisibility: what the group laws rest on.

use vstd::arithmetic::div_mod::*;
use vstd::arithmetic::mul::*;
use vstd::prelude::*;

verus! {

/// Whether `d` divides `n`.
pub open spec fn divides(d: nat, n: nat) -> bool {
    d != 0 && n % d == 0
}

/// Whether `n` is a prime number.
pub open spec fn is_prime(n: nat) -> bool {
    n >= 2 && forall|d: nat| 1 < d < n ==> !#[trigger] divides(d, n)
}

/// Whether `p` is a safe prime: a prime with `(p - 1) / 2` prime too.
pub open spec fn is_safe_prime(p: nat) -> bool {
    is_prime(p) && is_prime(((p - 1) / 2) as nat)
}

/// A safe prime is odd and at least 5.
pub proof fn lemma_safe_prime_is_odd(p: nat)
    requires
        is_safe_prime(p),
    ensures
        p % 2 == 1,
        p >= 5,
{
    if p % 2 == 0 {
        assert(divides(2, p));
    }
}

/// The greatest common divisor, by Euclid's algorithm.
pub open spec fn gcd(a: nat, b: nat) -> nat
    decreases b,
{
    if b == 0 {
        a
    } else {
        gcd(b, a % b)
    }
}

/// A multiple of `d` leaves no remainder.
pub proof fn lemma_multiple(d: nat, k: int)
    requires
        d > 0,
    ensures
        (d * k) % (d as int) == 0,
{
    lemma_mod_multiples_basic(k, d as int);
    lemma_mul_is_commutative(d as int, k);
}

/// What `d` divides is `d` times the quotient.
pub proof fn lemma_divides_quotient(d: nat, n: nat)
    requires
        divides(d, n),
    ensures
        n == d * (n / d),
{
    lemma_fundamental_div_mod(n as int, d as int);
}

/// Euclid's lemma: a prime that divides a product divides a factor.
pub proof fn lemma_euclid(a: nat, b: nat, p: nat)
    requires
        is_prime(p),
        (a * b) % p == 0,
    ensures
        a % p == 0 || b % p == 0,
    decreases a,
{
    if a % p != 0 {
        let a1 = a % p;
        lemma_mul_mod_noop_left(a as int, b as int, p as int);
        assert((a1 * b) % p == 0);
        let r = p % a1;
        let s = p / a1;
        lemma_fundamental_div_mod(p as int, a1 as int);
        if r == 0 {
            assert(divides(a1, p));
            assert(a1 == 1);
            assert(a1 * b == b) by (nonlinear_arith)
                requires
                    a1 == 1,
            ;
        } else {
            let t = (a1 * b) / p;
            lemma_fundamental_div_mod((a1 * b) as int, p as int);
            let k = b as int - s as int * t as int;
            assert(r * b == p * k) by (nonlinear_arith)
                requires
                    p == a1 * s + r,
                    a1 * b == p * t,
                    k == b - s * t,
            ;
            lemma_multiple(p, k);
            assert((r * b) % p == 0);
            lemma_mod_decreases(a, p);
            lemma_mod_bound(p as int, a1 as int);
            lemma_euclid(r, b, p);
            lemma_small_mod(r, p);
        }
    }
}

/// The greatest common divisor divides both numbers.
pub proof fn lemma_gcd_divides(a: nat, b: nat)
    requires
        a > 0 || b > 0,
    ensures
        gcd(a, b) > 0,
        divides(gcd(a, b), a),
        divides(gcd(a, b), b),
    decreases b,
{
    if b == 0 {
        lemma_mod_self_0(a as int);
        lemma_multiple(a, 0);
        assert(a * 0 == 0);
    } else {
        let d = gcd(b, a % b);
        lemma_gcd_divides(b, a % b);
        lemma_divides_quotient(d, b);
        lemma_divides_quotient(d, a % b);
        lemma_fundamental_div_mod(a as int, b as int);
        let u = (b / d) as int;
        let v = ((a % b) / d) as int;
        let k = a as int / b as int;
        assert(a == d * (u * k + v)) by (nonlinear_arith)
            requires
                a == b * k + (a % b),
                b == d * u,
                (a % b) == d * v,
        ;
        lemma_multiple(d, u * k + v);
    }
}

/// Twice a prime `q` has no divisors below itself but 1, 2 and `q`.
pub proof fn lemma_divisors_of_twice_a_prime(e: nat, q: nat)
    requires
        is_prime(q),
        divides(e, 2 * q),
        e < 2 * q,
    ensures
        e == 1 || e == 2 || e == q,
{
    let m = (2 * q) / e;
    lemma_divides_quotient(e, 2 * q);
    assert(e * m == 2 * q);
    lemma_mod_self_0(q as int);
    lemma_multiple(q, 2);
    assert((e * m) % q == 0) by {
        assert(e * m == q * 2);
    }
    lemma_euclid(e, m, q);
    if e % q == 0 {
        let t = e / q;
        lemma_fundamental_div_mod(e as int, q as int);
        assert(t == 1) by (nonlinear_arith)
            requires
                e == q * t,
                0 < e < 2 * q,
                q >= 2,
        ;
        assert(e == q) by (nonlinear_arith)
            requires
                e == q * t,
                t == 1,
        ;
    } else {
        let t = m / q;
        lemma_fundamental_div_mod(m as int, q as int);
        assert(e * t == 2) by (nonlinear_arith)
            requires
                m == q * t,
                e * m == 2 * q,
                q >= 2,
        ;
        assert(e == 1 || e == 2) by (nonlinear_arith)
            requires
                e * t == 2,
        ;
    }
}

} // verus!
