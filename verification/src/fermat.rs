//! Fermat's little theorem: modulo a prime `p`, the `(p - 1)`-th power of a
//! number that `p` does not divide is 1. It is why the parameters that the
//! verifier generates form a group.
//!
//! The proof is the classical one: multiplying the numbers `1, ..., p - 1` by
//! `a` and reducing permutes them, so both lists have the same product.

use crate::primes::{is_prime, lemma_euclid};
use crate::protocol::{is_group, mod_exp};
use vstd::arithmetic::div_mod::*;
use vstd::arithmetic::mul::*;
use vstd::arithmetic::power::*;
use vstd::prelude::*;
use vstd::seq_lib::*;
use vstd::set_lib::*;

verus! {

/// Multiplication, as the step of a fold.
pub open spec fn times() -> spec_fn(int, int) -> int {
    |acc: int, x: int| acc * x
}

/// The product of the numbers in `s`.
pub open spec fn product(s: Seq<int>) -> int {
    s.fold_left(1int, times())
}

/// The numbers `1, ..., k`.
pub open spec fn numbers(k: nat) -> Seq<int> {
    Seq::new(k, |i: int| i + 1)
}

/// The numbers `a, 2a, ..., ka`, reduced modulo `p`.
pub open spec fn multiples(a: nat, p: nat, k: nat) -> Seq<int> {
    Seq::new(k, |i: int| (a * (i + 1)) % (p as int))
}

proof fn lemma_product_push(s: Seq<int>, x: int)
    ensures
        product(s.push(x)) == product(s) * x,
{
    assert(s.push(x).drop_last() =~= s);
}

/// The product of the reduced multiples is `a^k` times the product of the
/// numbers, modulo `p`.
proof fn lemma_product_of_multiples(a: nat, p: nat, k: nat)
    requires
        p > 0,
    ensures
        product(multiples(a, p, k)) % (p as int) == (pow(a as int, k) * product(numbers(k))) % (
        p as int),
    decreases k,
{
    let pi = p as int;
    let ai = a as int;
    if k == 0 {
        lemma_pow0(ai);
        assert(multiples(a, p, 0) =~= Seq::<int>::empty());
        assert(numbers(0) =~= Seq::<int>::empty());
    } else {
        let j = (k - 1) as nat;
        lemma_product_of_multiples(a, p, j);
        let m = (ai * k) % pi;
        assert(multiples(a, p, k) =~= multiples(a, p, j).push(m));
        assert(numbers(k) =~= numbers(j).push(k as int));
        lemma_product_push(multiples(a, p, j), m);
        lemma_product_push(numbers(j), k as int);
        let big = product(multiples(a, p, j));
        let fact = product(numbers(j));
        let power = pow(ai, j);
        lemma_mul_mod_noop_right(big, ai * k, pi);
        lemma_mul_mod_noop_left(big, ai * k, pi);
        lemma_mul_mod_noop_left(power * fact, ai * k, pi);
        assert(pow(ai, k) == ai * power) by {
            reveal(pow);
        }
        assert((power * fact) * (ai * k) == (ai * power) * (fact * k)) by (nonlinear_arith);
    }
}

/// A prime does not divide the product of smaller positive numbers.
proof fn lemma_product_of_numbers(p: nat, k: nat)
    requires
        is_prime(p),
        k < p,
    ensures
        product(numbers(k)) > 0,
        product(numbers(k)) % (p as int) != 0,
    decreases k,
{
    if k == 0 {
        assert(numbers(0) =~= Seq::<int>::empty());
        lemma_small_mod(1, p);
    } else {
        let j = (k - 1) as nat;
        lemma_product_of_numbers(p, j);
        assert(numbers(k) =~= numbers(j).push(k as int));
        lemma_product_push(numbers(j), k as int);
        let fact = product(numbers(j));
        lemma_mul_strictly_positive(fact, k as int);
        if (fact * k) % (p as int) == 0 {
            lemma_euclid(fact as nat, k, p);
            lemma_small_mod(k, p);
        }
    }
}

/// Modulo a prime, a multiple of `a` by a number below `p` is not zero, and
/// two such multiples differ.
proof fn lemma_multiples_differ(a: nat, p: nat, i: nat, j: nat)
    requires
        is_prime(p),
        a % p != 0,
        0 < i < p,
        0 < j < p,
    ensures
        (a * i) % p != 0,
        i != j ==> (a * i) % p != (a * j) % p,
{
    if (a * i) % p == 0 {
        lemma_euclid(a, i, p);
        lemma_small_mod(i, p);
    }
    if i != j && (a * i) % p == (a * j) % p {
        let (lo, hi) = if i < j {
            (i, j)
        } else {
            (j, i)
        };
        let d = (hi - lo) as nat;
        lemma_mod_equivalence((a * hi) as int, (a * lo) as int, p as int);
        assert(a * hi - a * lo == a * d) by (nonlinear_arith)
            requires
                d == hi - lo,
        ;
        lemma_euclid(a, d, p);
        lemma_small_mod(d, p);
    }
}

/// Multiplying `1, ..., p - 1` by `a` and reducing modulo the prime `p`
/// gives the same numbers in another order.
proof fn lemma_multiples_permute(a: nat, p: nat)
    requires
        is_prime(p),
        a % p != 0,
    ensures
        multiples(a, p, (p - 1) as nat).to_multiset() == numbers((p - 1) as nat).to_multiset(),
{
    let n = (p - 1) as nat;
    let s = multiples(a, p, n);
    let t = numbers(n);
    let range = set_int_range(1, p as int);
    assert forall|i: int| 0 <= i < n implies 1 <= #[trigger] s[i] < p by {
        lemma_multiples_differ(a, p, (i + 1) as nat, (i + 1) as nat);
        lemma_mod_bound(a * (i + 1), p as int);
    }
    assert forall|i: int, j: int| 0 <= i < n && 0 <= j < n && i != j implies s[i] != s[j] by {
        lemma_multiples_differ(a, p, (i + 1) as nat, (j + 1) as nat);
    }
    assert(s.no_duplicates());
    assert(t.no_duplicates());
    s.unique_seq_to_set();
    seq_to_set_is_finite(s);
    lemma_int_range(1, p as int);
    assert(s.to_set().subset_of(range)) by {
        assert forall|x: int| s.to_set().contains(x) implies range.contains(x) by {
            let i = choose|i: int| 0 <= i < s.len() && s[i] == x;
            assert(1 <= s[i] < p);
        }
    }
    lemma_subset_equality(s.to_set(), range);
    s.lemma_multiset_has_no_duplicates();
    t.lemma_multiset_has_no_duplicates();
    assert forall|x: int| s.to_multiset().count(x) == t.to_multiset().count(x) by {
        to_multiset_contains(s, x);
        to_multiset_contains(t, x);
        if 1 <= x < p {
            assert(range.contains(x));
            assert(s.to_set().contains(x));
            assert(s.contains(x));
            assert(t[x - 1] == x);
            assert(t.contains(x));
        } else {
            if s.contains(x) {
                assert(s.to_set().contains(x));
                assert(range.contains(x));
            }
            if t.contains(x) {
                let i = choose|i: int| 0 <= i < t.len() && t[i] == x;
                assert(t[i] == i + 1);
            }
        }
    }
    assert(s.to_multiset() =~= t.to_multiset());
}

/// Fermat's little theorem: `a^(p-1) mod p = 1` for a prime `p` that does
/// not divide `a`.
pub proof fn lemma_fermat(a: nat, p: nat)
    requires
        is_prime(p),
        a % p != 0,
    ensures
        mod_exp(a, (p - 1) as nat, p) == 1,
        is_group(a, p),
{
    let n = (p - 1) as nat;
    let pi = p as int;
    let fact = product(numbers(n));
    let power = pow(a as int, n);
    lemma_multiples_permute(a, p);
    assert(commutative_foldl(times())) by {
        assert forall|x: int, y: int, v: int| #[trigger]
            times()(times()(v, x), y) == times()(times()(v, y), x) by {
            assert((v * x) * y == (v * y) * x) by (nonlinear_arith);
        }
    }
    lemma_fold_left_permutation(multiples(a, p, n), numbers(n), times(), 1int);
    lemma_product_of_multiples(a, p, n);
    lemma_product_of_numbers(p, n);
    assert(fact % pi == (power * fact) % pi);
    assert(a > 0) by {
        if a == 0 {
            lemma_small_mod(0, p);
        }
    }
    lemma_pow_positive(a as int, n);
    lemma_mod_equivalence(power * fact, fact, pi);
    let rest = (power - 1) as nat;
    assert(power * fact - fact == fact * rest) by (nonlinear_arith)
        requires
            rest == power - 1,
    ;
    lemma_euclid(fact as nat, rest, p);
    assert(rest % p == 0);
    lemma_mod_equivalence(power, 1, pi);
    lemma_small_mod(1, p);
}

} // verus!
