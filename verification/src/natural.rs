//! Arbitrary-size natural numbers as big-endian byte strings.
//!
//! A [`Natural`] is the plain representation of every large integer the
//! protocol handles: moduli, generators, exponents, commitments, responses.
//! Its mathematical model is the `nat` it denotes; leading zero bytes are
//! allowed and do not change the value.

use vstd::arithmetic::power::*;
use vstd::arithmetic::power2::{lemma2_to64, lemma_pow2, pow2};
use vstd::prelude::*;

verus! {

/// The number denoted by a big-endian byte string.
pub open spec fn be_value(s: Seq<u8>) -> nat
    decreases s.len(),
{
    if s.len() == 0 {
        0
    } else {
        be_value(s.drop_last()) * 256 + s.last() as nat
    }
}

/// `256^n`, the weight of the byte that has `n` bytes after it.
pub open spec fn weight(n: nat) -> nat {
    pow(256, n) as nat
}

/// Weights are positive.
pub proof fn lemma_weight_positive(n: nat)
    ensures
        weight(n) >= 1,
        pow(256, n) == weight(n) as int,
{
    lemma_pow_positive(256, n);
}

/// One more byte multiplies the weight by 256.
pub proof fn lemma_weight_step(n: nat)
    ensures
        weight(n + 1) == weight(n) * 256,
{
    lemma_weight_positive(n);
    lemma_weight_positive(n + 1);
    lemma_pow_adds(256, n, 1);
    lemma_pow1(256);
}

/// Weights grow with the number of bytes.
pub proof fn lemma_weight_monotonic(m: nat, n: nat)
    requires
        m <= n,
    ensures
        weight(m) <= weight(n),
{
    lemma_weight_positive(m);
    lemma_weight_positive(n);
    lemma_pow_increases(256, m, n);
}

/// `256^n` is `2^(8n)`.
pub proof fn lemma_weight_is_pow2(n: nat)
    ensures
        weight(n) == pow2(8 * n),
{
    lemma_weight_positive(n);
    lemma_pow2(8 * n);
    lemma_pow2(8);
    lemma2_to64();
    lemma_pow_multiplies(2, 8, n);
}

/// Appending a byte multiplies by 256 and adds the byte.
pub proof fn lemma_be_value_push(s: Seq<u8>, b: u8)
    ensures
        be_value(s.push(b)) == be_value(s) * 256 + b as nat,
{
    assert(s.push(b).drop_last() =~= s);
}

/// A byte string of length `n` denotes a number below `256^n`.
pub proof fn lemma_be_value_bound(s: Seq<u8>)
    ensures
        be_value(s) < weight(s.len()),
    decreases s.len(),
{
    if s.len() == 0 {
        lemma_pow0(256);
    } else {
        lemma_be_value_bound(s.drop_last());
        lemma_weight_step(s.drop_last().len());
    }
}

/// The value of a concatenation.
pub proof fn lemma_be_value_concat(a: Seq<u8>, b: Seq<u8>)
    ensures
        be_value(a + b) == be_value(a) * weight(b.len()) + be_value(b),
    decreases b.len(),
{
    if b.len() == 0 {
        assert(a + b =~= a);
        lemma_pow0(256);
        let va = be_value(a) as int;
        let w0 = weight(0) as int;
        assert(va * w0 == va) by (nonlinear_arith)
            requires
                w0 == 1,
        ;
    } else {
        let b0 = b.drop_last();
        assert((a + b).drop_last() =~= a + b0);
        lemma_be_value_concat(a, b0);
        lemma_weight_step(b0.len());
        let va = be_value(a) as int;
        let w = weight(b0.len()) as int;
        let vb0 = be_value(b0) as int;
        let wb = weight(b.len()) as int;
        assert((va * w + vb0) * 256 == va * wb + vb0 * 256) by (nonlinear_arith)
            requires
                wb == w * 256,
        ;
        assert((a + b).last() == b.last());
    }
}

/// Leading zero bytes do not change the value.
pub proof fn lemma_be_value_skip_zeros(s: Seq<u8>, k: int)
    requires
        0 <= k <= s.len(),
        forall|i: int| 0 <= i < k ==> s[i] == 0,
    ensures
        be_value(s) == be_value(s.skip(k)),
    decreases s.len(),
{
    if s.len() == 0 {
        assert(s.skip(k) =~= s);
    } else if k == s.len() {
        lemma_be_value_skip_zeros(s.drop_last(), k - 1);
        assert(s.drop_last().skip(k - 1) =~= Seq::<u8>::empty());
        assert(s.skip(k) =~= Seq::<u8>::empty());
    } else {
        lemma_be_value_skip_zeros(s.drop_last(), k);
        assert(s.skip(k).drop_last() =~= s.drop_last().skip(k));
    }
}

/// A byte string whose first byte is not zero denotes at least `256^(n-1)`.
pub proof fn lemma_be_value_lower_bound(s: Seq<u8>)
    requires
        s.len() > 0,
        s[0] != 0,
    ensures
        be_value(s) >= weight((s.len() - 1) as nat),
{
    let head = s.take(1);
    let tail = s.skip(1);
    assert(s =~= head + tail);
    lemma_be_value_concat(head, tail);
    assert(head.drop_last() =~= Seq::<u8>::empty());
    assert(be_value(Seq::<u8>::empty()) == 0);
    assert(be_value(head) == s[0] as nat);
    let w = weight(tail.len()) as int;
    let h = be_value(head) as int;
    assert(h * w >= w) by (nonlinear_arith)
        requires
            h >= 1,
            w >= 0,
    ;
}

/// Two byte strings of one length that agree up to position `k` are ordered
/// as their bytes at `k` are.
pub proof fn lemma_be_value_first_difference(a: Seq<u8>, b: Seq<u8>, k: int)
    requires
        a.len() == b.len(),
        0 <= k < a.len(),
        a.take(k) == b.take(k),
        a[k] < b[k],
    ensures
        be_value(a) < be_value(b),
{
    let pa = a.take(k + 1);
    let pb = b.take(k + 1);
    let ra = a.skip(k + 1);
    let rb = b.skip(k + 1);
    assert(a =~= pa + ra);
    assert(b =~= pb + rb);
    lemma_be_value_concat(pa, ra);
    lemma_be_value_concat(pb, rb);
    assert(pa.drop_last() =~= a.take(k));
    assert(pb.drop_last() =~= b.take(k));
    lemma_be_value_bound(ra);
    lemma_be_value_bound(rb);
    let w = weight(ra.len()) as int;
    let va = be_value(pa) as int;
    let vb = be_value(pb) as int;
    assert(va * w + w <= vb * w) by (nonlinear_arith)
        requires
            va + 1 <= vb,
            w >= 0,
    ;
}

/// The longest byte string that every big-number backend accepts.
pub const MAX_BYTES: usize = 0x7fff_ffff;

/// How one number stands to another.
#[derive(Clone, Copy, Debug, PartialEq, Eq, Structural)]
pub enum Order {
    Less,
    Equal,
    Greater,
}

/// How `a` stands to `b`.
pub open spec fn order_of(a: nat, b: nat) -> Order {
    if a < b {
        Order::Less
    } else if a == b {
        Order::Equal
    } else {
        Order::Greater
    }
}

/// A natural number of any size, held as big-endian bytes.
#[derive(Debug)]
pub struct Natural {
    pub bytes: Vec<u8>,
}

impl Clone for Natural {
    fn clone(&self) -> (n: Self)
        ensures
            n.bytes@ == self.bytes@,
            n@ == self@,
    {
        Natural { bytes: self.bytes.clone() }
    }
}

impl PartialEq for Natural {
    fn eq(&self, other: &Natural) -> (b: bool) {
        self.equals(other)
    }
}

impl vstd::std_specs::cmp::PartialEqSpecImpl for Natural {
    open spec fn obeys_eq_spec() -> bool {
        true
    }

    open spec fn eq_spec(&self, other: &Natural) -> bool {
        self@ == other@
    }
}

impl View for Natural {
    type V = nat;

    open spec fn view(&self) -> nat {
        be_value(self.bytes@)
    }
}

impl Natural {
    /// The number whose big-endian bytes are `bytes`.
    pub fn from_bytes_be(bytes: Vec<u8>) -> (n: Natural)
        ensures
            n@ == be_value(bytes@),
            n.bytes@ == bytes@,
    {
        Natural { bytes }
    }

    /// The number `v`.
    pub fn from_u64(v: u64) -> (n: Natural)
        ensures
            n@ == v,
            n.bytes@.len() == 8,
    {
        let t0: u64 = (v >> 56) & 0xff;
        let t1: u64 = (v >> 48) & 0xff;
        let t2: u64 = (v >> 40) & 0xff;
        let t3: u64 = (v >> 32) & 0xff;
        let t4: u64 = (v >> 24) & 0xff;
        let t5: u64 = (v >> 16) & 0xff;
        let t6: u64 = (v >> 8) & 0xff;
        let t7: u64 = v & 0xff;
        assert(t0 < 256 && t1 < 256 && t2 < 256 && t3 < 256 && t4 < 256 && t5 < 256 && t6 < 256
            && t7 < 256 && v == t0 * 0x100_0000_0000_0000 + t1 * 0x1_0000_0000_0000 + t2
            * 0x100_0000_0000 + t3 * 0x1_0000_0000 + t4 * 0x100_0000 + t5 * 0x1_0000 + t6 * 0x100
            + t7) by (bit_vector)
            requires
                t0 == (v >> 56) & 0xff,
                t1 == (v >> 48) & 0xff,
                t2 == (v >> 40) & 0xff,
                t3 == (v >> 32) & 0xff,
                t4 == (v >> 24) & 0xff,
                t5 == (v >> 16) & 0xff,
                t6 == (v >> 8) & 0xff,
                t7 == v & 0xff,
        ;
        let mut bytes: Vec<u8> = Vec::new();
        bytes.push(t0 as u8);
        bytes.push(t1 as u8);
        bytes.push(t2 as u8);
        bytes.push(t3 as u8);
        bytes.push(t4 as u8);
        bytes.push(t5 as u8);
        bytes.push(t6 as u8);
        bytes.push(t7 as u8);
        proof {
            let e = Seq::<u8>::empty();
            lemma_be_value_push(e, t0 as u8);
            lemma_be_value_push(e.push(t0 as u8), t1 as u8);
            lemma_be_value_push(e.push(t0 as u8).push(t1 as u8), t2 as u8);
            lemma_be_value_push(e.push(t0 as u8).push(t1 as u8).push(t2 as u8), t3 as u8);
            lemma_be_value_push(
                e.push(t0 as u8).push(t1 as u8).push(t2 as u8).push(t3 as u8),
                t4 as u8,
            );
            lemma_be_value_push(
                e.push(t0 as u8).push(t1 as u8).push(t2 as u8).push(t3 as u8).push(t4 as u8),
                t5 as u8,
            );
            lemma_be_value_push(
                e.push(t0 as u8).push(t1 as u8).push(t2 as u8).push(t3 as u8).push(t4 as u8).push(
                    t5 as u8,
                ),
                t6 as u8,
            );
            lemma_be_value_push(
                e.push(t0 as u8).push(t1 as u8).push(t2 as u8).push(t3 as u8).push(t4 as u8).push(
                    t5 as u8,
                ).push(t6 as u8),
                t7 as u8,
            );
        }
        Natural { bytes }
    }

    /// The number of zero bytes at the front.
    pub fn leading_zeros(&self) -> (k: usize)
        ensures
            k <= self.bytes@.len(),
            forall|i: int| 0 <= i < k ==> self.bytes@[i] == 0,
            k < self.bytes@.len() ==> self.bytes@[k as int] != 0,
    {
        let mut k: usize = 0;
        while k < self.bytes.len() && self.bytes[k] == 0
            invariant
                k <= self.bytes@.len(),
                forall|i: int| 0 <= i < k ==> self.bytes@[i] == 0,
            decreases self.bytes@.len() - k,
        {
            k = k + 1;
        }
        k
    }

    /// Whether the number is zero.
    pub fn is_zero(&self) -> (b: bool)
        ensures
            b == (self@ == 0),
    {
        let k = self.leading_zeros();
        proof {
            let s = self.bytes@;
            lemma_be_value_skip_zeros(s, k as int);
            if k < s.len() {
                lemma_be_value_lower_bound(s.skip(k as int));
                lemma_weight_positive((s.len() - k - 1) as nat);
            }
        }
        k == self.bytes.len()
    }

    /// Compares two numbers by value.
    pub fn compare(&self, other: &Natural) -> (r: Order)
        ensures
            r == order_of(self@, other@),
    {
        let ka = self.leading_zeros();
        let kb = other.leading_zeros();
        let la = self.bytes.len() - ka;
        let lb = other.bytes.len() - kb;
        let ghost a = self.bytes@.skip(ka as int);
        let ghost b = other.bytes@.skip(kb as int);
        proof {
            lemma_be_value_skip_zeros(self.bytes@, ka as int);
            lemma_be_value_skip_zeros(other.bytes@, kb as int);
            lemma_be_value_bound(a);
            lemma_be_value_bound(b);
        }
        if la < lb {
            proof {
                lemma_be_value_lower_bound(b);
                lemma_weight_monotonic(la as nat, (lb - 1) as nat);
            }
            return Order::Less;
        }
        if la > lb {
            proof {
                lemma_be_value_lower_bound(a);
                lemma_weight_monotonic(lb as nat, (la - 1) as nat);
            }
            return Order::Greater;
        }
        let mut i: usize = 0;
        while i < la
            invariant
                la == lb,
                i <= la,
                ka <= self.bytes@.len(),
                kb <= other.bytes@.len(),
                self@ == be_value(a),
                other@ == be_value(b),
                la == self.bytes.len() - ka,
                lb == other.bytes.len() - kb,
                a == self.bytes@.skip(ka as int),
                b == other.bytes@.skip(kb as int),
                a.take(i as int) == b.take(i as int),
            decreases la - i,
        {
            let x = self.bytes[ka + i];
            let y = other.bytes[kb + i];
            if x < y {
                proof {
                    lemma_be_value_first_difference(a, b, i as int);
                }
                return Order::Less;
            }
            if x > y {
                proof {
                    lemma_be_value_first_difference(b, a, i as int);
                }
                return Order::Greater;
            }
            proof {
                assert(a.take(i + 1) =~= a.take(i as int).push(a[i as int]));
                assert(b.take(i + 1) =~= b.take(i as int).push(b[i as int]));
            }
            i = i + 1;
        }
        proof {
            assert(a.take(la as int) =~= a);
            assert(b.take(lb as int) =~= b);
        }
        Order::Equal
    }

    /// Whether `self < other` by value.
    pub fn lt(&self, other: &Natural) -> (b: bool)
        ensures
            b == (self@ < other@),
    {
        matches!(self.compare(other), Order::Less)
    }

    /// Whether `self <= other` by value.
    pub fn le(&self, other: &Natural) -> (b: bool)
        ensures
            b == (self@ <= other@),
    {
        !matches!(self.compare(other), Order::Greater)
    }

    /// Whether the two numbers are equal by value.
    pub fn equals(&self, other: &Natural) -> (b: bool)
        ensures
            b == (self@ == other@),
    {
        matches!(self.compare(other), Order::Equal)
    }

    /// Whether the number can be written in `n` bytes: it is below `256^n`.
    pub fn fits_in(&self, n: usize) -> (b: bool)
        ensures
            b == (self@ < weight(n as nat)),
    {
        let k = self.leading_zeros();
        let len = self.bytes.len() - k;
        proof {
            let digits = self.bytes@.skip(k as int);
            lemma_be_value_skip_zeros(self.bytes@, k as int);
            lemma_be_value_bound(digits);
            if len <= n {
                lemma_weight_monotonic(len as nat, n as nat);
            } else {
                lemma_be_value_lower_bound(digits);
                lemma_weight_monotonic(n as nat, (len - 1) as nat);
            }
        }
        len <= n
    }

    /// Whether the byte string is short enough for every big-number backend.
    pub fn fits(&self) -> (b: bool)
        ensures
            b == (self.bytes@.len() <= MAX_BYTES),
    {
        self.bytes.len() <= MAX_BYTES
    }
}

} // verus!
