//! Hexadecimal text, the form in which large integers cross the boundary of
//! the library: one or more hexadecimal digits, no sign and no prefix.

use crate::natural::{be_value, lemma_be_value_push, lemma_be_value_skip_zeros, Natural};
use vstd::prelude::*;
use vstd::string::*;
use vstd::utf8::is_ascii_chars;

verus! {

/// Whether `c` is one of `0-9`, `a-f`, `A-F`.
pub open spec fn is_hex_digit(c: char) -> bool {
    ('0' <= c <= '9') || ('a' <= c <= 'f') || ('A' <= c <= 'F')
}

/// The number that a hexadecimal digit stands for.
pub open spec fn hex_digit_value(c: char) -> nat {
    if '0' <= c <= '9' {
        (c as u32 - '0' as u32) as nat
    } else if 'a' <= c <= 'f' {
        (c as u32 - 'a' as u32 + 10) as nat
    } else if 'A' <= c <= 'F' {
        (c as u32 - 'A' as u32 + 10) as nat
    } else {
        0
    }
}

/// Whether `s` is hexadecimal text: not empty, and hexadecimal digits only.
pub open spec fn is_hex_text(s: Seq<char>) -> bool {
    s.len() > 0 && forall|i: int| 0 <= i < s.len() ==> is_hex_digit(#[trigger] s[i])
}

/// The number that a sequence of hexadecimal digits denotes, most
/// significant digit first.
pub open spec fn hex_value(s: Seq<char>) -> nat
    decreases s.len(),
{
    if s.len() == 0 {
        0
    } else {
        hex_value(s.drop_last()) * 16 + hex_digit_value(s.last())
    }
}

/// The lower-case digit for `d < 16`.
pub open spec fn hex_char(d: nat) -> char {
    if d < 10 {
        ((d + 48) as u8) as char
    } else {
        ((d + 87) as u8) as char
    }
}

/// Whether `s` is the text that [`to_hex`] writes for some number: lower-case
/// digits, and no leading zero but in `"0"` itself.
pub open spec fn is_canonical_hex(s: Seq<char>) -> bool {
    &&& is_hex_text(s)
    &&& forall|i: int| 0 <= i < s.len() ==> !('A' <= #[trigger] s[i] <= 'F')
    &&& (s.len() == 1 || s[0] != '0')
}

/// Appending a digit multiplies by 16 and adds the digit.
pub proof fn lemma_hex_value_push(s: Seq<char>, c: char)
    ensures
        hex_value(s.push(c)) == hex_value(s) * 16 + hex_digit_value(c),
{
    assert(s.push(c).drop_last() =~= s);
}

/// The digit for `d` is a lower-case hexadecimal digit that stands for `d`.
pub proof fn lemma_hex_char(d: nat)
    requires
        d < 16,
    ensures
        is_hex_digit(hex_char(d)),
        hex_digit_value(hex_char(d)) == d,
        !('A' <= hex_char(d) <= 'F'),
        hex_char(d) == '0' <==> d == 0,
{
}

/// Reads one hexadecimal digit.
fn digit_of(b: u8) -> (r: Option<u8>)
    ensures
        r is Some <==> is_hex_digit(b as char),
        r matches Some(d) ==> d < 16 && d == hex_digit_value(b as char),
{
    if b >= 0x30 && b <= 0x39 {
        Some(b - 0x30)
    } else if b >= 0x61 && b <= 0x66 {
        Some(b - 0x61 + 10)
    } else if b >= 0x41 && b <= 0x46 {
        Some(b - 0x41 + 10)
    } else {
        None
    }
}

/// The one-digit text for `d`.
fn digit_str(d: u8) -> (t: &'static str)
    requires
        d < 16,
    ensures
        t@ == Seq::<char>::empty().push(hex_char(d as nat)),
{
    let t = match d {
        0 => "0",
        1 => "1",
        2 => "2",
        3 => "3",
        4 => "4",
        5 => "5",
        6 => "6",
        7 => "7",
        8 => "8",
        9 => "9",
        10 => "a",
        11 => "b",
        12 => "c",
        13 => "d",
        14 => "e",
        _ => "f",
    };
    proof {
        reveal_strlit("0");
        reveal_strlit("1");
        reveal_strlit("2");
        reveal_strlit("3");
        reveal_strlit("4");
        reveal_strlit("5");
        reveal_strlit("6");
        reveal_strlit("7");
        reveal_strlit("8");
        reveal_strlit("9");
        reveal_strlit("a");
        reveal_strlit("b");
        reveal_strlit("c");
        reveal_strlit("d");
        reveal_strlit("e");
        reveal_strlit("f");
        assert(t@ =~= Seq::<char>::empty().push(hex_char(d as nat)));
    }
    t
}

/// Appends the digit for `d` to `out`.
fn push_digit(out: &mut String, d: u8)
    requires
        d < 16,
    ensures
        final(out)@ == old(out)@.push(hex_char(d as nat)),
{
    out.append(digit_str(d));
    proof {
        assert(old(out)@ + Seq::<char>::empty().push(hex_char(d as nat)) =~= old(out)@.push(
            hex_char(d as nat),
        ));
    }
}

impl Natural {
    /// Reads hexadecimal text. Text that is empty or holds anything but
    /// hexadecimal digits gives `None`.
    pub fn from_hex(s: &str) -> (r: Option<Natural>)
        ensures
            r is Some <==> is_hex_text(s@),
            r matches Some(n) ==> n@ == hex_value(s@) && n.bytes@.len() == (s@.len() + 1) / 2,
    {
        if !s.is_ascii() {
            return None;
        }
        proof {
            is_ascii_spec_bytes(s);
        }
        let bytes = s.as_bytes();
        let n = bytes.len();
        if n == 0 {
            return None;
        }
        let mut out: Vec<u8> = Vec::new();
        let mut i: usize = 0;
        if n % 2 == 1 {
            match digit_of(bytes[0]) {
                None => {
                    return None;
                },
                Some(d) => {
                    proof {
                        lemma_be_value_push(out@, d);
                        lemma_hex_value_push(s@.take(0), s@[0]);
                        assert(s@.take(1) =~= s@.take(0).push(s@[0]));
                    }
                    out.push(d);
                    i = 1;
                },
            }
        }
        while i < n
            invariant
                i <= n,
                (n - i) % 2 == 0,
                n == s@.len(),
                bytes@.len() == n,
                is_ascii_chars(s@),
                forall|j: int| 0 <= j < n ==> bytes@[j] == (#[trigger] s@[j]) as u8,
                forall|j: int| 0 <= j < i ==> is_hex_digit(#[trigger] s@[j]),
                be_value(out@) == hex_value(s@.take(i as int)),
                out@.len() == (i + 1) / 2,
            decreases n - i,
        {
            let hi = digit_of(bytes[i]);
            let lo = digit_of(bytes[i + 1]);
            match (hi, lo) {
                (Some(h), Some(l)) => {
                    proof {
                        let t = s@.take(i as int);
                        lemma_hex_value_push(t, s@[i as int]);
                        lemma_hex_value_push(t.push(s@[i as int]), s@[i + 1]);
                        assert(s@.take(i + 2) =~= t.push(s@[i as int]).push(s@[i + 1]));
                        lemma_be_value_push(out@, (h * 16 + l) as u8);
                    }
                    out.push(h * 16 + l);
                    i = i + 2;
                },
                _ => {
                    proof {
                        assert(bytes@[i as int] as char == s@[i as int]);
                        assert(bytes@[i + 1] as char == s@[i + 1]);
                        assert(!is_hex_digit(s@[i as int]) || !is_hex_digit(s@[i + 1]));
                    }
                    return None;
                },
            }
        }
        proof {
            assert(s@.take(n as int) =~= s@);
        }
        Some(Natural { bytes: out })
    }

    /// Writes the number as hexadecimal text: lower-case digits, most
    /// significant first, without leading zeros; zero is `"0"`.
    pub fn to_hex(&self) -> (r: String)
        ensures
            is_canonical_hex(r@),
            hex_value(r@) == self@,
    {
        let k = self.leading_zeros();
        let n = self.bytes.len();
        let mut out = String::new();
        proof {
            lemma_be_value_skip_zeros(self.bytes@, k as int);
        }
        if k == n {
            push_digit(&mut out, 0);
            proof {
                lemma_hex_char(0);
                lemma_hex_value_push(Seq::<char>::empty(), hex_char(0));
                assert(self.bytes@.skip(k as int) =~= Seq::<u8>::empty());
            }
            return out;
        }
        let first = self.bytes[k];
        let hi = first / 16;
        let lo = first % 16;
        proof {
            lemma_hex_char(hi as nat);
            lemma_hex_char(lo as nat);
            lemma_hex_value_push(Seq::<char>::empty(), hex_char(hi as nat));
            lemma_hex_value_push(Seq::<char>::empty(), hex_char(lo as nat));
            lemma_hex_value_push(Seq::<char>::empty().push(hex_char(hi as nat)), hex_char(lo as nat));
            lemma_be_value_push(Seq::<u8>::empty(), first);
            assert(self.bytes@.subrange(k as int, k + 1) =~= Seq::<u8>::empty().push(first));
        }
        if hi != 0 {
            push_digit(&mut out, hi);
        }
        push_digit(&mut out, lo);
        proof {
            assert(hex_value(Seq::<char>::empty()) == 0);
            assert(be_value(Seq::<u8>::empty()) == 0);
            assert(first == hi * 16 + lo);
        }
        let mut i: usize = k + 1;
        while i < n
            invariant
                k < i <= n,
                n == self.bytes.len(),
                out@.len() >= 1,
                out@[0] != '0',
                forall|j: int| 0 <= j < out@.len() ==> is_hex_digit(#[trigger] out@[j]),
                forall|j: int| 0 <= j < out@.len() ==> !('A' <= #[trigger] out@[j] <= 'F'),
                hex_value(out@) == be_value(self.bytes@.subrange(k as int, i as int)),
            decreases n - i,
        {
            let b = self.bytes[i];
            let h = b / 16;
            let l = b % 16;
            proof {
                assert(b == h * 16 + l);
                lemma_hex_char(h as nat);
                lemma_hex_char(l as nat);
                lemma_hex_value_push(out@, hex_char(h as nat));
                lemma_hex_value_push(out@.push(hex_char(h as nat)), hex_char(l as nat));
                lemma_be_value_push(self.bytes@.subrange(k as int, i as int), b);
                assert(self.bytes@.subrange(k as int, i + 1) =~= self.bytes@.subrange(
                    k as int,
                    i as int,
                ).push(b));
            }
            push_digit(&mut out, h);
            push_digit(&mut out, l);
            i = i + 1;
        }
        proof {
            assert(self.bytes@.subrange(k as int, n as int) =~= self.bytes@.skip(k as int));
        }
        out
    }
}

} // verus!
