//! Reading a generator seed out of a randomness service's plain-text answer.

use vstd::prelude::*;

use crate::notation::{decimal_value, is_digit, read_number};
use crate::text::{char_is_whitespace, chars_of, is_whitespace};

verus! {

/// `s` without whitespace at either end.
pub open spec fn trimmed(s: Seq<char>) -> Seq<char>
    decreases s.len(),
{
    if s.len() > 0 && is_whitespace(s[0]) {
        trimmed(s.drop_first())
    } else if s.len() > 0 && is_whitespace(s.last()) {
        trimmed(s.drop_last())
    } else {
        s
    }
}

/// The unsigned number that text denotes: an optional `+`, then one or more
/// decimal digits, the value fitting in 64 bits.
pub open spec fn unsigned_of(t: Seq<char>) -> Option<u64> {
    let d = if t.len() > 0 && t[0] == '+' {
        t.drop_first()
    } else {
        t
    };
    if d.len() > 0 && all_digits(d) && decimal_value(d) <= u64::MAX {
        Some(decimal_value(d) as u64)
    } else {
        None
    }
}

pub open spec fn all_digits(d: Seq<char>) -> bool {
    forall|i: int| 0 <= i < d.len() ==> is_digit(#[trigger] d[i])
}

proof fn lemma_trim_front(s: Seq<char>, a: int)
    requires
        0 <= a <= s.len(),
        forall|i: int| 0 <= i < a ==> is_whitespace(#[trigger] s[i]),
    ensures
        trimmed(s) == trimmed(s.skip(a)),
    decreases a,
{
    if a > 0 {
        lemma_trim_front(s.drop_first(), a - 1);
        assert(s.drop_first().skip(a - 1) =~= s.skip(a));
    } else {
        assert(s.skip(0) =~= s);
    }
}

proof fn lemma_trim_back(t: Seq<char>, b: int)
    requires
        0 <= b <= t.len(),
        t.len() == 0 || !is_whitespace(t[0]),
        forall|i: int| b <= i < t.len() ==> is_whitespace(#[trigger] t[i]),
    ensures
        trimmed(t) == trimmed(t.take(b)),
    decreases t.len() - b,
{
    if b < t.len() {
        assert(is_whitespace(t[t.len() - 1]));
        assert(t.len() >= 2) by {
            if t.len() == 1 {
                assert(t[0] == t[t.len() - 1]);
            }
        }
        assert(t.drop_last()[0] == t[0]);
        assert(t.drop_last().take(b) =~= t.take(b));
        lemma_trim_back(t.drop_last(), b);
    } else {
        assert(t.take(b) =~= t);
    }
}

/// The seed in a randomness service's answer: the answer trimmed of whitespace,
/// read as an unsigned 64-bit number; `None` when it is not one.
pub fn parse_seed(answer: &str) -> (r: Option<u64>)
    ensures
        r == unsigned_of(trimmed(answer@)),
{
    let cs = chars_of(answer);
    let ghost s = cs@;
    let n = cs.len();
    let mut a: usize = 0;
    while a < n && char_is_whitespace(cs[a])
        invariant
            a <= n == s.len(),
            s == cs@,
            forall|i: int| 0 <= i < a ==> is_whitespace(#[trigger] s[i]),
        decreases n - a,
    {
        a += 1;
    }
    let mut b: usize = n;
    while b > a && char_is_whitespace(cs[b - 1])
        invariant
            a <= b <= n == s.len(),
            s == cs@,
            forall|i: int| b <= i < n ==> is_whitespace(#[trigger] s[i]),
        decreases b - a,
    {
        b -= 1;
    }
    let ghost t = s.skip(a as int);
    proof {
        lemma_trim_front(s, a as int);
        assert forall|i: int| b - a <= i < t.len() implies is_whitespace(#[trigger] t[i]) by {
            assert(t[i] == s[a + i]);
        }
        lemma_trim_back(t, b - a);
        let u = t.take(b - a);
        assert(u =~= s.subrange(a as int, b as int));
        if u.len() > 0 {
            assert(u[0] == s[a as int]);
            assert(u.last() == s[b - 1]);
        }
        assert(trimmed(u) == u);
    }
    let ghost u = s.subrange(a as int, b as int);
    let mut from = a;
    if from < b && cs[from] == '+' {
        from += 1;
    }
    let ghost d = s.subrange(from as int, b as int);
    assert(d =~= (if u.len() > 0 && u[0] == '+' {
        u.drop_first()
    } else {
        u
    }));
    if from == b {
        return None;
    }
    let mut j = from;
    while j < b
        invariant
            from <= j <= b <= n == s.len(),
            s == cs@,
            d == s.subrange(from as int, b as int),
            answer@ == s,
            trimmed(s) == u,
            d == (if u.len() > 0 && u[0] == '+' {
                u.drop_first()
            } else {
                u
            }),
            forall|i: int| from <= i < j ==> is_digit(#[trigger] s[i]),
        decreases b - j,
    {
        if !('0' <= cs[j] && cs[j] <= '9') {
            assert(!is_digit(d[j - from]));
            assert(!all_digits(d));
            return None;
        }
        j += 1;
    }
    assert forall|i: int| 0 <= i < d.len() implies is_digit(#[trigger] d[i]) by {
        assert(d[i] == s[from + i]);
    }
    read_number(&cs, from, b)
}

} // verus!
