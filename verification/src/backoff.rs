//! The wait that a rate-limited reply asks for: the value of its
//! `Retry-After` header, read as a whole number of seconds.

use vstd::prelude::*;

verus! {

/// An ASCII decimal digit.
pub open spec fn is_digit(b: u8) -> bool {
    0x30 <= b <= 0x39
}

/// Every byte of `s` is a decimal digit.
pub open spec fn all_digits(s: Seq<u8>) -> bool {
    forall|i: int| 0 <= i < s.len() ==> is_digit(#[trigger] s[i])
}

/// The number that the digits of `s` write in base ten.
pub open spec fn decimal_value(s: Seq<u8>) -> nat
    decreases s.len(),
{
    if s.len() == 0 {
        0
    } else {
        decimal_value(s.drop_last()) * 10 + (s.last() - 0x30) as nat
    }
}

/// The digits of a header value: the value itself, without one leading `+`
/// where it has one.
pub open spec fn digits_of(s: Seq<u8>) -> Seq<u8> {
    if s.len() > 0 && s[0] == 0x2b {
        s.subrange(1, s.len() as int)
    } else {
        s
    }
}

/// The seconds that a header value stands for: an optional `+`, then one or
/// more decimal digits whose number fits in 64 bits. Anything else, the empty
/// value and a lone `+` included, stands for nothing.
pub open spec fn seconds_of(s: Seq<u8>) -> Option<u64> {
    let d = digits_of(s);
    if d.len() > 0 && all_digits(d) && decimal_value(d) <= u64::MAX {
        Some(decimal_value(d) as u64)
    } else {
        None
    }
}

/// A longer run of digits never writes a smaller number than its prefix.
pub proof fn lemma_prefix_value(s: Seq<u8>, n: int)
    requires
        0 <= n <= s.len(),
        all_digits(s),
    ensures
        decimal_value(s.subrange(0, n)) <= decimal_value(s),
    decreases s.len() - n,
{
    if n == s.len() {
        assert(s.subrange(0, n) =~= s);
    } else {
        let t = s.subrange(0, n + 1);
        assert(t.drop_last() =~= s.subrange(0, n));
        assert(is_digit(s[n]));
        assert(t.last() == s[n]);
        lemma_prefix_value(s, n + 1);
    }
}

/// Reads a `Retry-After` header value as whole seconds.
pub fn parse_seconds(value: &Vec<u8>) -> (seconds: Option<u64>)
    ensures
        seconds == seconds_of(value@),
{
    let n: usize = value.len();
    let start: usize = if n > 0 && value[0] == 0x2b { 1 } else { 0 };
    let ghost d = digits_of(value@);
    assert(d =~= value@.subrange(start as int, n as int));
    if start == n {
        return None;
    }
    let mut total: u64 = 0;
    let mut i: usize = start;
    while i < n
        invariant
            start <= i <= n,
            n == value.len(),
            d == value@.subrange(start as int, n as int),
            d == digits_of(value@),
            all_digits(d.subrange(0, i - start)),
            total == decimal_value(d.subrange(0, i - start)),
        decreases n - i,
    {
        let b: u8 = value[i];
        let ghost head = d.subrange(0, i - start);
        let ghost next = d.subrange(0, i - start + 1);
        proof {
            assert(d[i - start] == b);
            assert(next.drop_last() =~= head);
            assert(next.last() == b);
        }
        if b < 0x30 || b > 0x39 {
            assert(!is_digit(d[i - start]));
            return None;
        }
        let digit: u64 = (b - 0x30) as u64;
        proof {
            assert forall|k: int| 0 <= k < next.len() implies is_digit(#[trigger] next[k]) by {
                if k < head.len() {
                    assert(next[k] == head[k]);
                }
            }
        }
        let fits: bool = total <= (u64::MAX - digit) / 10;
        if !fits {
            proof {
                assert(decimal_value(next) == total * 10 + digit);
                assert(decimal_value(next) > u64::MAX);
                if all_digits(d) {
                    lemma_prefix_value(d, i - start + 1);
                }
            }
            return None;
        }
        total = total * 10 + digit;
        i = i + 1;
    }
    proof {
        assert(d.subrange(0, i - start) =~= d);
    }
    Some(total)
}

} // verus!
