//! Decimal integers in the text of an element, read as `i32::from_str` reads
//! them: an optional sign followed by at least one ASCII digit.

use vstd::prelude::*;

verus! {

pub open spec fn is_digit(c: char) -> bool {
    '0' <= c && c <= '9'
}

pub open spec fn all_digits(s: Seq<char>) -> bool {
    forall|i: int| 0 <= i < s.len() ==> is_digit(#[trigger] s[i])
}

/// The value of a string of digits, most significant first.
pub open spec fn digits_value(s: Seq<char>) -> int
    decreases s.len(),
{
    if s.len() == 0 {
        0
    } else {
        digits_value(s.drop_last()) * 10 + (s.last() as int - '0' as int)
    }
}

/// The integer that a decimal text denotes, if it is one.
pub open spec fn decimal_value(s: Seq<char>) -> Option<int> {
    if s.len() > 1 && s[0] == '-' && all_digits(s.drop_first()) {
        Some(-digits_value(s.drop_first()))
    } else if s.len() > 1 && s[0] == '+' && all_digits(s.drop_first()) {
        Some(digits_value(s.drop_first()))
    } else if s.len() > 0 && all_digits(s) {
        Some(digits_value(s))
    } else {
        None
    }
}

/// The `i32` that a decimal text denotes; `None` where it is no decimal or does not fit.
pub open spec fn decimal_i32(s: Seq<char>) -> Option<i32> {
    match decimal_value(s) {
        Some(v) => if i32::MIN <= v <= i32::MAX {
            Some(v as i32)
        } else {
            None
        },
        None => None,
    }
}

/// Above the magnitude of every `i32`.
const CAP: i64 = 0x1_0000_0001;

proof fn lemma_digits_nonneg(s: Seq<char>)
    requires
        all_digits(s),
    ensures
        digits_value(s) >= 0,
    decreases s.len(),
{
    if s.len() > 0 {
        assert(is_digit(s[s.len() - 1]));
        assert(all_digits(s.drop_last())) by {
            assert forall|i: int| 0 <= i < s.drop_last().len() implies is_digit(
                #[trigger] s.drop_last()[i],
            ) by {
                assert(s.drop_last()[i] == s[i]);
            }
        }
        lemma_digits_nonneg(s.drop_last());
    }
}

/// The value of the digits of `s` from `start`, saturated at `CAP`; `None` at a non-digit.
fn capped_digits(s: &str, start: usize) -> (r: Option<i64>)
    requires
        start <= s@.len(),
    ensures
        r is Some <==> all_digits(s@.subrange(start as int, s@.len() as int)),
        r is Some ==> 0 <= r->Some_0 <= CAP,
        r is Some ==> r->Some_0 as int == if digits_value(s@.subrange(start as int, s@.len() as int))
            < CAP {
            digits_value(s@.subrange(start as int, s@.len() as int))
        } else {
            CAP as int
        },
{
    let n = s.unicode_len();
    let mut acc: i64 = 0;
    let mut i: usize = start;
    while i < n
        invariant
            n == s@.len(),
            start <= i <= n,
            all_digits(s@.subrange(start as int, i as int)),
            0 <= acc <= CAP,
            acc as int == if digits_value(s@.subrange(start as int, i as int)) < CAP {
                digits_value(s@.subrange(start as int, i as int))
            } else {
                CAP as int
            },
        decreases n - i,
    {
        let c = s.get_char(i);
        let ghost prefix = s@.subrange(start as int, i as int);
        let ghost next = s@.subrange(start as int, i + 1);
        assert(next.drop_last() == prefix);
        assert(next.last() == c);
        if c < '0' || c > '9' {
            assert(!is_digit(s@.subrange(start as int, n as int)[i - start]));
            return None;
        }
        let d: i64 = (c as u32 - '0' as u32) as i64;
        proof {
            lemma_digits_nonneg(prefix);
            let v = digits_value(prefix);
            assert(digits_value(next) == v * 10 + d);
            if v >= CAP {
                assert(v * 10 + d >= CAP) by (nonlinear_arith)
                    requires v >= CAP, d >= 0;
            }
            assert(all_digits(next)) by {
                assert forall|j: int| 0 <= j < next.len() implies is_digit(#[trigger] next[j]) by {
                    if j < prefix.len() {
                        assert(next[j] == prefix[j]);
                    }
                }
            }
        }
        let t: i64 = acc * 10 + d;
        acc = if t < CAP { t } else { CAP };
        i = i + 1;
    }
    assert(s@.subrange(start as int, n as int) == s@.subrange(start as int, s@.len() as int));
    Some(acc)
}

/// Reads a decimal integer as `i32::from_str` does.
pub fn parse_i32(s: &str) -> (r: Option<i32>)
    ensures
        r == decimal_i32(s@),
{
    let n = s.unicode_len();
    if n == 0 {
        return None;
    }
    let c = s.get_char(0);
    let negative = c == '-';
    let start: usize = if c == '-' || c == '+' { 1 } else { 0 };
    if start == 1 && n == 1 {
        return None;
    }
    assert(s@.subrange(1, s@.len() as int) == s@.drop_first());
    assert(s@.subrange(0, s@.len() as int) == s@);
    proof {
        if c == '-' || c == '+' {
            assert(!is_digit(s@[0]));
        }
    }
    let digits = capped_digits(s, start);
    proof {
        if digits is Some {
            lemma_digits_nonneg(s@.subrange(start as int, s@.len() as int));
        }
    }
    match digits {
        None => None,
        Some(m) => {
            if negative {
                if m <= 0x8000_0000 {
                    Some((-m) as i32)
                } else {
                    None
                }
            } else if m <= 0x7fff_ffff {
                Some(m as i32)
            } else {
                None
            }
        },
    }
}

} // verus!
