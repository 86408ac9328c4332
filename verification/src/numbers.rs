//! String-encoded signed decimal integers.
//!
//! The wire format carries millisecond offsets as JSON strings
//! (`"61234"`), read with the usual `[+-]?[0-9]+` convention and rejected
//! when out of the 64-bit signed range.

use vstd::prelude::*;
use vstd::string::StrSliceExecFns;

verus! {

/// Is `c` one of the ten decimal digit characters?
pub open spec fn is_digit(c: char) -> bool {
    '0' as int <= c as int && c as int <= '9' as int
}

/// The numeric value of a digit character.
pub open spec fn digit_val(c: char) -> int {
    c as int - '0' as int
}

/// The value of a digit sequence read as a decimal numeral.
pub open spec fn digits_val(s: Seq<char>) -> int
    decreases s.len(),
{
    if s.len() == 0 {
        0
    } else {
        digits_val(s.drop_last()) * 10 + digit_val(s.last())
    }
}

/// Every character of `s` is a decimal digit.
pub open spec fn all_digits(s: Seq<char>) -> bool {
    forall|i: int| 0 <= i < s.len() ==> is_digit(#[trigger] s[i])
}

/// The integer a string denotes: an optional sign, then one or more
/// digits, and nothing else.
pub open spec fn parsed_int(s: Seq<char>) -> Option<int> {
    if s.len() == 0 {
        None
    } else {
        let (neg, digits) = if s[0] == '+' {
            (false, s.drop_first())
        } else if s[0] == '-' {
            (true, s.drop_first())
        } else {
            (false, s)
        };
        if digits.len() > 0 && all_digits(digits) {
            Some(if neg { -digits_val(digits) } else { digits_val(digits) })
        } else {
            None
        }
    }
}

/// The integer a string denotes, kept only when it fits in an `i64`:
/// the meaning of reading the string as a 64-bit signed number.
pub open spec fn parsed_i64(s: Seq<char>) -> Option<i64> {
    match parsed_int(s) {
        None => None,
        Some(v) => if i64::MIN <= v <= i64::MAX {
            Some(v as i64)
        } else {
            None
        },
    }
}

proof fn lemma_digits_val_step(s: Seq<char>, a: int, i: int)
    requires
        0 <= a <= i < s.len(),
    ensures
        digits_val(s.subrange(a, i + 1)) == digits_val(s.subrange(a, i)) * 10 + digit_val(s[i]),
{
    let t = s.subrange(a, i + 1);
    assert(t.drop_last() =~= s.subrange(a, i));
    assert(t.last() == s[i]);
}

/// Read a string as a 64-bit signed decimal integer.
pub fn parse_i64(s: &str) -> (r: Option<i64>)
    ensures
        r == parsed_i64(s@),
{
    let n = s.unicode_len();
    if n == 0 {
        return None;
    }
    let first = s.get_char(0);
    let neg = first == '-';
    let has_sign = first == '-' || first == '+';
    let start: usize = if has_sign {
        1
    } else {
        0
    };
    if n == start {
        return None;
    }
    let ghost digits: Seq<char> = s@.subrange(start as int, n as int);
    proof {
        if has_sign {
            assert(digits =~= s@.drop_first());
        } else {
            assert(digits =~= s@);
        }
    }
    let mut i: usize = start;
    let mut acc: u128 = 0;
    while i < n
        invariant
            start <= i <= n,
            n == s@.len(),
            n > start,
            s@.len() > 0,
            has_sign == (s@[0] == '-' || s@[0] == '+'),
            start == (if has_sign { 1int } else { 0int }),
            digits == s@.subrange(start as int, n as int),
            all_digits(s@.subrange(start as int, i as int)),
            ({
                let dv = digits_val(s@.subrange(start as int, i as int));
                if dv <= 9223372036854775808int {
                    acc == dv
                } else {
                    acc > 9223372036854775808u128
                }
            }),
        decreases n - i,
    {
        let c = s.get_char(i);
        let u = c as u32;
        if u < 48 || u > 57 {
            proof {
                if has_sign {
                    assert(digits =~= s@.drop_first());
                } else {
                    assert(digits =~= s@);
                }
                assert(digits[i - start] == c);
                assert(!is_digit(digits[i - start]));
            }
            return None;
        }
        let d: u128 = (u - 48) as u128;
        proof {
            let pre = s@.subrange(start as int, i as int);
            let post = s@.subrange(start as int, i as int + 1);
            assert(post =~= pre.push(c));
            assert forall|j: int| 0 <= j < post.len() implies is_digit(#[trigger] post[j]) by {
                if j < pre.len() {
                    assert(post[j] == pre[j]);
                } else {
                    assert(post[j] == c);
                }
            }
            lemma_digits_val_step(s@, start as int, i as int);
        }
        if acc <= 9223372036854775808u128 {
            acc = acc * 10 + d;
        }
        i += 1;
    }
    proof {
        if has_sign {
            assert(s@[0] == '-' || s@[0] == '+');
        } else {
            assert(s@[0] != '-' && s@[0] != '+');
        }
        assert(digits.len() > 0 && all_digits(digits));
    }
    if neg {
        if acc > 9223372036854775808u128 {
            None
        } else if acc == 9223372036854775808u128 {
            Some(i64::MIN)
        } else {
            Some(-(acc as i64))
        }
    } else {
        if acc > 9223372036854775807u128 {
            None
        } else {
            Some(acc as i64)
        }
    }
}

} // verus!
