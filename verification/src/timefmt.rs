//! Clock-of-day millisecond offsets and their LRC timestamp rendering.
//!
//! A lyric line's start time arrives as a signed millisecond count; it is
//! reduced modulo one day to a time of day, and rendered as `[MM:SS.mmm]`
//! (minute of hour, second of minute, millisecond of second, zero-padded).

use vstd::prelude::*;
use vstd::string::StringExecFns;

use crate::numbers::{digit_val, digits_val, is_digit, parsed_int};

verus! {

/// Milliseconds in one day: times of day live in `0 .. MS_PER_DAY`.
pub const MS_PER_DAY: u64 = 86400000;

/// A signed millisecond count reduced to a time of day, Euclidean style:
/// the result is in `0 .. MS_PER_DAY` whatever the sign of `d`.
pub open spec fn wrap_ms(d: int) -> int {
    d % (MS_PER_DAY as int)
}

/// Reduce a signed millisecond count to a time of day.
pub fn wrap_to_day(d: i64) -> (r: u64)
    ensures
        r == wrap_ms(d as int),
        r < MS_PER_DAY,
{
    if d >= 0 {
        (d as u64) % MS_PER_DAY
    } else {
        let k: u64 = ((-(d + 1)) as u64) % MS_PER_DAY;
        proof {
            lemma_wrap_negative(d as int, k as int);
        }
        MS_PER_DAY - 1 - k
    }
}

/// The minute-of-hour field of a time of day given in milliseconds.
pub open spec fn minute_of(ms: int) -> int {
    (ms / 60000) % 60
}

/// The second-of-minute field of a time of day given in milliseconds.
pub open spec fn second_of(ms: int) -> int {
    (ms / 1000) % 60
}

/// The millisecond-of-second field of a time of day given in milliseconds.
pub open spec fn milli_of(ms: int) -> int {
    ms % 1000
}

/// The digit character rendering `d`.
pub open spec fn digit_char(d: int) -> char {
    if d == 0 {
        '0'
    } else if d == 1 {
        '1'
    } else if d == 2 {
        '2'
    } else if d == 3 {
        '3'
    } else if d == 4 {
        '4'
    } else if d == 5 {
        '5'
    } else if d == 6 {
        '6'
    } else if d == 7 {
        '7'
    } else if d == 8 {
        '8'
    } else {
        '9'
    }
}

/// `n` rendered as two decimal digits, zero-padded.
pub open spec fn two_digit_seq(n: int) -> Seq<char> {
    seq![digit_char(n / 10), digit_char(n % 10)]
}

/// `n` rendered as three decimal digits, zero-padded.
pub open spec fn three_digit_seq(n: int) -> Seq<char> {
    seq![digit_char(n / 100), digit_char((n / 10) % 10), digit_char(n % 10)]
}

/// The LRC tag `[MM:SS.mmm]` for a time of day given in milliseconds.
pub open spec fn lrc_timestamp(ms: int) -> Seq<char> {
    seq!['['] + two_digit_seq(minute_of(ms)) + seq![':'] + two_digit_seq(second_of(ms)) + seq![
        '.',
    ] + three_digit_seq(milli_of(ms)) + seq![']']
}

fn push_digit(out: &mut String, d: u64)
    requires
        d < 10,
    ensures
        final(out)@ == old(out)@ + seq![digit_char(d as int)],
{
    if d == 0 {
        proof {
            reveal_strlit("0");
            assert("0"@ =~= seq![digit_char(0)]);
        }
        out.append("0");
    } else if d == 1 {
        proof {
            reveal_strlit("1");
            assert("1"@ =~= seq![digit_char(1)]);
        }
        out.append("1");
    } else if d == 2 {
        proof {
            reveal_strlit("2");
            assert("2"@ =~= seq![digit_char(2)]);
        }
        out.append("2");
    } else if d == 3 {
        proof {
            reveal_strlit("3");
            assert("3"@ =~= seq![digit_char(3)]);
        }
        out.append("3");
    } else if d == 4 {
        proof {
            reveal_strlit("4");
            assert("4"@ =~= seq![digit_char(4)]);
        }
        out.append("4");
    } else if d == 5 {
        proof {
            reveal_strlit("5");
            assert("5"@ =~= seq![digit_char(5)]);
        }
        out.append("5");
    } else if d == 6 {
        proof {
            reveal_strlit("6");
            assert("6"@ =~= seq![digit_char(6)]);
        }
        out.append("6");
    } else if d == 7 {
        proof {
            reveal_strlit("7");
            assert("7"@ =~= seq![digit_char(7)]);
        }
        out.append("7");
    } else if d == 8 {
        proof {
            reveal_strlit("8");
            assert("8"@ =~= seq![digit_char(8)]);
        }
        out.append("8");
    } else {
        proof {
            reveal_strlit("9");
            assert("9"@ =~= seq![digit_char(9)]);
        }
        out.append("9");
    }
}

fn push_two_digits(out: &mut String, n: u64)
    requires
        n < 100,
    ensures
        final(out)@ == old(out)@ + two_digit_seq(n as int),
{
    push_digit(out, n / 10);
    push_digit(out, n % 10);
    proof {
        assert(old(out)@ + seq![digit_char(n as int / 10)] + seq![digit_char(n as int % 10)]
            =~= old(out)@ + two_digit_seq(n as int));
    }
}

fn push_three_digits(out: &mut String, n: u64)
    requires
        n < 1000,
    ensures
        final(out)@ == old(out)@ + three_digit_seq(n as int),
{
    push_digit(out, n / 100);
    push_digit(out, (n / 10) % 10);
    push_digit(out, n % 10);
    proof {
        assert(old(out)@ + seq![digit_char(n as int / 100)] + seq![digit_char((n as int / 10) % 10)]
            + seq![digit_char(n as int % 10)] =~= old(out)@ + three_digit_seq(n as int));
    }
}

/// Render the LRC tag `[MM:SS.mmm]` for a time of day in milliseconds.
pub fn format_timestamp(ms: u64) -> (r: String)
    ensures
        r@ == lrc_timestamp(ms as int),
{
    let mut out = String::new();
    proof {
        reveal_strlit("[");
        reveal_strlit(":");
        reveal_strlit(".");
        reveal_strlit("]");
        assert("["@ =~= seq!['[']);
        assert(":"@ =~= seq![':']);
        assert("."@ =~= seq!['.']);
        assert("]"@ =~= seq![']']);
    }
    out.append("[");
    push_two_digits(&mut out, (ms / 60000) % 60);
    out.append(":");
    push_two_digits(&mut out, (ms / 1000) % 60);
    out.append(".");
    push_three_digits(&mut out, ms % 1000);
    out.append("]");
    proof {
        assert(out@ =~= lrc_timestamp(ms as int));
    }
    out
}

/// Every field of the tag is re-readable: parsing the minute, second and
/// millisecond numerals out of `[MM:SS.mmm]` recovers the minute, second
/// and millisecond of the formatted time of day.
pub proof fn lemma_timestamp_round_trip(ms: int)
    requires
        0 <= ms < MS_PER_DAY,
    ensures
        parsed_int(lrc_timestamp(ms).subrange(1, 3)) == Some(minute_of(ms)),
        parsed_int(lrc_timestamp(ms).subrange(4, 6)) == Some(second_of(ms)),
        parsed_int(lrc_timestamp(ms).subrange(7, 10)) == Some(milli_of(ms)),
{
    let t = lrc_timestamp(ms);
    assert(t.subrange(1, 3) =~= two_digit_seq(minute_of(ms)));
    assert(t.subrange(4, 6) =~= two_digit_seq(second_of(ms)));
    assert(t.subrange(7, 10) =~= three_digit_seq(milli_of(ms)));
    lemma_parse_two_digits(minute_of(ms));
    lemma_parse_two_digits(second_of(ms));
    lemma_parse_three_digits(milli_of(ms));
}

proof fn lemma_digit_char_val(d: int)
    requires
        0 <= d < 10,
    ensures
        is_digit(digit_char(d)),
        digit_val(digit_char(d)) == d,
        digit_char(d) != '+',
        digit_char(d) != '-',
{
}

proof fn lemma_parse_two_digits(n: int)
    requires
        0 <= n < 100,
    ensures
        parsed_int(two_digit_seq(n)) == Some(n),
{
    let s = two_digit_seq(n);
    lemma_digit_char_val(n / 10);
    lemma_digit_char_val(n % 10);
    assert forall|i: int| 0 <= i < s.len() implies is_digit(#[trigger] s[i]) by {
        if i == 0 {
            assert(s[i] == digit_char(n / 10));
        } else {
            assert(s[i] == digit_char(n % 10));
        }
    }
    let d1 = seq![digit_char(n / 10)];
    assert(s.drop_last() =~= d1);
    assert(s.last() == digit_char(n % 10));
    assert(d1.drop_last() =~= Seq::<char>::empty());
    assert(d1.last() == digit_char(n / 10));
    assert(digits_val(Seq::<char>::empty()) == 0);
    assert(digits_val(d1) == digit_val(digit_char(n / 10)));
    assert(digits_val(s) == digit_val(digit_char(n / 10)) * 10 + digit_val(digit_char(n % 10)));
    vstd::arithmetic::div_mod::lemma_fundamental_div_mod(n, 10);
    assert(digits_val(s) == n);
    assert(s[0] != '+' && s[0] != '-');
}

proof fn lemma_parse_three_digits(n: int)
    requires
        0 <= n < 1000,
    ensures
        parsed_int(three_digit_seq(n)) == Some(n),
{
    let s = three_digit_seq(n);
    lemma_digit_char_val(n / 100);
    lemma_digit_char_val((n / 10) % 10);
    lemma_digit_char_val(n % 10);
    assert forall|i: int| 0 <= i < s.len() implies is_digit(#[trigger] s[i]) by {
        if i == 0 {
            assert(s[i] == digit_char(n / 100));
        } else if i == 1 {
            assert(s[i] == digit_char((n / 10) % 10));
        } else {
            assert(s[i] == digit_char(n % 10));
        }
    }
    let d2 = seq![digit_char(n / 100), digit_char((n / 10) % 10)];
    let d1 = seq![digit_char(n / 100)];
    assert(s.drop_last() =~= d2);
    assert(s.last() == digit_char(n % 10));
    assert(d2.drop_last() =~= d1);
    assert(d2.last() == digit_char((n / 10) % 10));
    assert(d1.drop_last() =~= Seq::<char>::empty());
    assert(d1.last() == digit_char(n / 100));
    assert(digits_val(Seq::<char>::empty()) == 0);
    assert(digits_val(d1) == digit_val(digit_char(n / 100)));
    assert(digits_val(d2) == digit_val(digit_char(n / 100)) * 10 + digit_val(
        digit_char((n / 10) % 10),
    ));
    assert(digits_val(s) == (digit_val(digit_char(n / 100)) * 10 + digit_val(
        digit_char((n / 10) % 10),
    )) * 10 + digit_val(digit_char(n % 10)));
    vstd::arithmetic::div_mod::lemma_fundamental_div_mod(n, 10);
    vstd::arithmetic::div_mod::lemma_fundamental_div_mod(n / 10, 10);
    vstd::arithmetic::div_mod::lemma_div_denominator(n, 10, 10);
    assert(n / 10 / 10 == n / 100);
    assert(digits_val(s) == n);
    assert(s[0] != '+' && s[0] != '-');
}

proof fn lemma_wrap_negative(d: int, k: int)
    requires
        d < 0,
        k == (-(d + 1)) % (MS_PER_DAY as int),
    ensures
        MS_PER_DAY - 1 - k == d % (MS_PER_DAY as int),
{
    let m = MS_PER_DAY as int;
    let a = -(d + 1);
    vstd::arithmetic::div_mod::lemma_fundamental_div_mod(a, m);
    vstd::arithmetic::div_mod::lemma_fundamental_div_mod_converse(
        d,
        m,
        -(a / m) - 1,
        m - 1 - k,
    );
}

} // verus!
