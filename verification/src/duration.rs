//! The subset of ISO-8601 durations that Clockify estimates use.
use vstd::prelude::*;

use crate::text::chars_of;

verus! {

/// Whether `c` is an ASCII decimal digit.
pub open spec fn is_digit(c: char) -> bool {
    '0' <= c && c <= '9'
}

/// The value of a decimal digit character.
pub open spec fn digit_value(c: char) -> int {
    (c as u32) - ('0' as u32)
}

/// The value of a string of decimal digits.
pub open spec fn digits_value(s: Seq<char>) -> int
    decreases s.len(),
{
    if s.len() == 0 {
        0
    } else {
        digits_value(s.drop_last()) * 10 + digit_value(s.last())
    }
}

/// Seconds per unit of a duration designator: days always, hours, minutes and
/// seconds only after `T`; zero for anything else.
pub open spec fn unit_seconds(c: char, in_time: bool) -> int {
    if c == 'D' {
        86_400
    } else if in_time && c == 'H' {
        3_600
    } else if in_time && c == 'M' {
        60
    } else if in_time && c == 'S' {
        1
    } else {
        0
    }
}

/// Reads the rest of a duration after `P`, with `seconds` counted so far, the
/// digits `number` not yet given a unit, and whether `T` has been seen. The
/// result is absent for an unknown character, a unit without digits, digits
/// without a unit, or a number or total beyond `i64`.
pub open spec fn duration_from(s: Seq<char>, seconds: int, number: Seq<char>, in_time: bool) -> Option<int>
    decreases s.len(),
{
    if s.len() == 0 {
        if number.len() == 0 { Some(seconds) } else { None }
    } else {
        let c = s[0];
        if c == 'T' {
            duration_from(s.drop_first(), seconds, number, true)
        } else if is_digit(c) {
            duration_from(s.drop_first(), seconds, number.push(c), in_time)
        } else if unit_seconds(c, in_time) > 0 {
            if number.len() == 0 || digits_value(number) > i64::MAX {
                None
            } else {
                let total = seconds + digits_value(number) * unit_seconds(c, in_time);
                if total > i64::MAX {
                    None
                } else {
                    duration_from(s.drop_first(), total, Seq::empty(), in_time)
                }
            }
        } else {
            None
        }
    }
}

/// The number of seconds in a duration such as `PT1H30M` or `P1DT2H3M4S`:
/// days, and hours, minutes and seconds after `T`; months, years and weeks are
/// not accepted.
pub open spec fn duration_seconds(value: Seq<char>) -> Option<int> {
    if value.len() > 0 && value[0] == 'P' {
        duration_from(value.drop_first(), 0, Seq::empty(), false)
    } else {
        None
    }
}

proof fn lemma_digits_value_nonneg(s: Seq<char>)
    requires
        forall|i: int| 0 <= i < s.len() ==> is_digit(#[trigger] s[i]),
    ensures
        digits_value(s) >= 0,
    decreases s.len(),
{
    if s.len() > 0 {
        lemma_digits_value_nonneg(s.drop_last());
    }
}

fn digit_of(c: char) -> (d: i64)
    requires
        is_digit(c),
    ensures
        d == digit_value(c),
        0 <= d <= 9,
{
    (c as u32 - '0' as u32) as i64
}

/// Converts a Clockify estimate duration to seconds; `None` when the text is
/// not a duration of the accepted form or its value does not fit in `i64`.
pub fn parse_iso8601_duration_seconds(value: &str) -> (r: Option<i64>)
    ensures
        match duration_seconds(value@) {
            Some(n) => r == Some(n as i64),
            None => r is None,
        },
{
    let chars = chars_of(value);
    if chars.len() == 0 || chars[0] != 'P' {
        return None;
    }
    let ghost rest = value@.drop_first();
    let mut seconds: i64 = 0;
    let ghost mut number: Seq<char> = Seq::empty();
    let mut number_len: usize = 0;
    let mut number_value: i64 = 0;
    let mut number_big = false;
    let mut in_time = false;
    let mut i: usize = 1;
    assert(rest.skip(0) =~= rest);
    while i < chars.len()
        invariant
            chars@ == value@,
            rest == value@.drop_first(),
            1 <= i <= chars.len(),
            0 <= seconds,
            number_len == number.len(),
            number_len < i,
            forall|k: int| 0 <= k < number.len() ==> is_digit(#[trigger] number[k]),
            number_big <==> digits_value(number) > i64::MAX,
            !number_big ==> number_value == digits_value(number),
            duration_seconds(value@) == duration_from(rest.skip(i - 1), seconds as int, number, in_time),
        decreases chars.len() - i,
    {
        let c = chars[i];
        assert(rest.skip(i - 1)[0] == c);
        assert(rest.skip(i - 1).drop_first() =~= rest.skip(i as int));
        if c == 'T' {
            in_time = true;
        } else if '0' <= c && c <= '9' {
            proof {
                lemma_digits_value_nonneg(number);
                assert(number.push(c).drop_last() =~= number);
                number = number.push(c);
            }
            let d = digit_of(c);
            if !number_big {
                if number_value > (i64::MAX - d) / 10 {
                    number_big = true;
                } else {
                    number_value = number_value * 10 + d;
                }
            }
            number_len = number_len + 1;
        } else {
            let unit: i64 = if c == 'D' {
                86_400
            } else if in_time && c == 'H' {
                3_600
            } else if in_time && c == 'M' {
                60
            } else if in_time && c == 'S' {
                1
            } else {
                0
            };
            if unit == 0 || number_len == 0 || number_big {
                return None;
            }
            proof {
                lemma_digits_value_nonneg(number);
            }
            let total: i128 = seconds as i128 + number_value as i128 * unit as i128;
            if total > i64::MAX as i128 {
                return None;
            }
            seconds = total as i64;
            proof {
                number = Seq::empty();
            }
            number_len = 0;
            number_value = 0;
        }
        i = i + 1;
    }
    assert(rest.skip(i - 1).len() == 0);
    if number_len == 0 {
        Some(seconds)
    } else {
        None
    }
}

} // verus!
