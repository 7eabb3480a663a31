//! Timestamps as RFC 3339 writes them, such as `2024-02-29T12:30:00.500+01:00`.
use crate::text::characters;
use vstd::prelude::*;

verus! {

// ---------------------------------------------------------------------------
// The calendar
// ---------------------------------------------------------------------------

/// A leap year of the Gregorian calendar.
pub open spec fn is_leap(year: int) -> bool {
    (year % 4 == 0 && year % 100 != 0) || year % 400 == 0
}

/// The number of days in a year.
pub open spec fn year_days(year: int) -> int {
    if is_leap(year) {
        366
    } else {
        365
    }
}

/// The number of days in a month.
pub open spec fn month_days(year: int, month: int) -> int {
    if month == 2 {
        if is_leap(year) {
            29
        } else {
            28
        }
    } else if month == 4 || month == 6 || month == 9 || month == 11 {
        30
    } else {
        31
    }
}

/// The number of days from the start of the year 0 to the start of a year.
pub open spec fn days_before_year(year: int) -> int
    decreases year,
{
    if year <= 0 {
        0
    } else {
        days_before_year(year - 1) + year_days(year - 1)
    }
}

/// The number of days from the start of a year to the start of a month.
pub open spec fn days_before_month(year: int, month: int) -> int
    decreases month,
{
    if month <= 1 {
        0
    } else {
        days_before_month(year, month - 1) + month_days(year, month - 1)
    }
}

/// The number of days from the start of 1970 to a day.
pub open spec fn day_number(year: int, month: int, day: int) -> int {
    days_before_year(year) - days_before_year(1970) + days_before_month(year, month) + day - 1
}

/// The days before a year, counted at once.
pub proof fn lemma_days_before_year(year: int)
    requires
        0 <= year,
    ensures
        days_before_year(year) == 365 * year + (year + 3) / 4 - (year + 99) / 100 + (year + 399)
            / 400,
    decreases year,
{
    if year > 0 {
        let last = year - 1;
        lemma_days_before_year(last);
        assert((year + 3) / 4 == (last + 3) / 4 + if last % 4 == 0 {
            1int
        } else {
            0
        });
        assert((year + 99) / 100 == (last + 99) / 100 + if last % 100 == 0 {
            1int
        } else {
            0
        });
        assert((year + 399) / 400 == (last + 399) / 400 + if last % 400 == 0 {
            1int
        } else {
            0
        });
        assert(last % 400 == 0 ==> last % 100 == 0);
        assert(last % 100 == 0 ==> last % 4 == 0);
    }
}

fn leap(year: i64) -> (b: bool)
    requires
        0 <= year,
    ensures
        b == is_leap(year as int),
{
    (year % 4 == 0 && year % 100 != 0) || year % 400 == 0
}

fn days_of_month(year: i64, month: i64) -> (days: i64)
    requires
        0 <= year,
    ensures
        days == month_days(year as int, month as int),
        28 <= days <= 31,
{
    if month == 2 {
        if leap(year) {
            29
        } else {
            28
        }
    } else if month == 4 || month == 6 || month == 9 || month == 11 {
        30
    } else {
        31
    }
}

fn number_of_day(year: i64, month: i64, day: i64) -> (number: i64)
    requires
        0 <= year <= 9999,
        1 <= month <= 12,
        1 <= day <= 31,
    ensures
        number == day_number(year as int, month as int, day as int),
        -1_000_000 <= number <= 4_000_000,
{
    let mut before: i64 = 0;
    let mut m: i64 = 1;
    while m < month
        invariant
            0 <= year <= 9999,
            1 <= m <= month <= 12,
            before == days_before_month(year as int, m as int),
            0 <= before <= 31 * (m - 1),
        decreases month - m,
    {
        before = before + days_of_month(year, m);
        m = m + 1;
    }
    proof {
        lemma_days_before_year(year as int);
        lemma_days_before_year(1970);
    }
    let years: i64 = 365 * year + (year + 3) / 4 - (year + 99) / 100 + (year + 399) / 400;
    years - 719528 + before + day - 1
}

// ---------------------------------------------------------------------------
// The text
// ---------------------------------------------------------------------------

/// An ASCII decimal digit.
pub open spec fn is_digit(c: char) -> bool {
    '0' <= c <= '9'
}

/// The value of an ASCII decimal digit.
pub open spec fn digit_value(c: char) -> int {
    c as int - '0' as int
}

/// The number that two digits from an index on spell; none where they are no
/// digits.
pub open spec fn two_digits(text: Seq<char>, at: int) -> Option<int> {
    if 0 <= at && at + 2 <= text.len() && is_digit(text[at]) && is_digit(text[at + 1]) {
        Some(10 * digit_value(text[at]) + digit_value(text[at + 1]))
    } else {
        None
    }
}

/// Some character stands at an index.
pub open spec fn stands_at(text: Seq<char>, at: int, c: char) -> bool {
    0 <= at < text.len() && text[at] == c
}

/// The number of digits from an index on.
pub open spec fn digit_run(text: Seq<char>, at: int) -> nat
    decreases text.len() - at,
{
    if 0 <= at < text.len() && is_digit(text[at]) {
        1 + digit_run(text, at + 1)
    } else {
        0
    }
}

/// A digit of the fraction whose digits start at an index; zero behind their end.
pub open spec fn fraction_digit(text: Seq<char>, at: int, k: int) -> int {
    if k < digit_run(text, at) {
        digit_value(text[at + k])
    } else {
        0
    }
}

/// The whole milliseconds of the fraction whose digits start at an index.
pub open spec fn fraction_millis(text: Seq<char>, at: int) -> int {
    100 * fraction_digit(text, at, 0) + 10 * fraction_digit(text, at, 1) + fraction_digit(
        text,
        at,
        2,
    )
}

/// The minutes by which local time is ahead of UTC, spelled from an index to the
/// end of the text: `Z`, or a sign, hours and minutes.
pub open spec fn offset_minutes(text: Seq<char>, at: int) -> Option<int> {
    if text.len() == at + 1 && (stands_at(text, at, 'Z') || stands_at(text, at, 'z')) {
        Some(0)
    } else if text.len() == at + 6 && (stands_at(text, at, '+') || stands_at(text, at, '-'))
        && stands_at(text, at + 3, ':') {
        match (two_digits(text, at + 1), two_digits(text, at + 4)) {
            (Some(hours), Some(minutes)) => if hours <= 23 && minutes <= 59 {
                if text[at] == '-' {
                    Some(-(60 * hours + minutes))
                } else {
                    Some(60 * hours + minutes)
                }
            } else {
                None
            },
            _ => None,
        }
    } else {
        None
    }
}

/// The days from 1970 on that the date at the start of a text names:
/// `YYYY-MM-DD`.
pub open spec fn date_days(text: Seq<char>) -> Option<int> {
    match (two_digits(text, 0), two_digits(text, 2), two_digits(text, 5), two_digits(text, 8)) {
        (Some(century), Some(rest), Some(month), Some(day)) => {
            let year = 100 * century + rest;
            if stands_at(text, 4, '-') && stands_at(text, 7, '-') && 1 <= month <= 12 && 1 <= day
                <= month_days(year, month) {
                Some(day_number(year, month, day))
            } else {
                None
            }
        },
        _ => None,
    }
}

/// The seconds from midnight on that the time behind the date names:
/// `THH:MM:SS`. A leap second counts as the second after it.
pub open spec fn time_seconds(text: Seq<char>) -> Option<int> {
    match (two_digits(text, 11), two_digits(text, 14), two_digits(text, 17)) {
        (Some(hour), Some(minute), Some(second)) => if (stands_at(text, 10, 'T') || stands_at(
            text,
            10,
            't',
        )) && stands_at(text, 13, ':') && stands_at(text, 16, ':') && hour <= 23 && minute <= 59
            && second <= 60 {
            Some(3600 * hour + 60 * minute + second)
        } else {
            None
        },
        _ => None,
    }
}

/// The milliseconds from the start of 1970, in UTC, to the time that a text names
/// in the format of RFC 3339; none for any other text. Digits of a fraction beyond
/// the milliseconds are left aside.
pub open spec fn rfc3339_millis(text: Seq<char>) -> Option<i64> {
    let has_fraction = stands_at(text, 19, '.');
    let digits = if has_fraction {
        digit_run(text, 20)
    } else {
        0
    };
    let millis = if has_fraction {
        fraction_millis(text, 20)
    } else {
        0
    };
    let end = if has_fraction {
        20 + digits
    } else {
        19
    };
    match (date_days(text), time_seconds(text), offset_minutes(text, end as int)) {
        (Some(days), Some(seconds), Some(offset)) => if has_fraction && digits == 0 {
            None
        } else {
            Some((1000 * (86400 * days + seconds - 60 * offset) + millis) as i64)
        },
        _ => None,
    }
}

// ---------------------------------------------------------------------------
// Reading
// ---------------------------------------------------------------------------

fn digit_of(c: char) -> (digit: Option<i64>)
    ensures
        match digit {
            Some(value) => is_digit(c) && value == digit_value(c) && 0 <= value <= 9,
            None => !is_digit(c),
        },
{
    if '0' <= c && c <= '9' {
        Some((c as u32 - '0' as u32) as i64)
    } else {
        None
    }
}

fn read_two(text: &Vec<char>, at: usize) -> (number: Option<i64>)
    requires
        at <= 100 || at <= text@.len(),
    ensures
        match number {
            Some(value) => two_digits(text@, at as int) == Some(value as int) && 0 <= value <= 99,
            None => two_digits(text@, at as int) is None,
        },
{
    if at >= text.len() || text.len() - at < 2 {
        return None;
    }
    match (digit_of(text[at]), digit_of(text[at + 1])) {
        (Some(tens), Some(ones)) => Some(10 * tens + ones),
        _ => None,
    }
}

fn is_there(text: &Vec<char>, at: usize, c: char) -> (b: bool)
    ensures
        b == stands_at(text@, at as int, c),
{
    at < text.len() && text[at] == c
}

fn read_date(text: &Vec<char>) -> (days: Option<i64>)
    ensures
        match days {
            Some(value) => date_days(text@) == Some(value as int) && -1_000_000 <= value
                <= 4_000_000,
            None => date_days(text@) is None,
        },
{
    match (read_two(text, 0), read_two(text, 2), read_two(text, 5), read_two(text, 8)) {
        (Some(century), Some(rest), Some(month), Some(day)) => {
            let year: i64 = 100 * century + rest;
            if is_there(text, 4, '-') && is_there(text, 7, '-') && 1 <= month && month <= 12 && 1
                <= day && day <= days_of_month(year, month) {
                Some(number_of_day(year, month, day))
            } else {
                None
            }
        },
        _ => None,
    }
}

fn read_time(text: &Vec<char>) -> (seconds: Option<i64>)
    ensures
        match seconds {
            Some(value) => time_seconds(text@) == Some(value as int) && 0 <= value <= 86400,
            None => time_seconds(text@) is None,
        },
{
    match (read_two(text, 11), read_two(text, 14), read_two(text, 17)) {
        (Some(hour), Some(minute), Some(second)) => if (is_there(text, 10, 'T') || is_there(
            text,
            10,
            't',
        )) && is_there(text, 13, ':') && is_there(text, 16, ':') && hour <= 23 && minute <= 59
            && second <= 60 {
            Some(3600 * hour + 60 * minute + second)
        } else {
            None
        },
        _ => None,
    }
}

fn read_offset(text: &Vec<char>, at: usize) -> (minutes: Option<i64>)
    requires
        at <= text@.len(),
    ensures
        match minutes {
            Some(value) => offset_minutes(text@, at as int) == Some(value as int) && -1439 <= value
                <= 1439,
            None => offset_minutes(text@, at as int) is None,
        },
{
    let left: usize = text.len() - at;
    if left == 1 && (is_there(text, at, 'Z') || is_there(text, at, 'z')) {
        return Some(0);
    }
    if left != 6 || !(is_there(text, at, '+') || is_there(text, at, '-')) || !is_there(
        text,
        at + 3,
        ':',
    ) {
        return None;
    }
    match (read_two(text, at + 1), read_two(text, at + 4)) {
        (Some(hours), Some(minutes)) => if hours <= 23 && minutes <= 59 {
            if text[at] == '-' {
                Some(-(60 * hours + minutes))
            } else {
                Some(60 * hours + minutes)
            }
        } else {
            None
        },
        _ => None,
    }
}

/// The index behind the digits from an index on.
fn skip_digits(text: &Vec<char>, at: usize) -> (end: usize)
    requires
        at <= text@.len(),
    ensures
        end == at + digit_run(text@, at as int),
        at <= end <= text@.len(),
{
    let mut end: usize = at;
    while end < text.len() && digit_of(text[end]).is_some()
        invariant
            at <= end <= text@.len(),
            digit_run(text@, at as int) == end - at + digit_run(text@, end as int),
        decreases text.len() - end,
    {
        end = end + 1;
    }
    end
}

fn read_millis(text: &Vec<char>, at: usize, digits: usize) -> (millis: i64)
    requires
        digits == digit_run(text@, at as int),
        at + digits <= text@.len(),
    ensures
        millis == fraction_millis(text@, at as int),
        0 <= millis <= 999,
{
    reveal_with_fuel(digit_run, 4);
    assert(text.len() <= usize::MAX);
    let mut millis: i64 = 0;
    if digits > 0 {
        millis = match digit_of(text[at]) {
            Some(tenths) => 100 * tenths,
            None => 0,
        };
    }
    if digits > 1 {
        millis = match digit_of(text[at + 1]) {
            Some(hundredths) => millis + 10 * hundredths,
            None => millis,
        };
    }
    if digits > 2 {
        millis = match digit_of(text[at + 2]) {
            Some(thousandths) => millis + thousandths,
            None => millis,
        };
    }
    millis
}

/// Reads a timestamp in the format of RFC 3339, in milliseconds since the epoch.
pub fn parse_rfc3339(text: &str) -> (ms: Option<i64>)
    ensures
        ms == rfc3339_millis(text@),
{
    let chars = characters(text);
    let days = match read_date(&chars) {
        Some(days) => days,
        None => return None,
    };
    let seconds = match read_time(&chars) {
        Some(seconds) => seconds,
        None => return None,
    };
    let mut end: usize = 19;
    let mut millis: i64 = 0;
    if is_there(&chars, 19, '.') {
        end = skip_digits(&chars, 20);
        if end == 20 {
            return None;
        }
        millis = read_millis(&chars, 20, end - 20);
    }
    match read_offset(&chars, end) {
        Some(offset) => Some(1000 * (86400 * days + seconds - 60 * offset) + millis),
        None => None,
    }
}

// ---------------------------------------------------------------------------
// Laws
// ---------------------------------------------------------------------------

/// Days are numbered without a gap: from a day to the next, over the end of a
/// month and over the end of a year. The first day of 1970 has the number 0.
pub proof fn law_days_follow_each_other(year: int, month: int, day: int)
    requires
        0 <= year,
        1 <= month <= 12,
        1 <= day <= month_days(year, month),
    ensures
        day_number(year, month, day) + 1 == if day < month_days(year, month) {
            day_number(year, month, day + 1)
        } else if month < 12 {
            day_number(year, month + 1, 1)
        } else {
            day_number(year + 1, 1, 1)
        },
        day_number(1970, 1, 1) == 0,
{
    reveal_with_fuel(days_before_month, 13);
}

} // verus!
