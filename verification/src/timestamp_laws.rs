//! Which timestamps are read, and as what.
use crate::text::digit;
use crate::text_laws::spelled;
use crate::timestamp::{
    date_days, day_number, days_before_month, digit_run, digit_value, fraction_digit,
    fraction_millis, is_digit, lemma_days_before_year, month_days, offset_minutes, rfc3339_millis,
    stands_at, time_seconds, two_digits, year_days,
};
use vstd::prelude::*;

verus! {

// ---------------------------------------------------------------------------
// The calendar
// ---------------------------------------------------------------------------

/// The months have the days of the Gregorian calendar. Every fourth year is a leap
/// year, but of the hundredth years only every fourth; a leap year has one day more,
/// at the end of February.
pub proof fn law_the_calendar_is_gregorian(year: int, month: int)
    requires
        1 <= month <= 12,
    ensures
        month != 2 ==> month_days(year, month) == seq![
            31int,
            28,
            31,
            30,
            31,
            30,
            31,
            31,
            30,
            31,
            30,
            31,
        ][month - 1],
        month_days(year, 2) == year_days(year) - 337,
        year_days(year) == 365 || year_days(year) == 366,
        year_days(year) == 366 <==> year % 4 == 0 && (year % 100 == 0 ==> year % 400 == 0),
        days_before_month(year, 13) == year_days(year),
{
    reveal_with_fuel(days_before_month, 14);
}

/// Four hundred years later the same day comes 146097 days later.
pub proof fn law_the_calendar_repeats(year: int, month: int, day: int)
    requires
        0 <= year,
        1 <= month <= 12,
    ensures
        day_number(year + 400, month, day) == day_number(year, month, day) + 146097,
    decreases year,
{
    lemma_days_before_year(year);
    lemma_days_before_year(year + 400);
    lemma_same_months(year, month);
}

proof fn lemma_same_months(year: int, month: int)
    requires
        0 <= year,
    ensures
        days_before_month(year + 400, month) == days_before_month(year, month),
    decreases month,
{
    if month > 1 {
        lemma_same_months(year, month - 1);
        assert((year + 400) % 4 == year % 4);
        assert((year + 400) % 100 == year % 100);
        assert((year + 400) % 400 == year % 400);
    }
}

// ---------------------------------------------------------------------------
// The text
// ---------------------------------------------------------------------------

/// A moment as a timestamp tells it, in local time.
pub struct Moment {
    pub year: nat,
    pub month: nat,
    pub day: nat,
    pub hour: nat,
    pub minute: nat,
    pub second: nat,
}

impl Moment {
    /// A moment that there is.
    pub open spec fn is_valid(self) -> bool {
        &&& self.year <= 9999
        &&& 1 <= self.month <= 12
        &&& 1 <= self.day <= month_days(self.year as int, self.month as int)
        &&& self.hour <= 23
        &&& self.minute <= 59
        &&& self.second <= 60
    }

    /// How the moment is written, up to its fraction.
    pub open spec fn written(self, separator: char) -> Seq<char> {
        seq![
            digit(self.year / 1000),
            digit(self.year / 100 % 10),
            digit(self.year / 10 % 10),
            digit(self.year % 10),
            '-',
            digit(self.month / 10),
            digit(self.month % 10),
            '-',
            digit(self.day / 10),
            digit(self.day % 10),
            separator,
            digit(self.hour / 10),
            digit(self.hour % 10),
            ':',
            digit(self.minute / 10),
            digit(self.minute % 10),
            ':',
            digit(self.second / 10),
            digit(self.second % 10),
        ]
    }

    /// The seconds from the start of 1970 to the moment, in local time.
    pub open spec fn seconds(self) -> int {
        86400 * day_number(self.year as int, self.month as int, self.day as int) + 3600 * self.hour
            + 60 * self.minute + self.second
    }
}

/// Decimal digits, one at least.
pub open spec fn are_digits(digits: Seq<char>) -> bool {
    digits.len() > 0 && forall|i: int|
        0 <= i < digits.len() ==> '0' <= #[trigger] digits[i] <= '9'
}

/// The milliseconds that the digits of a fraction of a second come to, cut off.
pub open spec fn whole_millis(digits: Seq<char>) -> int {
    spelled((digits + seq!['0', '0', '0']).take(3)) as int
}

/// How the offset of the local time is written: a `Z`, or a sign, hours and minutes.
pub open spec fn is_zone(zone: Seq<char>, minutes: int) -> bool {
    ||| (zone == seq!['Z'] || zone == seq!['z']) && minutes == 0
    ||| exists|sign: char, hours: nat, rest: nat|
        #![trigger zone_text(sign, hours, rest)]
        {
            &&& zone == zone_text(sign, hours, rest)
            &&& hours <= 23
            &&& rest <= 59
            &&& sign == '+' && minutes == 60 * hours + rest || sign == '-' && minutes == -(60
                * hours + rest)
        }
}

/// A sign, hours and minutes.
pub open spec fn zone_text(sign: char, hours: nat, minutes: nat) -> Seq<char> {
    seq![
        sign,
        digit(hours / 10),
        digit(hours % 10),
        ':',
        digit(minutes / 10),
        digit(minutes % 10),
    ]
}

proof fn lemma_digit(n: nat)
    requires
        n < 10,
    ensures
        is_digit(digit(n)),
        digit_value(digit(n)) == n,
{
}

proof fn lemma_two(text: Seq<char>, at: int, n: nat)
    requires
        n < 100,
        0 <= at,
        at + 2 <= text.len(),
        text[at] == digit(n / 10),
        text[at + 1] == digit(n % 10),
    ensures
        two_digits(text, at) == Some(n as int),
{
    lemma_digit(n / 10);
    lemma_digit(n % 10);
}

proof fn lemma_moment(moment: Moment, separator: char, rest: Seq<char>)
    requires
        moment.is_valid(),
        separator == 'T' || separator == 't',
    ensures
        ({
            let text = moment.written(separator) + rest;
            &&& date_days(text) == Some(
                day_number(moment.year as int, moment.month as int, moment.day as int),
            )
            &&& time_seconds(text) == Some(
                (3600 * moment.hour + 60 * moment.minute + moment.second) as int,
            )
        }),
{
    let text = moment.written(separator) + rest;
    lemma_characters(moment, separator, rest);
    lemma_year(moment.year);
    lemma_two(text, 0, moment.year / 100);
    lemma_two(text, 2, moment.year % 100);
    lemma_two(text, 5, moment.month);
    lemma_two(text, 8, moment.day);
    lemma_two(text, 11, moment.hour);
    lemma_two(text, 14, moment.minute);
    lemma_two(text, 17, moment.second);
}

/// The digits of a year are those of its century and those of the year within it.
proof fn lemma_year(year: nat)
    requires
        year <= 9999,
    ensures
        year / 1000 == year / 100 / 10,
        year / 10 % 10 == year % 100 / 10,
        year % 10 == year % 100 % 10,
        100 * (year / 100) + year % 100 == year,
        year / 100 < 100,
{
}

proof fn lemma_characters(moment: Moment, separator: char, rest: Seq<char>)
    ensures
        ({
            let text = moment.written(separator) + rest;
            &&& text.len() >= 19
            &&& text[0] == digit(moment.year / 1000)
            &&& text[1] == digit(moment.year / 100 % 10)
            &&& text[2] == digit(moment.year / 10 % 10)
            &&& text[3] == digit(moment.year % 10)
            &&& text[4] == '-'
            &&& text[5] == digit(moment.month / 10)
            &&& text[6] == digit(moment.month % 10)
            &&& text[7] == '-'
            &&& text[8] == digit(moment.day / 10)
            &&& text[9] == digit(moment.day % 10)
            &&& text[10] == separator
            &&& text[11] == digit(moment.hour / 10)
            &&& text[12] == digit(moment.hour % 10)
            &&& text[13] == ':'
            &&& text[14] == digit(moment.minute / 10)
            &&& text[15] == digit(moment.minute % 10)
            &&& text[16] == ':'
            &&& text[17] == digit(moment.second / 10)
            &&& text[18] == digit(moment.second % 10)
        }),
{
}

proof fn lemma_run(text: Seq<char>, at: int, n: nat)
    requires
        0 <= at,
        at + n < text.len(),
        forall|i: int| at <= i < at + n ==> is_digit(#[trigger] text[i]),
        !is_digit(text[at + n]),
    ensures
        digit_run(text, at) == n,
    decreases n,
{
    if n > 0 {
        lemma_run(text, at + 1, (n - 1) as nat);
    }
}

proof fn lemma_zone(text: Seq<char>, zone: Seq<char>, minutes: int)
    requires
        is_zone(zone, minutes),
    ensures
        offset_minutes(text + zone, text.len() as int) == Some(minutes),
        zone.len() > 0,
        !is_digit(zone[0]),
        zone[0] != '.',
{
    let whole = text + zone;
    let at = text.len() as int;
    if zone == seq!['Z'] || zone == seq!['z'] {
        assert(whole[at] == zone[0]);
        if minutes != 0 {
            let (sign, hours, rest) = choose|sign: char, hours: nat, rest: nat|
                #![trigger zone_text(sign, hours, rest)]
                {
                    &&& zone == zone_text(sign, hours, rest)
                    &&& hours <= 23
                    &&& rest <= 59
                    &&& sign == '+' && minutes == 60 * hours + rest || sign == '-' && minutes == -(
                    60 * hours + rest)
                };
            assert(zone_text(sign, hours, rest).len() == 6);
        }
    } else {
        let (sign, hours, rest) = choose|sign: char, hours: nat, rest: nat|
            #![trigger zone_text(sign, hours, rest)]
            {
                &&& zone == zone_text(sign, hours, rest)
                &&& hours <= 23
                &&& rest <= 59
                &&& sign == '+' && minutes == 60 * hours + rest || sign == '-' && minutes == -(60
                    * hours + rest)
            };
        assert(forall|i: int| 0 <= i < 6 ==> #[trigger] whole[at + i] == zone[i]);
        assert(whole[at] == whole[at + 0]);
        lemma_two(whole, at + 1, hours);
        lemma_two(whole, at + 4, rest);
    }
}

proof fn lemma_spelled_three(a: char, b: char, c: char)
    requires
        is_digit(a),
        is_digit(b),
        is_digit(c),
    ensures
        spelled(seq![a, b, c]) == 100 * digit_value(a) + 10 * digit_value(b) + digit_value(c),
{
    reveal_with_fuel(spelled, 4);
    let all = seq![a, b, c];
    assert(all.drop_last() =~= seq![a, b]);
    assert(seq![a, b].drop_last() =~= seq![a]);
    assert(seq![a].drop_last() =~= Seq::empty());
}

/// A timestamp is read as the moment it tells, in milliseconds since the start of
/// 1970 in UTC: its offset is taken off, and of a fraction of a second the whole
/// milliseconds are counted. It may be without a fraction, and its letters may be
/// capital or small.
#[verifier::rlimit(40)]
pub proof fn law_timestamps_are_read_as_their_moment(
    moment: Moment,
    separator: char,
    digits: Seq<char>,
    zone: Seq<char>,
    offset: int,
)
    requires
        moment.is_valid(),
        separator == 'T' || separator == 't',
        is_zone(zone, offset),
    ensures
        rfc3339_millis(moment.written(separator) + zone) matches Some(millis) && millis == 1000 * (
        moment.seconds() - 60 * offset),
        are_digits(digits) ==> (rfc3339_millis(
            moment.written(separator) + seq!['.'] + digits + zone,
        ) matches Some(millis) && millis == 1000 * (moment.seconds() - 60 * offset) + whole_millis(
            digits,
        )),
{
    let head = moment.written(separator);
    let days = day_number(moment.year as int, moment.month as int, moment.day as int);
    let seconds = (3600 * moment.hour + 60 * moment.minute + moment.second) as int;
    lemma_bounds(moment, zone, offset);
    lemma_moment(moment, separator, zone);
    lemma_zone(head, zone, offset);
    assert((head + zone)[19] == zone[0]);
    lemma_without_fraction(head + zone, days, seconds, offset);
    if are_digits(digits) {
        let rest = seq!['.'] + digits + zone;
        let text = head + seq!['.'] + digits + zone;
        assert(text =~= head + rest);
        lemma_moment(moment, separator, rest);
        lemma_zone(head + seq!['.'] + digits, zone, offset);
        lemma_fraction(head, digits, zone);
        lemma_with_fraction(text, days, seconds, offset);
    }
}

/// A date, a time and an offset in the range of a timestamp.
spec fn are_bounded(days: int, seconds: int, offset: int) -> bool {
    &&& -1_000_000 <= days <= 4_000_000
    &&& 0 <= seconds <= 86400
    &&& -1440 < offset < 1440
}

proof fn lemma_without_fraction(text: Seq<char>, days: int, seconds: int, offset: int)
    requires
        are_bounded(days, seconds, offset),
        date_days(text) == Some(days),
        time_seconds(text) == Some(seconds),
        !stands_at(text, 19, '.'),
        offset_minutes(text, 19) == Some(offset),
    ensures
        rfc3339_millis(text) matches Some(millis) && millis == 1000 * (86400 * days + seconds - 60
            * offset),
{
}

proof fn lemma_with_fraction(text: Seq<char>, days: int, seconds: int, offset: int)
    requires
        are_bounded(days, seconds, offset),
        date_days(text) == Some(days),
        time_seconds(text) == Some(seconds),
        stands_at(text, 19, '.'),
        digit_run(text, 20) > 0,
        0 <= fraction_millis(text, 20) <= 999,
        offset_minutes(text, 20 + digit_run(text, 20) as int) == Some(offset),
    ensures
        rfc3339_millis(text) matches Some(millis) && millis == 1000 * (86400 * days + seconds - 60
            * offset) + fraction_millis(text, 20),
{
}

proof fn lemma_fraction(head: Seq<char>, digits: Seq<char>, zone: Seq<char>)
    requires
        head.len() == 19,
        are_digits(digits),
        zone.len() > 0,
        !is_digit(zone[0]),
    ensures
        ({
            let text = head + seq!['.'] + digits + zone;
            &&& stands_at(text, 19, '.')
            &&& digit_run(text, 20) == digits.len()
            &&& fraction_millis(text, 20) == whole_millis(digits)
            &&& 0 <= whole_millis(digits) <= 999
        }),
{
    let text = head + seq!['.'] + digits + zone;
    assert(text[19] == '.');
    assert forall|i: int| 20 <= i < 20 + digits.len() implies is_digit(#[trigger] text[i]) by {
        assert(text[i] == digits[i - 20]);
    }
    assert(text[20 + digits.len() as int] == zone[0]);
    lemma_run(text, 20, digits.len());
    let padded = digits + seq!['0', '0', '0'];
    let a = padded[0];
    let b = padded[1];
    let c = padded[2];
    assert(padded.take(3) =~= seq![a, b, c]);
    assert(is_digit('0') && digit_value('0') == 0);
    assert(a == digits[0]);
    assert(text[20] == digits[0]);
    if digits.len() > 1 {
        assert(text[21] == digits[1]);
    }
    if digits.len() > 2 {
        assert(text[22] == digits[2]);
    }
    lemma_spelled_three(a, b, c);
    assert(fraction_digit(text, 20, 0) == digit_value(a));
    assert(fraction_digit(text, 20, 1) == digit_value(b));
    assert(fraction_digit(text, 20, 2) == digit_value(c));
}

proof fn lemma_bounds(moment: Moment, zone: Seq<char>, offset: int)
    requires
        moment.is_valid(),
        is_zone(zone, offset),
    ensures
        -1440 < offset < 1440,
        -1_000_000 <= day_number(moment.year as int, moment.month as int, moment.day as int)
            <= 4_000_000,
{
    lemma_days_before_year(moment.year as int);
    lemma_days_before_year(1970);
    reveal_with_fuel(days_before_month, 13);
    if offset != 0 {
        let (sign, hours, rest) = choose|sign: char, hours: nat, rest: nat|
            #![trigger zone_text(sign, hours, rest)]
            {
                &&& zone == zone_text(sign, hours, rest)
                &&& hours <= 23
                &&& rest <= 59
                &&& sign == '+' && offset == 60 * hours + rest || sign == '-' && offset == -(60
                    * hours + rest)
            };
    }
}

/// Only texts of that format are read: a date and a time that there are, digit by
/// digit, a fraction with a digit at least where there is a point, and an offset to
/// the end of the text.
pub proof fn law_other_texts_are_no_timestamps(text: Seq<char>)
    requires
        rfc3339_millis(text) is Some,
    ensures
        exists|moment: Moment, separator: char, rest: Seq<char>|
            #![trigger moment.written(separator) + rest]
            {
                &&& moment.is_valid()
                &&& separator == 'T' || separator == 't'
                &&& text == moment.written(separator) + rest
            },
        text.len() >= 20,
        text[19] == '.' ==> text.len() > 20 && is_digit(text[20]),
        text[19] != '.' ==> exists|offset: int| is_zone(text.skip(19), offset),
        text[19] == '.' ==> exists|end: int, offset: int|
            #![trigger is_zone(text.skip(end), offset)]
            {
                &&& 20 < end < text.len()
                &&& forall|i: int| 20 <= i < end ==> is_digit(#[trigger] text[i])
                &&& is_zone(text.skip(end), offset)
            },
{
    let value = |at: int| (10 * digit_value(text[at]) + digit_value(text[at + 1])) as nat;
    let moment = Moment {
        year: (100 * value(0) + value(2)) as nat,
        month: value(5),
        day: value(8),
        hour: value(11),
        minute: value(14),
        second: value(17),
    };
    let separator = text[10];
    let has_fraction = stands_at(text, 19, '.');
    let run: int = digit_run(text, 20) as int;
    let end: int = if has_fraction {
        20 + run
    } else {
        19
    };
    assert(date_days(text) is Some && time_seconds(text) is Some);
    assert(offset_minutes(text, end) is Some);
    lemma_read_zone(text, end);
    lemma_read_two(text, 0);
    lemma_read_two(text, 2);
    lemma_read_two(text, 5);
    lemma_read_two(text, 8);
    lemma_read_two(text, 11);
    lemma_read_two(text, 14);
    lemma_read_two(text, 17);
    let rest = text.skip(19);
    let year = moment.year;
    assert(year / 1000 == value(0) / 10 && year / 100 % 10 == value(0) % 10);
    assert(year / 10 % 10 == value(2) / 10 && year % 10 == value(2) % 10);
    assert(moment.written(separator) =~= text.take(19));
    assert(text =~= moment.written(separator) + rest);
    if has_fraction {
        lemma_run_is_digits(text, 20);
        let offset = offset_minutes(text, end)->Some_0;
        assert(is_zone(text.skip(end), offset));
    }
}

proof fn lemma_run_is_digits(text: Seq<char>, at: int)
    requires
        0 <= at <= text.len(),
    ensures
        at + digit_run(text, at) <= text.len(),
        forall|i: int| at <= i < at + digit_run(text, at) ==> is_digit(#[trigger] text[i]),
    decreases text.len() - at,
{
    if at < text.len() && is_digit(text[at]) {
        lemma_run_is_digits(text, at + 1);
    }
}

proof fn lemma_read_two(text: Seq<char>, at: int)
    requires
        two_digits(text, at) is Some,
    ensures
        0 <= at,
        at + 2 <= text.len(),
        ({
            let n = (10 * digit_value(text[at]) + digit_value(text[at + 1])) as nat;
            &&& two_digits(text, at) == Some(n as int)
            &&& n < 100
            &&& text[at] == digit(n / 10)
            &&& text[at + 1] == digit(n % 10)
        }),
{
    let a = digit_value(text[at]);
    let b = digit_value(text[at + 1]);
    let n = (10 * a + b) as nat;
    assert(n / 10 == a && n % 10 == b);
    assert(text[at] as int == 48 + a);
}

proof fn lemma_read_zone(text: Seq<char>, at: int)
    requires
        offset_minutes(text, at) is Some,
        0 <= at,
    ensures
        at < text.len(),
        is_zone(text.skip(at), offset_minutes(text, at)->Some_0),
{
    let zone = text.skip(at);
    if text.len() == at + 1 {
        assert(zone =~= seq![text[at]]);
    } else {
        lemma_read_two(text, at + 1);
        lemma_read_two(text, at + 4);
        let hours = two_digits(text, at + 1)->Some_0 as nat;
        let minutes = two_digits(text, at + 4)->Some_0 as nat;
        assert(zone =~= zone_text(text[at], hours, minutes));
    }
}

} // verus!
