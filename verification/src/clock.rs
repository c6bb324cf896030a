//! Civil date and time of day, without a time zone: what a task's due time
//! and the scheduler's "now" are made of.
//!
//! A [`CivilTime`] holds plain calendar fields. Whether the fields name a real
//! moment, and how many seconds lie between that moment and the Unix epoch, is
//! asked of `chrono`; everything else (the canonical text form, its parser,
//! the time label) is computed and proved here.

use vstd::prelude::*;
use crate::text::{
    char_is_digit, digit_char, digit_from_value, digit_to_value, digit_value, is_digit,
    lemma_digit_round_trip, push_char,
};

verus! {

/// The largest year that the canonical four-digit form can carry.
pub const MAX_YEAR: i32 = 9999;

/// The number of characters of the canonical form `YYYY-MM-DD:HH:MM`.
pub const CANONICAL_LEN: usize = 16;

/// Gregorian leap-year rule.
pub open spec fn is_leap_year(year: int) -> bool {
    year % 4 == 0 && (year % 100 != 0 || year % 400 == 0)
}

/// The number of days of `month` in `year`.
pub open spec fn days_in_month(year: int, month: int) -> int {
    if month == 2 {
        if is_leap_year(year) {
            29
        } else {
            28
        }
    } else if month == 4 || month == 6 || month == 9 || month == 11 {
        30
    } else {
        31
    }
}

/// The number of days of `year` that lie before the first of `month`.
pub open spec fn days_before_month(year: int, month: int) -> int
    decreases month,
{
    if month <= 1 {
        0
    } else {
        days_before_month(year, month - 1) + days_in_month(year, month - 1)
    }
}

/// The number of leap years among the years `1..=year` (and, for `year < 1`,
/// minus the number of leap years among `year + 1..=0`).
pub open spec fn leap_years_through(year: int) -> int {
    year / 4 - year / 100 + year / 400
}

/// The number of days from 1970-01-01 to the given date (negative before it).
pub open spec fn days_from_epoch(year: int, month: int, day: int) -> int {
    365 * (year - 1970) + (leap_years_through(year - 1) - leap_years_through(1969))
        + days_before_month(year, month) + (day - 1)
}

/// Whether the six fields name a real moment of the proleptic Gregorian
/// calendar with a year of at most four digits.
pub open spec fn fields_valid(
    year: int,
    month: int,
    day: int,
    hour: int,
    minute: int,
    second: int,
) -> bool {
    &&& 0 <= year <= MAX_YEAR
    &&& 1 <= month <= 12
    &&& 1 <= day <= days_in_month(year, month)
    &&& 0 <= hour < 24
    &&& 0 <= minute < 60
    &&& 0 <= second < 60
}

/// The number of seconds from 1970-01-01 00:00:00 to the given moment, leap
/// seconds not counted.
pub open spec fn seconds_from_epoch(
    year: int,
    month: int,
    day: int,
    hour: int,
    minute: int,
    second: int,
) -> int {
    days_from_epoch(year, month, day) * 86400 + hour * 3600 + minute * 60 + second
}

/// Asks `chrono` for the Unix timestamp of a civil time.
///
/// The fields are turned into a `chrono::NaiveDateTime` with
/// `NaiveDate::from_ymd_opt` and `NaiveDate::and_hms_opt`, which refuse a day
/// that the calendar does not have and a time of day out of range; the result
/// is `None` exactly then. Otherwise it is what
/// `NaiveDateTime::and_utc().timestamp()` returns: the number of non-leap
/// seconds since 1970-01-01 00:00:00.
#[verifier::external_body]
fn chrono_timestamp(year: i32, month: u32, day: u32, hour: u32, minute: u32, second: u32) -> (seconds:
    Option<i64>)
    requires
        0 <= year <= MAX_YEAR,
    ensures
        seconds is Some <==> fields_valid(
            year as int,
            month as int,
            day as int,
            hour as int,
            minute as int,
            second as int,
        ),
        seconds matches Some(s) ==> s == seconds_from_epoch(
            year as int,
            month as int,
            day as int,
            hour as int,
            minute as int,
            second as int,
        ),
{
    let date = chrono::NaiveDate::from_ymd_opt(year, month, day)?;
    let moment = date.and_hms_opt(hour, minute, second)?;
    Some(moment.and_utc().timestamp())
}

/// A calendar date and a time of day, to the second, with no time zone.
#[derive(Clone, Copy, Debug, PartialEq, Eq, Structural)]
pub struct CivilTime {
    pub year: i32,
    pub month: u32,
    pub day: u32,
    pub hour: u32,
    pub minute: u32,
    pub second: u32,
}

/// Two decimal digits for `n`, zero-padded.
pub open spec fn two_digits(n: int) -> Seq<char>
    recommends
        0 <= n < 100,
{
    seq![digit_char(n / 10), digit_char(n % 10)]
}

/// Four decimal digits for `n`, zero-padded.
pub open spec fn four_digits(n: int) -> Seq<char>
    recommends
        0 <= n < 10000,
{
    seq![digit_char(n / 1000), digit_char((n / 100) % 10), digit_char((n / 10) % 10), digit_char(n % 10)]
}

/// The number that the two digits at `at` and `at + 1` of `s` spell.
pub open spec fn two_digit_value(s: Seq<char>, at: int) -> int
    recommends
        0 <= at,
        at + 2 <= s.len(),
{
    10 * digit_value(s[at]) + digit_value(s[at + 1])
}

/// The number that the four digits from `at` on spell.
pub open spec fn four_digit_value(s: Seq<char>, at: int) -> int
    recommends
        0 <= at,
        at + 4 <= s.len(),
{
    1000 * digit_value(s[at]) + 100 * digit_value(s[at + 1]) + 10 * digit_value(s[at + 2])
        + digit_value(s[at + 3])
}

/// Whether `s` begins with a date of the shape `dddd-dd-dd`, each `d` a
/// decimal digit.
pub open spec fn date_shape(s: Seq<char>) -> bool {
    &&& s.len() >= 10
    &&& is_digit(s[0]) && is_digit(s[1]) && is_digit(s[2]) && is_digit(s[3])
    &&& s[4] == '-'
    &&& is_digit(s[5]) && is_digit(s[6])
    &&& s[7] == '-'
    &&& is_digit(s[8]) && is_digit(s[9])
}

/// Whether `s` has the shape `dddd-dd-dd:dd:dd`, each `d` a decimal digit.
pub open spec fn canonical_shape(s: Seq<char>) -> bool {
    &&& s.len() == CANONICAL_LEN
    &&& date_shape(s)
    &&& s[10] == ':'
    &&& is_digit(s[11]) && is_digit(s[12])
    &&& s[13] == ':'
    &&& is_digit(s[14]) && is_digit(s[15])
}

/// The civil time that a text of canonical shape spells, whether or not the
/// calendar has it.
pub open spec fn spelled_time(s: Seq<char>) -> CivilTime
    recommends
        canonical_shape(s),
{
    CivilTime {
        year: four_digit_value(s, 0) as i32,
        month: two_digit_value(s, 5) as u32,
        day: two_digit_value(s, 8) as u32,
        hour: two_digit_value(s, 11) as u32,
        minute: two_digit_value(s, 14) as u32,
        second: 0,
    }
}

/// What a canonical text means: the moment it spells, if it has the canonical
/// shape and the calendar has that moment.
pub open spec fn parse_canonical_spec(s: Seq<char>) -> Option<CivilTime> {
    if canonical_shape(s) && spelled_time(s).is_valid() {
        Some(spelled_time(s))
    } else {
        None
    }
}

impl CivilTime {
    /// Whether the fields name a real moment.
    pub open spec fn is_valid(&self) -> bool {
        fields_valid(
            self.year as int,
            self.month as int,
            self.day as int,
            self.hour as int,
            self.minute as int,
            self.second as int,
        )
    }

    /// Whether this is a valid moment on a full minute, as a task's due time is.
    pub open spec fn is_minute(&self) -> bool {
        self.is_valid() && self.second == 0
    }

    /// Seconds since the Unix epoch, the scale on which moments are compared.
    pub open spec fn seconds(&self) -> int {
        seconds_from_epoch(
            self.year as int,
            self.month as int,
            self.day as int,
            self.hour as int,
            self.minute as int,
            self.second as int,
        )
    }

    /// The canonical text `YYYY-MM-DD:HH:MM`; seconds are not written.
    pub open spec fn canonical_text(&self) -> Seq<char> {
        four_digits(self.year as int) + seq!['-'] + two_digits(self.month as int) + seq!['-']
            + two_digits(self.day as int) + seq![':'] + two_digits(self.hour as int) + seq![':']
            + two_digits(self.minute as int)
    }

    /// The label `HH` hour-sign `MM` minute-sign under which a notification
    /// names the due time.
    pub open spec fn label_text(&self) -> Seq<char> {
        two_digits(self.hour as int) + seq!['時'] + two_digits(self.minute as int) + seq!['分']
    }

    /// Builds a civil time from its fields, if they name a real moment.
    pub fn new(year: i32, month: u32, day: u32, hour: u32, minute: u32, second: u32) -> (made:
        Option<CivilTime>)
        ensures
            made == (if fields_valid(
                year as int,
                month as int,
                day as int,
                hour as int,
                minute as int,
                second as int,
            ) {
                Some(CivilTime { year, month, day, hour, minute, second })
            } else {
                None
            }),
    {
        if year < 0 || year > MAX_YEAR {
            return None;
        }
        match chrono_timestamp(year, month, day, hour, minute, second) {
            Some(_) => Some(CivilTime { year, month, day, hour, minute, second }),
            None => None,
        }
    }

    /// Whether the fields name a real moment.
    pub fn check_valid(&self) -> (valid: bool)
        ensures
            valid == self.is_valid(),
    {
        if self.year < 0 || self.year > MAX_YEAR {
            return false;
        }
        chrono_timestamp(self.year, self.month, self.day, self.hour, self.minute, self.second).is_some()
    }

    /// Seconds since the Unix epoch.
    pub fn unix_seconds(&self) -> (seconds: i64)
        requires
            self.is_valid(),
        ensures
            seconds == self.seconds(),
    {
        match chrono_timestamp(self.year, self.month, self.day, self.hour, self.minute, self.second) {
            Some(s) => s,
            None => 0,
        }
    }

    /// Writes the canonical text `YYYY-MM-DD:HH:MM`.
    pub fn canonical(&self) -> (text: String)
        requires
            self.is_valid(),
        ensures
            text@ == self.canonical_text(),
    {
        let mut text = String::new();
        let year: u32 = self.year as u32;
        push_char(&mut text, digit_from_value(year / 1000));
        push_char(&mut text, digit_from_value((year / 100) % 10));
        push_char(&mut text, digit_from_value((year / 10) % 10));
        push_char(&mut text, digit_from_value(year % 10));
        push_char(&mut text, '-');
        push_two_digits(&mut text, self.month);
        push_char(&mut text, '-');
        push_two_digits(&mut text, self.day);
        push_char(&mut text, ':');
        push_two_digits(&mut text, self.hour);
        push_char(&mut text, ':');
        push_two_digits(&mut text, self.minute);
        assert(text@ =~= self.canonical_text());
        text
    }

    /// Writes the time label of a notification.
    pub fn time_label(&self) -> (label: String)
        requires
            self.is_valid(),
        ensures
            label@ == self.label_text(),
    {
        let mut label = String::new();
        push_two_digits(&mut label, self.hour);
        push_char(&mut label, '時');
        push_two_digits(&mut label, self.minute);
        push_char(&mut label, '分');
        assert(label@ =~= self.label_text());
        label
    }

    /// Reads a canonical text `YYYY-MM-DD:HH:MM` given as characters.
    pub fn parse_canonical(chars: &Vec<char>) -> (parsed: Option<CivilTime>)
        ensures
            parsed == parse_canonical_spec(chars@),
    {
        if !has_canonical_shape(chars) {
            return None;
        }
        let year = 1000 * digit_to_value(chars[0]) + 100 * digit_to_value(chars[1]) + 10
            * digit_to_value(chars[2]) + digit_to_value(chars[3]);
        let month = 10 * digit_to_value(chars[5]) + digit_to_value(chars[6]);
        let day = 10 * digit_to_value(chars[8]) + digit_to_value(chars[9]);
        let hour = 10 * digit_to_value(chars[11]) + digit_to_value(chars[12]);
        let minute = 10 * digit_to_value(chars[14]) + digit_to_value(chars[15]);
        CivilTime::new(year as i32, month, day, hour, minute, 0)
    }
}

/// Appends `n` as two zero-padded digits.
fn push_two_digits(text: &mut String, n: u32)
    requires
        n < 100,
    ensures
        final(text)@ == old(text)@ + two_digits(n as int),
{
    push_char(text, digit_from_value(n / 10));
    push_char(text, digit_from_value(n % 10));
    assert(text@ =~= old(text)@ + two_digits(n as int));
}

/// Tests the canonical shape, character by character.
fn has_canonical_shape(chars: &Vec<char>) -> (yes: bool)
    ensures
        yes == canonical_shape(chars@),
{
    chars.len() == CANONICAL_LEN && char_is_digit(chars[0]) && char_is_digit(chars[1])
        && char_is_digit(chars[2]) && char_is_digit(chars[3]) && chars[4] == '-' && char_is_digit(
        chars[5],
    ) && char_is_digit(chars[6]) && chars[7] == '-' && char_is_digit(chars[8]) && char_is_digit(
        chars[9],
    ) && chars[10] == ':' && char_is_digit(chars[11]) && char_is_digit(chars[12]) && chars[13]
        == ':' && char_is_digit(chars[14]) && char_is_digit(chars[15])
}

/// The two-digit form of a number below a hundred is made of digits and
/// spells the number.
proof fn lemma_value_of_two_digits(n: int)
    requires
        0 <= n < 100,
    ensures
        two_digits(n).len() == 2,
        is_digit(two_digits(n)[0]),
        is_digit(two_digits(n)[1]),
        two_digit_value(two_digits(n), 0) == n,
{
    lemma_digit_round_trip();
    assert(0 <= n / 10 <= 9 && 0 <= n % 10 <= 9);
    assert(digit_value(digit_char(n / 10)) == n / 10);
    assert(digit_value(digit_char(n % 10)) == n % 10);
}

/// The four-digit form of a number below ten thousand is made of digits and
/// spells the number.
proof fn lemma_value_of_four_digits(n: int)
    requires
        0 <= n < 10000,
    ensures
        four_digits(n).len() == 4,
        is_digit(four_digits(n)[0]),
        is_digit(four_digits(n)[1]),
        is_digit(four_digits(n)[2]),
        is_digit(four_digits(n)[3]),
        four_digit_value(four_digits(n), 0) == n,
{
    lemma_digit_round_trip();
    let a = n / 1000;
    let b = (n / 100) % 10;
    let c = (n / 10) % 10;
    let d = n % 10;
    assert(0 <= a <= 9 && 0 <= b <= 9 && 0 <= c <= 9 && 0 <= d <= 9);
    assert(n == 1000 * a + 100 * b + 10 * c + d);
    assert(digit_value(digit_char(a)) == a);
    assert(digit_value(digit_char(b)) == b);
    assert(digit_value(digit_char(c)) == c);
    assert(digit_value(digit_char(d)) == d);
}

/// Reading the canonical text of a full-minute moment gives the moment back.
pub proof fn lemma_canonical_then_parse(moment: CivilTime)
    requires
        moment.is_minute(),
    ensures
        parse_canonical_spec(moment.canonical_text()) == Some(moment),
{
    let s = moment.canonical_text();
    let year = four_digits(moment.year as int);
    let month = two_digits(moment.month as int);
    let day = two_digits(moment.day as int);
    let hour = two_digits(moment.hour as int);
    let minute = two_digits(moment.minute as int);
    lemma_value_of_four_digits(moment.year as int);
    lemma_value_of_two_digits(moment.month as int);
    lemma_value_of_two_digits(moment.day as int);
    lemma_value_of_two_digits(moment.hour as int);
    lemma_value_of_two_digits(moment.minute as int);
    assert(s.len() == 16);
    assert(s[0] == year[0] && s[1] == year[1] && s[2] == year[2] && s[3] == year[3]);
    assert(s[4] == '-' && s[7] == '-' && s[10] == ':' && s[13] == ':');
    assert(s[5] == month[0] && s[6] == month[1]);
    assert(s[8] == day[0] && s[9] == day[1]);
    assert(s[11] == hour[0] && s[12] == hour[1]);
    assert(s[14] == minute[0] && s[15] == minute[1]);
    assert(four_digit_value(s, 0) == four_digit_value(year, 0));
    assert(two_digit_value(s, 5) == two_digit_value(month, 0));
    assert(two_digit_value(s, 8) == two_digit_value(day, 0));
    assert(two_digit_value(s, 11) == two_digit_value(hour, 0));
    assert(two_digit_value(s, 14) == two_digit_value(minute, 0));
    assert(canonical_shape(s));
    assert(spelled_time(s) == moment);
}

/// Two digits spell a number whose two-digit form is those digits.
proof fn lemma_two_digits_of_value(s: Seq<char>, at: int)
    requires
        0 <= at,
        at + 2 <= s.len(),
        is_digit(s[at]),
        is_digit(s[at + 1]),
    ensures
        0 <= two_digit_value(s, at) < 100,
        two_digits(two_digit_value(s, at)) == s.subrange(at, at + 2),
{
    lemma_digit_round_trip();
    let a = digit_value(s[at]);
    let b = digit_value(s[at + 1]);
    assert(0 <= a <= 9 && 0 <= b <= 9);
    assert((10 * a + b) / 10 == a && (10 * a + b) % 10 == b);
    assert(two_digits(10 * a + b) =~= s.subrange(at, at + 2));
}

/// Four digits spell a number whose four-digit form is those digits.
proof fn lemma_four_digits_of_value(s: Seq<char>, at: int)
    requires
        0 <= at,
        at + 4 <= s.len(),
        is_digit(s[at]),
        is_digit(s[at + 1]),
        is_digit(s[at + 2]),
        is_digit(s[at + 3]),
    ensures
        0 <= four_digit_value(s, at) < 10000,
        four_digits(four_digit_value(s, at)) == s.subrange(at, at + 4),
{
    lemma_digit_round_trip();
    let a = digit_value(s[at]);
    let b = digit_value(s[at + 1]);
    let c = digit_value(s[at + 2]);
    let d = digit_value(s[at + 3]);
    assert(0 <= a <= 9 && 0 <= b <= 9 && 0 <= c <= 9 && 0 <= d <= 9);
    let n = 1000 * a + 100 * b + 10 * c + d;
    assert(n / 1000 == a);
    assert(n / 100 == 10 * a + b);
    assert(n / 10 == 100 * a + 10 * b + c);
    assert((n / 100) % 10 == b);
    assert((n / 10) % 10 == c);
    assert(n % 10 == d);
    assert(four_digits(n) =~= s.subrange(at, at + 4));
}

/// Writing a moment that was read from a canonical text gives that text back,
/// character for character.
pub proof fn lemma_parse_then_canonical(s: Seq<char>)
    requires
        parse_canonical_spec(s) is Some,
    ensures
        parse_canonical_spec(s)->0.is_minute(),
        parse_canonical_spec(s)->0.canonical_text() == s,
{
    let moment = spelled_time(s);
    lemma_four_digits_of_value(s, 0);
    lemma_two_digits_of_value(s, 5);
    lemma_two_digits_of_value(s, 8);
    lemma_two_digits_of_value(s, 11);
    lemma_two_digits_of_value(s, 14);
    assert(moment.year == four_digit_value(s, 0));
    assert(moment.month == two_digit_value(s, 5));
    assert(moment.day == two_digit_value(s, 8));
    assert(moment.hour == two_digit_value(s, 11));
    assert(moment.minute == two_digit_value(s, 14));
    assert(s =~= s.subrange(0, 4) + seq!['-'] + s.subrange(5, 7) + seq!['-'] + s.subrange(8, 10)
        + seq![':'] + s.subrange(11, 13) + seq![':'] + s.subrange(14, 16));
}

/// Calendar order: `a` comes before `b` when it does so by year, or else by
/// month, day, hour, minute or second, in that order.
pub open spec fn is_before(a: CivilTime, b: CivilTime) -> bool {
    ||| a.year < b.year
    ||| a.year == b.year && a.month < b.month
    ||| a.year == b.year && a.month == b.month && a.day < b.day
    ||| a.year == b.year && a.month == b.month && a.day == b.day && a.hour < b.hour
    ||| a.year == b.year && a.month == b.month && a.day == b.day && a.hour == b.hour && a.minute
        < b.minute
    ||| a.year == b.year && a.month == b.month && a.day == b.day && a.hour == b.hour && a.minute
        == b.minute && a.second < b.second
}

/// The number of days of `year`.
pub open spec fn days_in_year(year: int) -> int {
    if is_leap_year(year) {
        366
    } else {
        365
    }
}

/// The months of a year add up to the year, and no month begins before an
/// earlier one ends.
proof fn lemma_days_before_month(year: int, earlier: int, later: int)
    requires
        1 <= earlier <= later <= 13,
    ensures
        days_before_month(year, 13) == days_in_year(year),
        days_before_month(year, earlier) <= days_before_month(year, later),
        earlier < later ==> days_before_month(year, earlier) + days_in_month(year, earlier)
            <= days_before_month(year, later),
    decreases later - earlier,
{
    reveal_with_fuel(days_before_month, 14);
    if earlier < later {
        lemma_days_before_month(year, earlier + 1, later);
    }
}

/// New Year's Day of the next year comes as many days after this year's as
/// this year is long.
proof fn lemma_year_length(year: int)
    ensures
        days_from_epoch(year + 1, 1, 1) == days_from_epoch(year, 1, 1) + days_in_year(year),
{
    assert(year / 4 - (year - 1) / 4 == if year % 4 == 0 { 1int } else { 0int });
    assert(year / 100 - (year - 1) / 100 == if year % 100 == 0 { 1int } else { 0int });
    assert(year / 400 - (year - 1) / 400 == if year % 400 == 0 { 1int } else { 0int });
    assert(year % 100 == 0 ==> year % 4 == 0);
    assert(year % 400 == 0 ==> year % 100 == 0);
    assert(leap_years_through(year) - leap_years_through(year - 1) == if is_leap_year(year) {
        1int
    } else {
        0int
    });
    assert(days_before_month(year, 1) == 0 && days_before_month(year + 1, 1) == 0);
}

/// New Year's Days come in the order of their years.
proof fn lemma_year_starts_in_order(earlier: int, later: int)
    requires
        earlier <= later,
    ensures
        days_from_epoch(earlier, 1, 1) <= days_from_epoch(later, 1, 1),
    decreases later - earlier,
{
    if earlier < later {
        lemma_year_starts_in_order(earlier, later - 1);
        lemma_year_length(later - 1);
    }
}

/// Where a date lies within its year.
proof fn lemma_day_within_year(year: int, month: int, day: int)
    requires
        1 <= month <= 12,
        1 <= day <= days_in_month(year, month),
    ensures
        days_from_epoch(year, 1, 1) <= days_from_epoch(year, month, day) < days_from_epoch(
            year,
            1,
            1,
        ) + days_in_year(year),
{
    reveal_with_fuel(days_before_month, 2);
    lemma_days_before_month(year, 1, month);
    lemma_days_before_month(year, month, 13);
}

/// The seconds of a real moment lie well within 64 bits.
pub proof fn lemma_seconds_bounds(moment: CivilTime)
    requires
        moment.is_valid(),
    ensures
        -100_000_000_000 < moment.seconds() < 400_000_000_000,
{
    let year = moment.year as int;
    lemma_day_within_year(year, moment.month as int, moment.day as int);
    assert(-1 <= (year - 1) / 4 <= 2500);
    assert(-1 <= (year - 1) / 100 <= 100);
    assert(-1 <= (year - 1) / 400 <= 25);
    assert(days_before_month(year, 1) == 0);
}

/// The scale of seconds follows the calendar: of two real moments, the one
/// that comes first in the calendar has the smaller number of seconds, and
/// only equal moments have equal numbers.
pub proof fn lemma_seconds_follow_the_calendar(a: CivilTime, b: CivilTime)
    requires
        a.is_valid(),
        b.is_valid(),
    ensures
        is_before(a, b) <==> a.seconds() < b.seconds(),
        a == b <==> a.seconds() == b.seconds(),
{
    lemma_before_means_fewer_seconds(a, b);
    lemma_before_means_fewer_seconds(b, a);
}

/// One direction of [`lemma_seconds_follow_the_calendar`].
proof fn lemma_before_means_fewer_seconds(a: CivilTime, b: CivilTime)
    requires
        a.is_valid(),
        b.is_valid(),
    ensures
        is_before(a, b) ==> a.seconds() < b.seconds(),
{
    let days_a = days_from_epoch(a.year as int, a.month as int, a.day as int);
    let days_b = days_from_epoch(b.year as int, b.month as int, b.day as int);
    if a.year < b.year {
        lemma_day_within_year(a.year as int, a.month as int, a.day as int);
        lemma_day_within_year(b.year as int, b.month as int, b.day as int);
        lemma_year_length(a.year as int);
        lemma_year_starts_in_order(a.year as int + 1, b.year as int);
        assert(days_a < days_b);
    } else if a.year == b.year && a.month < b.month {
        lemma_days_before_month(a.year as int, a.month as int, b.month as int);
        assert(days_a < days_b);
    }
}

} // verus!
