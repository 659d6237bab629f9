//! Points in time: how they are read from texts, and how they are written.
use vstd::prelude::*;
use vstd::string::*;
use crate::text::{all_digits, decimal, digits_value, padded, padded_reads_back};

verus! {

/// Whether `year` is a leap year.
pub open spec fn is_leap(year: int) -> bool {
    year % 4 == 0 && (year % 100 != 0 || year % 400 == 0)
}

/// How many days the month has.
pub open spec fn days_in_month(year: int, month: int) -> int {
    if month == 2 {
        if is_leap(year) {
            29
        } else {
            28
        }
    } else if month == 4 || month == 6 || month == 9 || month == 11 {
        30
    } else {
        31
    }
}

/// How many days of the year lie before the month.
pub open spec fn days_before_month(year: int, month: int) -> int
    decreases month,
{
    if month <= 1 {
        0
    } else {
        days_before_month(year, month - 1) + days_in_month(year, month - 1)
    }
}

/// How many days lie between the beginning of the year 1 and that of `year`.
pub open spec fn days_before_year(year: int) -> int {
    365 * (year - 1) + (year - 1) / 4 - (year - 1) / 100 + (year - 1) / 400
}

/// How many days lie between the beginning of the year 1970 and the day.
pub open spec fn unix_days(year: int, month: int, day: int) -> int {
    days_before_year(year) - days_before_year(1970) + days_before_month(year, month) + day - 1
}

/// Whether there is such a day in the Gregorian calendar.
pub open spec fn day_exists(year: int, month: int, day: int) -> bool {
    1 <= month <= 12 && 1 <= day <= days_in_month(year, month)
}

/// How many microseconds lie between the beginning of the year 1970 and the point
/// in time, both in UTC.
pub open spec fn unix_micros(
    year: int,
    month: int,
    day: int,
    hour: int,
    minute: int,
    second: int,
) -> int {
    (unix_days(year, month, day) * 86400 + hour * 3600 + minute * 60 + second) * 1_000_000
}

/// A year in four digits. Before the year 0 and after the year 9999 it has a sign, and
/// as many digits more as it needs.
pub open spec fn year_text(year: int) -> Seq<char> {
    if year < 0 {
        "-"@ + padded((-year) as nat, 4)
    } else if year <= 9999 {
        padded(year as nat, 4)
    } else {
        "+"@ + padded(year as nat, 4)
    }
}

/// The parts of a point in time.
#[derive(Debug, Clone, Copy, PartialEq, Eq, Structural)]
pub struct TimeParts {
    pub year: i32,
    pub month: i32,
    pub day: i32,
    pub hour: i32,
    pub minute: i32,
    pub second: i32,
}

impl TimeParts {
    /// Whether each part is in the range that it has in a date and a time of day.
    pub open spec fn in_range(self) -> bool {
        &&& 0 <= self.year <= 9999
        &&& 1 <= self.month <= 12
        &&& 1 <= self.day <= 31
        &&& 0 <= self.hour <= 23
        &&& 0 <= self.minute <= 59
        &&& 0 <= self.second <= 59
    }

    /// The date as `2024-01-31`.
    pub open spec fn date_text(self) -> Seq<char> {
        year_text(self.year as int) + "-"@ + padded(self.month as nat, 2) + "-"@ + padded(
            self.day as nat,
            2,
        )
    }

    /// The time of day as `23:59:59`.
    pub open spec fn clock_text(self) -> Seq<char> {
        padded(self.hour as nat, 2) + ":"@ + padded(self.minute as nat, 2) + ":"@ + padded(
            self.second as nat,
            2,
        )
    }

    /// The point in time as `2024-01-31 23:59:59`.
    pub open spec fn text(self) -> Seq<char> {
        self.date_text() + " "@ + self.clock_text()
    }

    /// Whether the parts are in their ranges and the day exists.
    pub open spec fn exists_in_calendar(self) -> bool {
        self.in_range() && day_exists(self.year as int, self.month as int, self.day as int)
    }

    /// Whether there is such a point in time, in whatever year.
    pub open spec fn is_time(self) -> bool {
        &&& day_exists(self.year as int, self.month as int, self.day as int)
        &&& 0 <= self.hour <= 23
        &&& 0 <= self.minute <= 59
        &&& 0 <= self.second <= 59
    }

    /// Whether these are the parts of the point in time so many seconds after the
    /// beginning of the year 1970, in UTC.
    pub open spec fn is_at(self, seconds: int) -> bool {
        self.is_time() && unix_micros(
            self.year as int,
            self.month as int,
            self.day as int,
            self.hour as int,
            self.minute as int,
            self.second as int,
        ) == seconds * 1_000_000
    }

    /// The microseconds between the beginning of the year 1970 and the point in
    /// time, where its parts are in range and the day exists.
    pub open spec fn micros(self) -> Option<i64> {
        if self.in_range() && day_exists(self.year as int, self.month as int, self.day as int) {
            Some(
                unix_micros(
                    self.year as int,
                    self.month as int,
                    self.day as int,
                    self.hour as int,
                    self.minute as int,
                    self.second as int,
                ) as i64,
            )
        } else {
            None
        }
    }
}

/// `NaiveDate::from_ymd_opt`, `NaiveDate::and_hms_opt` and
/// `DateTime::timestamp_micros` of the crate `chrono`: the point in time with
/// these parts exists where the day exists in the Gregorian calendar and the
/// parts of the time are in their ranges, and is then given by the microseconds
/// since the beginning of the year 1970.
#[verifier::external_body]
pub(crate) fn civil_micros(
    year: i32,
    month: u32,
    day: u32,
    hour: u32,
    minute: u32,
    second: u32,
) -> (r: Option<i64>)
    requires
        0 <= year <= 9999,
    ensures
        match r {
            Some(us) => day_exists(year as int, month as int, day as int) && hour < 24 && minute
                < 60 && second < 60 && us == unix_micros(
                year as int,
                month as int,
                day as int,
                hour as int,
                minute as int,
                second as int,
            ),
            None => !(day_exists(year as int, month as int, day as int) && hour < 24 && minute < 60
                && second < 60),
        },
{
    let date = chrono::NaiveDate::from_ymd_opt(year, month, day)?;
    let point = date.and_hms_opt(hour, minute, second)?;
    Some(point.and_utc().timestamp_micros())
}

/// The pattern for a date.
pub const DATE_PATTERN: &'static str = "%Y-%m-%d";

/// The pattern for a date and a time of day in seconds.
pub const TIME_PATTERN: &'static str = "%Y-%m-%d %H:%M:%S";

/// The microseconds since the beginning of the year 1970 of the point in time
/// that a text in the format of RFC 3339 stands for.
pub uninterp spec fn rfc3339_micros(text: Seq<char>) -> Option<i64>;

/// `DateTime::parse_from_rfc3339` of the crate `chrono` reads a text in the format
/// of RFC 3339. Whether it succeeds, and which point in time it gives, depends on
/// the text alone. A text on which it succeeds begins with the date, in ten
/// characters, and goes on for at least nine more; the result written by
/// `DateTime::format` after the pattern for a date is that beginning.
#[verifier::external_body]
pub(crate) fn parse_rfc3339(text: &str, pattern: &str) -> (r: Option<(i64, String)>)
    requires
        pattern@ == DATE_PATTERN@,
    ensures
        match r {
            Some((us, date)) => rfc3339_micros(text@) == Some(us) && text@.len() >= 19
                && vstd::utf8::is_ascii_chars(text@.take(19)) && date@ == text@.take(10),
            None => rfc3339_micros(text@) is None,
        },
{
    let point = chrono::DateTime::parse_from_rfc3339(text).ok()?;
    Some((point.timestamp_micros(), point.format(pattern).to_string()))
}

/// The microseconds since the beginning of the year 1970 of the point in time,
/// taken as UTC, that a text stands for that follows a pattern.
pub uninterp spec fn pattern_micros(text: Seq<char>, pattern: Seq<char>) -> Option<i64>;

/// `NaiveDateTime::parse_from_str` of the crate `chrono` reads a point in time from
/// a text that follows a pattern. Whether it succeeds, and which point in time it
/// gives, depends on the text and the pattern alone.
#[verifier::external_body]
pub(crate) fn parse_pattern(text: &str, pattern: &str) -> (r: Option<i64>)
    ensures
        r == pattern_micros(text@, pattern@),
{
    let point = chrono::NaiveDateTime::parse_from_str(text, pattern).ok()?;
    Some(point.and_utc().timestamp_micros())
}

/// The range of the points in time that can be written, in seconds since the
/// beginning of the year 1970: the years -262143 to 262142.
pub open spec fn writable_seconds(seconds: int) -> bool {
    -8_334_601_228_800 <= seconds <= 8_210_266_876_799
}

/// The parts of the point in time so many seconds after the beginning of the year
/// 1970, in UTC.
pub open spec fn parts_at(seconds: int) -> TimeParts {
    choose|parts: TimeParts| parts.is_at(seconds)
}

/// The point in time with these parts, written after a pattern.
pub open spec fn parts_text(parts: TimeParts, pattern: Seq<char>) -> Seq<char> {
    if pattern == DATE_PATTERN@ {
        parts.date_text()
    } else {
        parts.text()
    }
}

/// Whether a text is a point in time, in UTC, written after a pattern.
pub open spec fn writes(text: Seq<char>, seconds: int, pattern: Seq<char>) -> bool {
    exists|parts: TimeParts| #[trigger]
        parts.is_at(seconds) && text == parts_text(parts, pattern)
}

/// The point in time so many seconds after the beginning of the year 1970, in
/// UTC, written after a pattern.
pub open spec fn pattern_text(seconds: i64, pattern: Seq<char>) -> Seq<char> {
    parts_text(parts_at(seconds as int), pattern)
}

/// `DateTime::format` of the crate `chrono` writes a point in time after a pattern:
/// the date, or the date and the time of day, with leading zeros. A year before 0 or
/// after 9999 has a sign.
#[verifier::external_body]
fn format_utc(seconds: i64, pattern: &str) -> (r: String)
    requires
        writable_seconds(seconds as int),
        pattern@ == DATE_PATTERN@ || pattern@ == TIME_PATTERN@,
    ensures
        writes(r@, seconds as int, pattern@),
{
    chrono::DateTime::from_timestamp(seconds, 0).unwrap().format(pattern).to_string()
}

/// The point in time so many seconds after the beginning of the year 1970, in
/// UTC, written after a pattern.
pub fn utc_text(seconds: i64, pattern: &str) -> (r: String)
    requires
        writable_seconds(seconds as int),
        pattern@ == DATE_PATTERN@ || pattern@ == TIME_PATTERN@,
    ensures
        r@ == pattern_text(seconds, pattern@),
{
    let text = format_utc(seconds, pattern);
    proof {
        let parts = choose|parts: TimeParts| #[trigger]
            parts.is_at(seconds as int) && text@ == parts_text(parts, pattern@);
        parts_are_determined(parts, seconds as int);
    }
    text
}

/// The fraction of a second, to three, six or nine digits, as many as it needs.
pub open spec fn fraction_text(nanos: u32) -> Seq<char> {
    if nanos == 0 {
        ""@
    } else if nanos % 1_000_000 == 0 {
        "."@ + padded((nanos / 1_000_000) as nat, 3)
    } else if nanos % 1_000 == 0 {
        "."@ + padded((nanos / 1_000) as nat, 6)
    } else {
        "."@ + padded(nanos as nat, 9)
    }
}

/// The point in time with these parts and nanoseconds in the format of RFC 3339.
pub open spec fn rfc3339_parts(parts: TimeParts, nanos: u32) -> Seq<char> {
    parts.date_text() + "T"@ + parts.clock_text() + fraction_text(nanos) + "+00:00"@
}

/// Whether a text is a point in time, in UTC, in the format of RFC 3339.
pub open spec fn writes_rfc3339(text: Seq<char>, seconds: int, nanos: u32) -> bool {
    exists|parts: TimeParts| #[trigger]
        parts.is_at(seconds) && text == rfc3339_parts(parts, nanos)
}

/// The point in time so many seconds and nanoseconds after the beginning of the
/// year 1970, in UTC, written in the format of RFC 3339.
pub open spec fn rfc3339_text(seconds: i64, nanos: u32) -> Seq<char> {
    rfc3339_parts(parts_at(seconds as int), nanos)
}

/// `DateTime::to_rfc3339` of the crate `chrono` writes a point in time in the format
/// of RFC 3339. A year before 0 or after 9999 has a sign.
#[verifier::external_body]
fn to_rfc3339(seconds: i64, nanos: u32) -> (r: String)
    requires
        writable_seconds(seconds as int),
        nanos < 1_000_000_000,
    ensures
        writes_rfc3339(r@, seconds as int, nanos),
{
    chrono::DateTime::from_timestamp(seconds, nanos).unwrap().to_rfc3339()
}

/// A later year begins later.
proof fn lemma_years_grow(year: int, later: int)
    requires
        year < later,
    ensures
        days_before_year(year) + 365 + (if is_leap(year) {
            1int
        } else {
            0int
        }) <= days_before_year(later),
    decreases later - year,
{
    if year + 1 < later {
        lemma_years_grow(year, later - 1);
        lemma_years_grow(later - 1, later);
    }
}

/// A later month begins later.
proof fn lemma_months_grow(year: int, month: int, later: int)
    requires
        1 <= month < later <= 13,
    ensures
        days_before_month(year, month) + days_in_month(year, month) <= days_before_month(
            year,
            later,
        ),
    decreases later - month,
{
    if month + 1 < later {
        lemma_months_grow(year, month, later - 1);
    }
}

/// The days of a year are counted within the year.
proof fn lemma_day_of_year(year: int, month: int, day: int)
    requires
        day_exists(year, month, day),
    ensures
        0 <= days_before_month(year, month),
        days_before_month(year, month) + day <= 365 + (if is_leap(year) {
            1int
        } else {
            0int
        }),
{
    reveal_with_fuel(days_before_month, 14);
    lemma_months_grow(year, month, 13);
}

proof fn lemma_later_day(a: TimeParts, b: TimeParts)
    requires
        a.is_time(),
        b.is_time(),
        a.year < b.year || (a.year == b.year && (a.month < b.month || (a.month == b.month && a.day
            < b.day))),
    ensures
        unix_days(a.year as int, a.month as int, a.day as int) < unix_days(
            b.year as int,
            b.month as int,
            b.day as int,
        ),
{
    if a.year < b.year {
        lemma_years_grow(a.year as int, b.year as int);
        lemma_day_of_year(a.year as int, a.month as int, a.day as int);
        lemma_day_of_year(b.year as int, b.month as int, b.day as int);
    } else if a.month < b.month {
        lemma_months_grow(a.year as int, a.month as int, b.month as int);
    }
}

/// Days and seconds of a day are determined by all the seconds.
proof fn lemma_one_split(day: int, second: int, other_day: int, other_second: int)
    requires
        0 <= second < 86400,
        0 <= other_second < 86400,
        (day * 86400 + second) * 1_000_000 == (other_day * 86400 + other_second) * 1_000_000,
    ensures
        day == other_day,
        second == other_second,
{
}

/// The parts of a time of day are determined by its seconds.
proof fn lemma_one_clock(a: TimeParts, b: TimeParts)
    requires
        a.is_time(),
        b.is_time(),
        a.hour * 3600 + a.minute * 60 + a.second == b.hour * 3600 + b.minute * 60 + b.second,
    ensures
        a.hour == b.hour,
        a.minute == b.minute,
        a.second == b.second,
{
}

/// A day is determined by its number.
proof fn lemma_one_day(a: TimeParts, b: TimeParts)
    requires
        a.is_time(),
        b.is_time(),
        unix_days(a.year as int, a.month as int, a.day as int) == unix_days(
            b.year as int,
            b.month as int,
            b.day as int,
        ),
    ensures
        a.year == b.year,
        a.month == b.month,
        a.day == b.day,
{
    if !(a.year == b.year && a.month == b.month && a.day == b.day) {
        if a.year < b.year || (a.year == b.year && (a.month < b.month || (a.month == b.month
            && a.day < b.day))) {
            lemma_later_day(a, b);
        } else {
            lemma_later_day(b, a);
        }
    }
}

/// No point in time has parts but one: what is written of it is determined.
pub proof fn parts_are_determined(parts: TimeParts, seconds: int)
    requires
        parts.is_at(seconds),
    ensures
        parts_at(seconds) == parts,
{
    let other = parts_at(seconds);
    assert(other.is_at(seconds));
    lemma_one_split(
        unix_days(parts.year as int, parts.month as int, parts.day as int),
        parts.hour * 3600 + parts.minute * 60 + parts.second,
        unix_days(other.year as int, other.month as int, other.day as int),
        other.hour * 3600 + other.minute * 60 + other.second,
    );
    lemma_one_clock(parts, other);
    lemma_one_day(parts, other);
}

/// A point in time in UTC.
#[derive(Debug, Clone, Copy, PartialEq, Eq, Structural)]
pub struct Timestamp {
    /// Whole seconds since the beginning of the year 1970.
    pub seconds: i64,
    /// Nanoseconds since the last whole second.
    pub nanos: u32,
}

impl Timestamp {
    /// Whether the point in time can be written.
    pub open spec fn wf(self) -> bool {
        writable_seconds(self.seconds as int) && self.nanos < 1_000_000_000
    }

    /// The point in time in the format of RFC 3339.
    pub fn to_rfc3339(&self) -> (r: String)
        requires
            self.wf(),
        ensures
            r@ == rfc3339_text(self.seconds, self.nanos),
    {
        let text = to_rfc3339(self.seconds, self.nanos);
        proof {
            let parts = choose|parts: TimeParts| #[trigger]
                parts.is_at(self.seconds as int) && text@ == rfc3339_parts(parts, self.nanos);
            parts_are_determined(parts, self.seconds as int);
        }
        text
    }

    /// The date of the point in time.
    pub fn date_text(&self) -> (r: String)
        requires
            self.wf(),
        ensures
            r@ == pattern_text(self.seconds, DATE_PATTERN@),
    {
        utc_text(self.seconds, DATE_PATTERN)
    }
}

proof fn lemma_two_digits(n: nat)
    requires
        n <= 99,
    ensures
        padded(n, 2).len() == 2,
        digits_value(padded(n, 2)) == n,
        all_digits(padded(n, 2)),
{
    reveal_with_fuel(decimal, 3);
    padded_reads_back(n, 2);
}

proof fn lemma_four_digits(n: nat)
    requires
        n <= 9999,
    ensures
        padded(n, 4).len() == 4,
        digits_value(padded(n, 4)) == n,
        all_digits(padded(n, 4)),
{
    reveal_with_fuel(decimal, 5);
    padded_reads_back(n, 4);
}

/// A written point in time tells each of its parts, at its place: the year in four
/// digits, and the month, the day, the hour, the minute and the second in two digits
/// each, with a separator between them.
pub proof fn written_time_tells_its_parts(parts: TimeParts)
    requires
        0 <= parts.year <= 9999,
        0 <= parts.month <= 99,
        0 <= parts.day <= 99,
        0 <= parts.hour <= 99,
        0 <= parts.minute <= 99,
        0 <= parts.second <= 99,
    ensures
        parts.text().len() == 19,
        digits_value(parts.text().subrange(0, 4)) == parts.year,
        parts.text()[4] == '-',
        digits_value(parts.text().subrange(5, 7)) == parts.month,
        parts.text()[7] == '-',
        digits_value(parts.text().subrange(8, 10)) == parts.day,
        parts.text()[10] == ' ',
        digits_value(parts.text().subrange(11, 13)) == parts.hour,
        parts.text()[13] == ':',
        digits_value(parts.text().subrange(14, 16)) == parts.minute,
        parts.text()[16] == ':',
        digits_value(parts.text().subrange(17, 19)) == parts.second,
        all_digits(parts.text().subrange(0, 4)),
        parts.date_text() == parts.text().take(10),
        parts.clock_text() == parts.text().skip(11),
{
    lemma_four_digits(parts.year as nat);
    lemma_two_digits(parts.month as nat);
    lemma_two_digits(parts.day as nat);
    lemma_two_digits(parts.hour as nat);
    lemma_two_digits(parts.minute as nat);
    lemma_two_digits(parts.second as nat);
    reveal_strlit("-");
    reveal_strlit(" ");
    reveal_strlit(":");
    let text = parts.text();
    assert(text.subrange(0, 4) =~= padded(parts.year as nat, 4));
    assert(text.subrange(5, 7) =~= padded(parts.month as nat, 2));
    assert(text.subrange(8, 10) =~= padded(parts.day as nat, 2));
    assert(text.subrange(11, 13) =~= padded(parts.hour as nat, 2));
    assert(text.subrange(14, 16) =~= padded(parts.minute as nat, 2));
    assert(text.subrange(17, 19) =~= padded(parts.second as nat, 2));
    assert(text.take(10) =~= parts.date_text());
    assert(text.skip(11) =~= parts.clock_text());
}

/// Points in time with different parts are written differently.
pub proof fn different_times_are_written_differently(one: TimeParts, other: TimeParts)
    requires
        0 <= one.year <= 9999 && 0 <= other.year <= 9999,
        0 <= one.month <= 99 && 0 <= other.month <= 99,
        0 <= one.day <= 99 && 0 <= other.day <= 99,
        0 <= one.hour <= 99 && 0 <= other.hour <= 99,
        0 <= one.minute <= 99 && 0 <= other.minute <= 99,
        0 <= one.second <= 99 && 0 <= other.second <= 99,
        one != other,
    ensures
        one.text() != other.text(),
{
    written_time_tells_its_parts(one);
    written_time_tells_its_parts(other);
}

/// The next year begins after the days of this year.
proof fn lemma_next_year(year: int)
    ensures
        days_before_year(year + 1) - days_before_year(year) == (if is_leap(year) {
            366int
        } else {
            365
        }),
{
}

/// Days count for 24 hours of 60 minutes of 60 seconds.
proof fn lemma_days_count(year: int, month: int, day: int)
    ensures
        unix_micros(year, month, day, 0, 0, 0) == unix_days(year, month, day) * 86_400_000_000,
{
}

/// Microseconds are counted from the beginning of the year 1970, one day after the
/// other: a day has 24 hours of 60 minutes of 60 seconds.
pub proof fn microseconds_count_the_days(year: int, month: int, day: int)
    ensures
        unix_micros(1970, 1, 1, 0, 0, 0) == 0,
        unix_micros(year, month, day + 1, 0, 0, 0) - unix_micros(year, month, day, 0, 0, 0)
            == 86_400_000_000,
        86_400_000_000 == 24 * 60 * 60 * 1_000_000,
{
    lemma_days_count(1970, 1, 1);
    lemma_days_count(year, month, day);
    lemma_days_count(year, month, day + 1);
    assert(days_before_month(1970, 1) == 0);
}

/// The last day of a month is followed by the first of the next.
pub proof fn months_follow_each_other(year: int, month: int)
    requires
        1 <= month < 12,
    ensures
        unix_micros(year, month + 1, 1, 0, 0, 0) - unix_micros(
            year,
            month,
            if month == 2 {
                if year % 4 == 0 && (year % 100 != 0 || year % 400 == 0) {
                    29int
                } else {
                    28
                }
            } else if month == 4 || month == 6 || month == 9 || month == 11 {
                30
            } else {
                31
            },
            0,
            0,
            0,
        ) == 86_400_000_000,
{
    let last = days_in_month(year, month);
    lemma_days_count(year, month + 1, 1);
    lemma_days_count(year, month, last);
    assert(days_before_month(year, month + 1) == days_before_month(year, month) + last);
}

/// A year has 365 days, or 366 where its number can be divided by four, and not by a
/// hundred, or by four hundred.
pub proof fn years_follow_each_other(year: int)
    ensures
        unix_micros(year + 1, 1, 1, 0, 0, 0) - unix_micros(year, 1, 1, 0, 0, 0) == (if year % 4 == 0
            && (year % 100 != 0 || year % 400 == 0) {
            366int
        } else {
            365
        }) * 86_400_000_000,
{
    lemma_next_year(year);
    lemma_days_count(year, 1, 1);
    lemma_days_count(year + 1, 1, 1);
    assert(days_before_month(year, 1) == 0);
    assert(days_before_month(year + 1, 1) == 0);
}

/// An hour, a minute and a second count for what they are.
pub proof fn microseconds_count_the_time_of_day(
    year: int,
    month: int,
    day: int,
    hour: int,
    minute: int,
    second: int,
)
    ensures
        unix_micros(year, month, day, hour, minute, second) == unix_micros(
            year,
            month,
            day,
            0,
            0,
            0,
        ) + (60 * (60 * hour + minute) + second) * 1_000_000,
{
}

} // verus!
