//! Dates and clock readings in Indian Standard Time.
//!
//! A date is the number of its day in the proleptic Gregorian calendar, January 1 of
//! year 1 being day 1. Calendar arithmetic and date texts are chrono's.
use chrono::{DateTime, Datelike, FixedOffset, NaiveDate};
use vstd::prelude::*;
use vstd::utf8::*;

use crate::checks::{minute_in, minute_in_ascii, two_byte_number};
use crate::text::{decimal, decimal_02, digit};

verus! {

/// Seconds by which Indian Standard Time is ahead of UTC.
pub const IST_OFFSET_SECS: i32 = 19800;

/// The first day that chrono can represent.
pub const FIRST_DAY: i32 = -95746129;

/// The last day that chrono can represent.
pub const LAST_DAY: i32 = 95745399;

/// January 1 of year 0, the first day whose year has four digits and no sign.
pub const FIRST_PLAIN_DAY: i32 = -365;

/// December 31 of year 9999, the last day whose year has four digits and no sign.
pub const LAST_PLAIN_DAY: i32 = 3652059;

/// How dates are written.
pub const DATE_FORMAT: &'static str = "%Y-%m-%d";

/// How moments are written.
pub const TIMESTAMP_FORMAT: &'static str = "%Y-%m-%d %H:%M:%S";

/// Whether chrono can represent the day.
pub open spec fn is_day(day: int) -> bool {
    FIRST_DAY <= day <= LAST_DAY
}

/// Whether the day's year has four digits and no sign.
pub open spec fn is_plain_day(day: int) -> bool {
    FIRST_PLAIN_DAY <= day <= LAST_PLAIN_DAY
}

/// The date that `s` holds in the format `fmt`, where it holds one.
pub uninterp spec fn parsed_date(s: Seq<char>, fmt: Seq<char>) -> Option<i32>;

/// The text of a date in the format `fmt`.
pub uninterp spec fn formatted_date(day: i32, fmt: Seq<char>) -> Seq<char>;

/// The date that a text `YYYY-MM-DD` stands for, where it stands for one.
pub open spec fn day_in(s: Seq<char>) -> Option<i32> {
    parsed_date(s, DATE_FORMAT@)
}

/// The text of a date.
pub open spec fn day_text(day: i32) -> Seq<char> {
    formatted_date(day, DATE_FORMAT@)
}

/// The text of a time of day, `HH:MM:SS`.
pub open spec fn time_text(hour: int, minute: int, second: int) -> Seq<char> {
    decimal_02(hour as nat) + ":"@ + decimal_02(minute as nat) + ":"@ + decimal_02(second as nat)
}

/// The day at `offset` seconds ahead of UTC on which the moment `millis`, counted in
/// milliseconds from the start of 1970 in UTC, falls.
pub open spec fn day_of_millis(millis: int, offset: int) -> int {
    (millis + offset * 1000) / 86_400_000 + 719163
}

/// Calls `chrono::NaiveDate::parse_from_str` and hands the date on as the number of its
/// day. Trusted: the outcome depends on the two texts alone, and a date that is read is
/// one that chrono can represent. Only dates of year, month and day are read: with an ISO
/// week year in the format, chrono computes the year before without a check.
#[verifier::external_body]
fn parse_date(s: &str, fmt: &str) -> (r: Option<i32>)
    requires
        fmt@ == DATE_FORMAT@,
    ensures
        r == parsed_date(s@, fmt@),
        r is Some ==> is_day(r->0 as int),
{
    match NaiveDate::parse_from_str(s, fmt) {
        Ok(d) => Some(d.num_days_from_ce()),
        Err(_) => None,
    }
}

/// Calls `chrono::NaiveDate::format`. Trusted: the text depends on the date and the
/// format alone; in the four-digit years it has ten ASCII characters, and
/// `chrono::NaiveDate::parse_from_str` reads the date back from it.
#[verifier::external_body]
fn format_date(day: i32, fmt: &str) -> (r: String)
    requires
        is_day(day as int),
        fmt@ == DATE_FORMAT@,
    ensures
        r@ == formatted_date(day, fmt@),
        is_plain_day(day as int) ==> r@.len() == 10 && is_ascii_chars(r@),
        is_plain_day(day as int) ==> parsed_date(r@, fmt@) == Some(day),
{
    NaiveDate::from_num_days_from_ce_opt(day).unwrap().format(fmt).to_string()
}

/// Calls `chrono::NaiveDateTime::format`. Trusted: a moment is written as its date, a
/// blank, and hour, minute and second in two digits each with colons between; in the
/// four-digit years the date takes ten ASCII characters.
#[verifier::external_body]
fn format_moment(day: i32, hour: u32, minute: u32, second: u32, fmt: &str) -> (r: String)
    requires
        is_day(day as int),
        hour < 24,
        minute < 60,
        second < 60,
        fmt@ == TIMESTAMP_FORMAT@,
    ensures
        r@ == formatted_date(day, DATE_FORMAT@) + " "@ + time_text(
            hour as int,
            minute as int,
            second as int,
        ),
        is_plain_day(day as int) ==> r@.len() == 19 && is_ascii_chars(r@),
{
    let date = NaiveDate::from_num_days_from_ce_opt(day).unwrap();
    date.and_hms_opt(hour, minute, second).unwrap().format(fmt).to_string()
}

/// Calls `chrono::NaiveDate::weekday`. Trusted: the weekday, counted from Monday as 0,
/// goes round every seven days, and day 1 was a Monday.
#[verifier::external_body]
fn weekday_from_monday(day: i32) -> (r: u32)
    requires
        is_day(day as int),
    ensures
        r == (day - 1) % 7,
{
    NaiveDate::from_num_days_from_ce_opt(day).unwrap().weekday().num_days_from_monday()
}

/// Calls `chrono::DateTime::from_timestamp_millis`, then `with_timezone` and
/// `date_naive`. Trusted: there is a date exactly where the moment's UTC day is one that
/// chrono can represent, and it is the day of the moment moved by the offset. The local
/// day has to be representable too, since `date_naive` panics beyond.
#[verifier::external_body]
fn local_date_of_millis(millis: i64, offset: i32) -> (r: Option<i32>)
    requires
        -86_400 < offset < 86_400,
        is_day(day_of_millis(millis as int, 0)) ==> is_day(
            day_of_millis(millis as int, offset as int),
        ),
    ensures
        r is Some <==> is_day(day_of_millis(millis as int, 0)),
        r is Some ==> r->0 == day_of_millis(millis as int, offset as int),
{
    match DateTime::from_timestamp_millis(millis) {
        Some(t) => {
            let zone = FixedOffset::east_opt(offset).unwrap();
            Some(t.with_timezone(&zone).date_naive().num_days_from_ce())
        },
        None => None,
    }
}

/// The day that a text `YYYY-MM-DD` stands for.
pub fn parse_day(s: &str) -> (r: Option<i32>)
    ensures
        r == day_in(s@),
        r is Some ==> is_day(r->0 as int),
{
    parse_date(s, DATE_FORMAT)
}

/// The text `YYYY-MM-DD` of a day. In the four-digit years it has ten characters and
/// stands for that day again.
pub fn format_day(day: i32) -> (r: String)
    requires
        is_day(day as int),
    ensures
        r@ == day_text(day),
        is_plain_day(day as int) ==> r@.len() == 10,
        is_plain_day(day as int) ==> day_in(r@) == Some(day),
{
    format_date(day, DATE_FORMAT)
}

/// Whether the moment's IST date can be told: its UTC day is not representable at all,
/// or its IST day is as well. Only the last five and a half hours of the calendar fail.
pub open spec fn ist_date_defined(millis: int) -> bool {
    is_day(day_of_millis(millis, 0)) ==> is_day(day_of_millis(millis, IST_OFFSET_SECS as int))
}

/// The IST date of a moment, where its UTC day is representable.
pub open spec fn ist_date(millis: int) -> Option<int> {
    if is_day(day_of_millis(millis, 0)) {
        Some(day_of_millis(millis, IST_OFFSET_SECS as int))
    } else {
        None
    }
}

/// Whether the moment's IST date can be told (see [`ist_date_of`]).
pub fn ist_date_is_defined(millis: i64) -> (r: bool)
    ensures
        r == ist_date_defined(millis as int),
{
    // The calendar ends with day LAST_DAY in UTC.
    let end: i64 = 8210266876800000;
    assert(end == (LAST_DAY - 719163 + 1) * 86_400_000);
    millis < end - 19_800_000 || millis >= end
}

/// The IST date of a moment given in milliseconds from the start of 1970 in UTC.
pub fn ist_date_of(millis: i64) -> (r: Option<i32>)
    requires
        ist_date_defined(millis as int),
    ensures
        r is Some <==> ist_date(millis as int) is Some,
        r is Some ==> r->0 == ist_date(millis as int)->0,
{
    local_date_of_millis(millis, IST_OFFSET_SECS)
}

/// A reading of the clock in Indian Standard Time.
#[derive(Debug, Clone, Copy)]
pub struct Clock {
    pub day: i32,
    pub hour: u32,
    pub minute: u32,
    pub second: u32,
}

impl Clock {
    /// Whether a clock can show this.
    pub open spec fn valid(self) -> bool {
        &&& is_day(self.day as int)
        &&& self.hour < 24
        &&& self.minute < 60
        &&& self.second < 60
    }

    /// The minute of the day.
    pub open spec fn minute_of_day(self) -> int {
        self.hour * 60 + self.minute
    }

    /// Whether the day is a Saturday or a Sunday.
    pub open spec fn is_weekend(self) -> bool {
        (self.day - 1) % 7 >= 5
    }

    /// What the reading is written as.
    pub open spec fn text(self) -> Seq<char> {
        day_text(self.day) + " "@ + time_text(
            self.hour as int,
            self.minute as int,
            self.second as int,
        )
    }

    /// The reading, where a clock can show it.
    pub fn new(day: i32, hour: u32, minute: u32, second: u32) -> (r: Option<Clock>)
        ensures
            r is Some <==> (Clock { day, hour, minute, second }).valid(),
            r is Some ==> r->0 == (Clock { day, hour, minute, second }),
    {
        if FIRST_DAY <= day && day <= LAST_DAY && hour < 24 && minute < 60 && second < 60 {
            Some(Clock { day, hour, minute, second })
        } else {
            None
        }
    }

    /// The reading as `YYYY-MM-DD HH:MM:SS`. In the four-digit years the trend table
    /// reads the reading's minute of day back from it.
    pub fn timestamp(&self) -> (r: String)
        requires
            self.valid(),
        ensures
            r@ == self.text(),
            is_plain_day(self.day as int) ==> minute_in(r@) == Some(self.minute_of_day()),
            is_plain_day(self.day as int) ==> r@.len() == 19,
    {
        let r = format_moment(self.day, self.hour, self.minute, self.second, TIMESTAMP_FORMAT);
        proof {
            if is_plain_day(self.day as int) {
                lemma_time_in_timestamp(
                    day_text(self.day),
                    self.hour as int,
                    self.minute as int,
                    self.second as int,
                );
            }
        }
        r
    }

    /// Whether the reading falls on a weekday, in a minute from `start` to `end`.
    pub fn weekday_minute_between(&self, start: u32, end: u32) -> (r: bool)
        requires
            self.valid(),
        ensures
            r == (!self.is_weekend() && start <= self.minute_of_day() <= end),
    {
        if weekday_from_monday(self.day) >= 5 {
            return false;
        }
        let m: u32 = self.hour * 60 + self.minute;
        start <= m && m <= end
    }

    /// Seconds until two seconds past the next minute, so that snapshot timestamps line
    /// up with the minute labels.
    pub fn seconds_to_next_minute(&self) -> (r: u64)
        requires
            self.valid(),
        ensures
            r == 62 - self.second,
    {
        62 - self.second as u64
    }
}

proof fn lemma_decimal_02(n: nat)
    requires
        n < 100,
    ensures
        decimal_02(n).len() == 2,
        decimal_02(n)[0] == digit(n / 10),
        decimal_02(n)[1] == digit(n % 10),
{
    reveal_with_fuel(decimal, 2);
}

proof fn lemma_time_in_timestamp(date: Seq<char>, hour: int, minute: int, second: int)
    requires
        is_ascii_chars(date + " "@ + time_text(hour, minute, second)),
        (date + " "@ + time_text(hour, minute, second)).len() == 19,
        0 <= hour < 24,
        0 <= minute < 60,
        0 <= second < 60,
    ensures
        minute_in(date + " "@ + time_text(hour, minute, second)) == Some(hour * 60 + minute),
{
    let ts = date + " "@ + time_text(hour, minute, second);
    reveal_strlit(" ");
    reveal_strlit(":");
    lemma_decimal_02(hour as nat);
    lemma_decimal_02(minute as nat);
    lemma_decimal_02(second as nat);
    assert(date.len() == 10);
    assert(ts[11] == digit(hour as nat / 10));
    assert(ts[12] == digit(hour as nat % 10));
    assert(ts[14] == digit(minute as nat / 10));
    assert(ts[15] == digit(minute as nat % 10));
    minute_in_ascii(ts);
    assert(two_byte_number(ts[11] as u8, ts[12] as u8) == Some(hour));
    assert(two_byte_number(ts[14] as u8, ts[15] as u8) == Some(minute));
}

/// Every moment falls on one day: the 86,400,000 milliseconds from the local midnight of a
/// day on are that day, whatever the offset.
pub proof fn days_begin_at_local_midnight(day: int, offset: int, since_midnight: int)
    requires
        0 <= since_midnight < 86_400_000,
    ensures
        day_of_millis((day - 719163) * 86_400_000 + since_midnight - offset * 1000, offset) == day,
{
}

/// The moments from 00:00 IST of a day to the next have that day as their IST date; the
/// first of them, 00:00 IST, is how expiries are given.
pub proof fn ist_dates_begin_at_ist_midnight(day: int, since_midnight: int)
    requires
        -95746129 < day <= 95745399,
        0 <= since_midnight < 86_400_000,
    ensures
        ist_date((day - 719163) * 86_400_000 + since_midnight - 19_800_000) == Some(day),
        ist_date_defined((day - 719163) * 86_400_000 + since_midnight - 19_800_000),
{
}

/// Only moments on UTC days that chrono can represent have an IST date, and it can be told
/// for all moments but those of the last five and a half hours of the calendar.
pub proof fn ist_dates_end_with_the_calendar(millis: int)
    ensures
        ist_date(millis) is Some <==> -95746129 <= millis / 86_400_000 + 719163 <= 95745399,
        ist_date_defined(millis) <==> millis < 8210266876800000 - 19_800_000 || millis
            >= 8210266876800000,
        ist_date(millis) is Some ==> ist_date(millis)->0 == (millis + 19_800_000) / 86_400_000
            + 719163,
{
}

/// Weeks begin on the days after multiples of seven, with five weekdays and two days of
/// weekend.
pub proof fn weeks_have_five_weekdays(clock: Clock, week: int, weekday: int)
    requires
        clock.day == 7 * week + 1 + weekday,
        0 <= weekday < 7,
    ensures
        clock.is_weekend() <==> weekday == 5 || weekday == 6,
{
}

/// A clock shows a day that chrono can represent, 24 hours, 60 minutes and 60 seconds, and
/// its minute of day gives its hour and minute back.
pub proof fn clocks_show_their_minute_of_day(clock: Clock)
    ensures
        clock.valid() <==> -95746129 <= clock.day <= 95745399 && clock.hour <= 23 && clock.minute
            <= 59 && clock.second <= 59,
        clock.valid() ==> 0 <= clock.minute_of_day() < 1440,
        clock.valid() ==> clock.minute_of_day() / 60 == clock.hour,
        clock.valid() ==> clock.minute_of_day() % 60 == clock.minute,
{
}

/// A reading is written as its date, a blank, and two digits each for hour, minute and
/// second with colons between.
pub proof fn readings_are_written_in_full(clock: Clock)
    requires
        clock.valid(),
    ensures
        clock.text() == formatted_date(clock.day, "%Y-%m-%d"@) + seq![
            ' ',
            (48 + clock.hour / 10) as char,
            (48 + clock.hour % 10) as char,
            ':',
            (48 + clock.minute / 10) as char,
            (48 + clock.minute % 10) as char,
            ':',
            (48 + clock.second / 10) as char,
            (48 + clock.second % 10) as char,
        ],
{
    reveal_strlit(" ");
    reveal_strlit(":");
    lemma_decimal_02(clock.hour as nat);
    lemma_decimal_02(clock.minute as nat);
    lemma_decimal_02(clock.second as nat);
    assert(clock.text() =~= formatted_date(clock.day, "%Y-%m-%d"@) + seq![
        ' ',
        (48 + clock.hour / 10) as char,
        (48 + clock.hour % 10) as char,
        ':',
        (48 + clock.minute / 10) as char,
        (48 + clock.minute % 10) as char,
        ':',
        (48 + clock.second / 10) as char,
        (48 + clock.second % 10) as char,
    ]);
}

/// Dates are read and written as year, month and day.
pub proof fn dates_are_year_month_day(s: Seq<char>, day: i32)
    ensures
        day_in(s) == parsed_date(s, "%Y-%m-%d"@),
        day_text(day) == formatted_date(day, "%Y-%m-%d"@),
{
}

/// The calendar runs over the years -262143 to 262142, of which 0 to 9999 have four digits
/// and no sign.
pub proof fn calendar_has_ends(day: int)
    ensures
        is_day(day) <==> -95746129 <= day <= 95745399,
        is_plain_day(day) <==> -365 <= day <= 3652059,
{
}

} // verus!
