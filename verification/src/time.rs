//! Calendar dates, day counts and day-granularity timestamps.
//!
//! A date is modelled by its day number in the proleptic Gregorian calendar
//! (January 1 of year 1 is day 1). Everything else in this module is stated
//! over that number: the weekday is the day number modulo 7, the timestamp
//! counts 86400 seconds for each day since 1970-01-01.
//! The calendar computations themselves are done by `chrono`; the functions
//! that call it are marked as not verified and say what they rely on.

use chrono::{Datelike, Local, NaiveDate, TimeDelta};
use std::fmt::Write;
use vstd::prelude::*;

verus! {

/// Seconds in one day.
pub const DAY_SECONDS: i64 = 86400;

/// The earliest year a date can have.
pub const MIN_YEAR: i32 = -262143;

/// The latest year a date can have.
pub const MAX_YEAR: i32 = 262142;

/// The day number of 1970-01-01.
pub const EPOCH_DAY: i64 = 719163;

/// A calendar date of the proleptic Gregorian calendar, without a time zone.
#[derive(Debug, Clone, Copy, PartialEq, Eq, Structural)]
pub struct Date {
    pub year: i32,
    pub month: u32,
    pub day: u32,
}

/// A date string that is not a calendar date in the form `YYYY-MM-DD`.
#[derive(Debug, Clone, Copy, PartialEq, Eq, Structural)]
pub struct ParseError;

/// Why no month grid could be produced.
#[derive(Debug, Clone, Copy, PartialEq, Eq, Structural)]
pub enum ValidationError {
    /// Year and month do not name a month of the calendar.
    InvalidMonth,
    /// The month exists, but its grid reaches beyond the first or last
    /// representable date.
    OutOfRange,
}

/// Leap years are the years divisible by 4, but of the years divisible by
/// 100 only those divisible by 400. Year 0 is the year before year 1.
pub open spec fn is_leap_year(year: int) -> bool {
    year % 4 == 0 && (year % 100 != 0 || year % 400 == 0)
}

/// The number of days of a month from 1 to 12.
pub open spec fn days_in_month(year: int, month: int) -> int {
    if month == 2 {
        if is_leap_year(year) {
            29
        } else {
            28
        }
    } else if month == 4 || month == 6 || month == 9 || month == 11 {
        30
    } else {
        31
    }
}

/// Days of `year` that lie before the first of `month`.
pub open spec fn days_before_month(year: int, month: int) -> int {
    let leap: int = if is_leap_year(year) && month > 2 {
        1
    } else {
        0
    };
    let common: int = if month <= 1 {
        0
    } else if month == 2 {
        31
    } else if month == 3 {
        59
    } else if month == 4 {
        90
    } else if month == 5 {
        120
    } else if month == 6 {
        151
    } else if month == 7 {
        181
    } else if month == 8 {
        212
    } else if month == 9 {
        243
    } else if month == 10 {
        273
    } else if month == 11 {
        304
    } else {
        334
    };
    common + leap
}

/// Days between January 1 of year 1 and January 1 of `year`.
pub open spec fn days_before_year(year: int) -> int {
    let y = year - 1;
    365 * y + y / 4 - y / 100 + y / 400
}

/// The day number of a calendar date: January 1 of year 1 is day 1.
#[verifier::opaque]
pub open spec fn civil_day_number(year: int, month: int, day: int) -> int {
    days_before_year(year) + days_before_month(year, month) + day
}

/// Year, month and day name a date of the calendar within the supported years.
pub open spec fn valid_civil(year: int, month: int, day: int) -> bool {
    &&& MIN_YEAR <= year <= MAX_YEAR
    &&& 1 <= month <= 12
    &&& 1 <= day <= days_in_month(year, month)
}

/// The day number of the first representable date.
pub open spec fn min_day() -> int {
    civil_day_number(MIN_YEAR as int, 1, 1)
}

/// The day number of the last representable date.
pub open spec fn max_day() -> int {
    civil_day_number(MAX_YEAR as int, 12, 31)
}

/// The weekday of a day number: 0 is Sunday, 6 is Saturday.
pub open spec fn weekday_of(day_number: int) -> int {
    day_number % 7
}

/// The day number of the first cell of the grid of a month: the Sunday on or
/// before the first of the month.
pub open spec fn grid_anchor(year: int, month: int) -> int {
    let first = civil_day_number(year, month, 1);
    first - weekday_of(first)
}

/// The date that a text stands for in a `strftime` format, as
/// `chrono::NaiveDate::parse_from_str` reads it; `None` where that function
/// reports an error.
pub uninterp spec fn parsed_date(text: Seq<char>, format: Seq<char>) -> Option<Date>;

/// The date that a text in the form `YYYY-MM-DD` stands for, if it is a date
/// of the calendar.
pub open spec fn date_of(text: Seq<char>) -> Option<Date> {
    match parsed_date(text, "%Y-%m-%d"@) {
        Some(date) => if date.is_valid() {
            Some(date)
        } else {
            None
        },
        None => None,
    }
}

/// The timestamp that a date text stands for, if it is a date.
pub open spec fn text_timestamp(text: Seq<char>) -> Option<int> {
    match date_of(text) {
        Some(date) => Some(date.timestamp()),
        None => None,
    }
}

/// Whole days from the date that `from` stands for to the one that `to`
/// stands for, if both are dates.
pub open spec fn text_day_difference(from: Seq<char>, to: Seq<char>) -> Option<int> {
    match (date_of(from), date_of(to)) {
        (Some(a), Some(b)) => Some(a.days_until(b)),
        _ => None,
    }
}

impl Date {
    /// The date is one of the calendar, within the supported years.
    pub open spec fn is_valid(&self) -> bool {
        valid_civil(self.year as int, self.month as int, self.day as int)
    }

    /// The day number of the date: January 1 of year 1 is day 1.
    pub open spec fn day_number(&self) -> int {
        civil_day_number(self.year as int, self.month as int, self.day as int)
    }

    /// Seconds from 1970-01-01 00:00:00 to this date's midnight.
    pub open spec fn timestamp(&self) -> int {
        (self.day_number() - EPOCH_DAY) * DAY_SECONDS
    }

    /// Calendar order: by year, then month, then day.
    pub open spec fn precedes(&self, other: Date) -> bool {
        ||| self.year < other.year
        ||| self.year == other.year && self.month < other.month
        ||| self.year == other.year && self.month == other.month && self.day < other.day
    }

    /// Whole days from this date to `other`, negative when `other` is earlier:
    /// the difference of the two timestamps, in days.
    pub open spec fn days_until(&self, other: Date) -> int {
        (other.timestamp() - self.timestamp()) / (DAY_SECONDS as int)
    }
}

/// A year has 365 days, and one more if it is a leap year.
proof fn lemma_year_length(year: int)
    ensures
        days_before_year(year + 1) == days_before_year(year) + 365 + (if is_leap_year(year) {
            1int
        } else {
            0int
        }),
{
    let previous = year - 1;
    assert(year / 4 - previous / 4 == if year % 4 == 0 { 1int } else { 0int });
    assert(year / 100 - previous / 100 == if year % 100 == 0 { 1int } else { 0int });
    assert(year / 400 - previous / 400 == if year % 400 == 0 { 1int } else { 0int });
    assert(year % 400 == 0 ==> year % 100 == 0);
    assert(year % 100 == 0 ==> year % 4 == 0);
}

/// The first day of a later year comes after every day of an earlier year.
proof fn lemma_days_before_year_grows(earlier: int, later: int)
    requires
        earlier < later,
    ensures
        days_before_year(earlier) + 365 + (if is_leap_year(earlier) {
            1int
        } else {
            0int
        }) <= days_before_year(later),
    decreases later - earlier,
{
    if earlier + 1 == later {
        lemma_year_length(earlier);
    } else {
        lemma_days_before_year_grows(earlier, later - 1);
        lemma_year_length(later - 1);
    }
}

/// Every valid date lies between the first and the last representable day.
pub proof fn lemma_day_number_bounds(date: Date)
    requires
        date.is_valid(),
    ensures
        min_day() <= date.day_number() <= max_day(),
        min_day() == -95746129,
        max_day() == 95745399,
{
    reveal(civil_day_number);
    if date.year > MIN_YEAR {
        lemma_days_before_year_grows(MIN_YEAR as int, date.year as int);
    }
    if date.year < MAX_YEAR {
        lemma_days_before_year_grows(date.year as int, MAX_YEAR as int);
    }
}

/// Later dates have larger day numbers.
pub proof fn lemma_day_number_monotonic(a: Date, b: Date)
    requires
        a.is_valid(),
        b.is_valid(),
        a.precedes(b),
    ensures
        a.day_number() < b.day_number(),
{
    reveal(civil_day_number);
    if a.year < b.year {
        lemma_days_before_year_grows(a.year as int, b.year as int);
    }
}

/// Two valid dates with the same day number are the same date.
pub proof fn lemma_day_number_injective(a: Date, b: Date)
    requires
        a.is_valid(),
        b.is_valid(),
        a.day_number() == b.day_number(),
    ensures
        a == b,
{
    if a.precedes(b) {
        lemma_day_number_monotonic(a, b);
    } else if b.precedes(a) {
        lemma_day_number_monotonic(b, a);
    }
}

/// The day difference of two dates is the difference of their day numbers.
pub proof fn lemma_days_until_is_day_number_difference(a: Date, b: Date)
    ensures
        a.days_until(b) == b.day_number() - a.day_number(),
{
    let k = b.day_number() - a.day_number();
    assert(b.timestamp() - a.timestamp() == k * 86400);
}

/// The day difference from a date to itself is zero, it is positive towards
/// a later date, and swapping the two dates negates it.
pub proof fn lemma_day_difference_laws(a: Date, b: Date)
    requires
        a.is_valid(),
        b.is_valid(),
    ensures
        a == b ==> a.days_until(b) == 0,
        a.precedes(b) ==> a.days_until(b) > 0,
        a.days_until(b) == -b.days_until(a),
{
    lemma_days_until_is_day_number_difference(a, b);
    lemma_days_until_is_day_number_difference(b, a);
    if a.precedes(b) {
        lemma_day_number_monotonic(a, b);
    }
}

/// The day difference of two date texts: it is zero between texts of the
/// same date, positive towards the text of a later date, and swapping the
/// two texts negates it.
pub proof fn lemma_text_day_difference_laws(from: Seq<char>, to: Seq<char>)
    requires
        date_of(from) is Some,
        date_of(to) is Some,
    ensures
        text_day_difference(from, to) is Some,
        text_day_difference(to, from) is Some,
        date_of(from) == date_of(to) ==> text_day_difference(from, to) == Some(0int),
        from == to ==> text_day_difference(from, to) == Some(0int),
        date_of(from)->0.precedes(date_of(to)->0) ==> text_day_difference(from, to)->0 > 0,
        text_day_difference(from, to)->0 == -text_day_difference(to, from)->0,
{
    lemma_day_difference_laws(date_of(from)->0, date_of(to)->0);
}

/// In a month grid the first cell is a Sunday, and the first of the month
/// stands in the first row, in the column of its weekday.
pub proof fn lemma_month_grid_shape(grid: Seq<Vec<Date>>, year: int, month: int)
    requires
        is_month_grid(grid, year, month),
        valid_civil(year, month, 1),
    ensures
        weekday_of(grid[0]@[0].day_number()) == 0,
        0 <= weekday_of(civil_day_number(year, month, 1)) < 7,
        grid[0]@[weekday_of(civil_day_number(year, month, 1))].year == year,
        grid[0]@[weekday_of(civil_day_number(year, month, 1))].month == month,
        grid[0]@[weekday_of(civil_day_number(year, month, 1))].day == 1,
{
    let column = weekday_of(civil_day_number(year, month, 1));
    let cell = grid[0]@[column];
    let first = Date { year: year as i32, month: month as u32, day: 1 };
    assert(cell.day_number() == first.day_number());
    lemma_day_number_injective(cell, first);
}

/// The first cell of a month grid is a Sunday, and it is the first of the
/// month or one of the six days before it.
pub proof fn lemma_grid_anchor_is_sunday(year: int, month: int)
    ensures
        weekday_of(grid_anchor(year, month)) == 0,
        civil_day_number(year, month, 1) - 6 <= grid_anchor(year, month) <= civil_day_number(
            year,
            month,
            1,
        ),
        civil_day_number(year, month, 1) == grid_anchor(year, month) + weekday_of(
            civil_day_number(year, month, 1),
        ),
{
}

/// Not verified: `chrono::NaiveDate::from_ymd_opt`. It returns a date exactly
/// for a month from 1 to 12, a day that the month has in that year, and a
/// year from `MIN_YEAR` to `MAX_YEAR`.
#[verifier::external_body]
fn civil_is_valid(year: i32, month: u32, day: u32) -> (ok: bool)
    ensures
        ok == valid_civil(year as int, month as int, day as int),
{
    NaiveDate::from_ymd_opt(year, month, day).is_some()
}

/// Not verified: `chrono::Datelike::weekday` and
/// `chrono::Weekday::num_days_from_sunday` on a `NaiveDate`. Weekdays repeat
/// every seven days and January 1 of year 1 (day 1) is a Monday, so counted
/// from Sunday the weekday is the day number modulo 7.
#[verifier::external_body]
fn weekday_from_sunday(date: &Date) -> (weekday: u32)
    requires
        date.is_valid(),
    ensures
        weekday as int == weekday_of(date.day_number()),
{
    NaiveDate::from_ymd_opt(date.year, date.month, date.day).unwrap().weekday().num_days_from_sunday()
}

/// Not verified: `chrono::NaiveDate::checked_add_signed` with
/// `chrono::TimeDelta::try_days`. The result is the date `days` days after
/// `date` (before it, for a negative count); there is none exactly when that
/// day lies outside the representable dates.
#[verifier::external_body]
fn shift_days(date: &Date, days: i64) -> (shifted: Option<Date>)
    requires
        date.is_valid(),
    ensures
        match shifted {
            Some(d) => d.is_valid() && d.day_number() == date.day_number() + days,
            None => !(min_day() <= date.day_number() + days <= max_day()),
        },
{
    let delta = TimeDelta::try_days(days)?;
    let start = NaiveDate::from_ymd_opt(date.year, date.month, date.day)?;
    let moved = start.checked_add_signed(delta)?;
    Some(Date { year: moved.year(), month: moved.month(), day: moved.day() })
}

/// Not verified: `chrono::NaiveDate::to_epoch_days`, which counts the days
/// of the proleptic Gregorian calendar with 1970-01-01 as day 0.
#[verifier::external_body]
fn epoch_days(date: &Date) -> (days: i32)
    requires
        date.is_valid(),
    ensures
        days as int == date.day_number() - EPOCH_DAY,
{
    NaiveDate::from_ymd_opt(date.year, date.month, date.day).unwrap().to_epoch_days()
}

/// Not verified: `chrono::NaiveDate::parse_from_str`. What it accepts is
/// named by `parsed_date`; what it returns is a date of the calendar within
/// the supported years.
#[verifier::external_body]
fn parse_with_format(text: &str, format: &str) -> (date: Option<Date>)
    ensures
        date == parsed_date(text@, format@),
        date matches Some(d) ==> d.is_valid(),
{
    match NaiveDate::parse_from_str(text, format) {
        Ok(day) => Some(Date { year: day.year(), month: day.month(), day: day.day() }),
        Err(_) => None,
    }
}

/// The local wall-clock time in the given `strftime` format, such as
/// `%Y-%m-%d %H:%M:%S`; `None` for a format that `chrono` cannot render.
///
/// Not verified: `chrono::Local::now` and `chrono::DateTime::format`. The
/// result depends on the clock, so nothing is stated of it. `chrono` gives
/// up, whatever the format, on a machine whose clock stands before 1970 or
/// whose time zone data yield no local time.
#[verifier::external_body]
pub fn local_now(format: &str) -> (text: Option<String>) {
    let mut text = String::new();
    match write!(text, "{}", Local::now().format(format)) {
        Ok(()) => Some(text),
        Err(_) => None,
    }
}

/// Today's date on the local wall clock.
///
/// Not verified: `chrono::Local::now` with the accessors of
/// `chrono::Datelike`. Whatever the clock shows, it is a date of the calendar.
/// `chrono` gives up on a machine whose clock stands before 1970 or whose
/// time zone data yield no local time.
#[verifier::external_body]
pub fn get_current_date() -> (today: Date)
    ensures
        today.is_valid(),
{
    let now = Local::now();
    Date { year: now.year(), month: now.month(), day: now.day() }
}

impl Date {
    /// The date of a year, a month and a day; `None` where the three name no
    /// date of the calendar.
    pub fn new(year: i32, month: u32, day: u32) -> (date: Option<Date>)
        ensures
            match date {
                Some(d) => d == (Date { year, month, day }) && d.is_valid(),
                None => !valid_civil(year as int, month as int, day as int),
            },
    {
        if civil_is_valid(year, month, day) {
            Some(Date { year, month, day })
        } else {
            None
        }
    }
}

/// Reads a date in the form `YYYY-MM-DD`.
pub fn parse_date(text: &str) -> (result: Result<Date, ParseError>)
    ensures
        match result {
            Ok(date) => date_of(text@) == Some(date) && date.is_valid(),
            Err(_) => date_of(text@) is None,
        },
{
    match parse_with_format(text, "%Y-%m-%d") {
        Some(date) => Ok(date),
        None => Err(ParseError),
    }
}

/// The timestamp of a valid date: seconds from 1970-01-01 to its midnight.
pub fn date_to_timestamp(date: &Date) -> (seconds: i64)
    requires
        date.is_valid(),
    ensures
        seconds as int == date.timestamp(),
        seconds % DAY_SECONDS == 0,
{
    proof {
        lemma_day_number_bounds(*date);
    }
    let days: i64 = epoch_days(date) as i64;
    assert(date.timestamp() == days * 86400);
    days * DAY_SECONDS
}

/// Reads a date in the form `YYYY-MM-DD` and gives its timestamp; a text
/// that is no date is an error, never zero or the current time.
pub fn parse_date_to_timestamp(text: &str) -> (result: Result<i64, ParseError>)
    ensures
        match result {
            Ok(seconds) => text_timestamp(text@) == Some(seconds as int),
            Err(_) => text_timestamp(text@) is None,
        },
        result matches Ok(seconds) ==> seconds % 86400 == 0 && -8334601228800 <= seconds
            <= 8210266790400,
{
    match parse_date(text) {
        Ok(date) => {
            proof {
                lemma_day_number_bounds(date);
            }
            Ok(date_to_timestamp(&date))
        },
        Err(error) => Err(error),
    }
}

/// Whole days from the date text `from` to the date text `to`; see
/// [`days_between`]. A text that is no date is an error.
pub fn day_difference(from: &str, to: &str) -> (result: Result<i64, ParseError>)
    ensures
        match result {
            Ok(days) => text_day_difference(from@, to@) == Some(days as int),
            Err(_) => text_day_difference(from@, to@) is None,
        },
        result matches Ok(days) ==> -191491528 <= days <= 191491528,
{
    let start = match parse_date(from) {
        Ok(date) => date,
        Err(error) => {
            return Err(error);
        },
    };
    let end = match parse_date(to) {
        Ok(date) => date,
        Err(error) => {
            return Err(error);
        },
    };
    Ok(days_between(&start, &end))
}

/// Whole days from one date to another: the difference of the two
/// timestamps divided by the seconds of a day, negative when `to` is the
/// earlier date.
pub fn days_between(from: &Date, to: &Date) -> (days: i64)
    requires
        from.is_valid(),
        to.is_valid(),
    ensures
        days as int == from.days_until(*to),
        days as int == to.day_number() - from.day_number(),
        -191491528 <= days <= 191491528,
{
    proof {
        lemma_day_number_bounds(*from);
        lemma_day_number_bounds(*to);
        lemma_days_until_is_day_number_difference(*from, *to);
    }
    let first: i64 = date_to_timestamp(from);
    let second: i64 = date_to_timestamp(to);
    (second - first) / DAY_SECONDS
}

/// The timestamp of today's midnight on the local wall clock, aligned like
/// the timestamps of dates so that the two compare by whole days.
pub fn now_timestamp() -> (seconds: i64)
    ensures
        seconds % DAY_SECONDS == 0,
        exists|today: Date| today.is_valid() && seconds as int == #[trigger] today.timestamp(),
{
    let today = get_current_date();
    date_to_timestamp(&today)
}

/// A grid holds the six weeks that start at the Sunday on or before the
/// first of the month: 42 consecutive days, seven to a row.
pub open spec fn is_month_grid(grid: Seq<Vec<Date>>, year: int, month: int) -> bool {
    &&& grid.len() == 6
    &&& forall|row: int|
        0 <= row < 6 ==> (#[trigger] grid[row])@.len() == 7
    &&& forall|row: int, column: int|
        0 <= row < 6 && 0 <= column < 7 ==> {
            let cell = #[trigger] grid[row]@[column];
            cell.is_valid() && cell.day_number() == grid_anchor(year, month) + 7 * row + column
        }
}

/// The grid of a month: six rows of seven dates, Sunday first, padded with
/// the last days of the month before and the first days of the month after.
///
/// Fails with `InvalidMonth` when year and month name no month, and with
/// `OutOfRange` when one of the 42 days is not a representable date.
pub fn get_calendar_matrix(year: i32, month: u32) -> (result: Result<Vec<Vec<Date>>, ValidationError>)
    ensures
        match result {
            Ok(grid) => valid_civil(year as int, month as int, 1) && is_month_grid(
                grid@,
                year as int,
                month as int,
            ),
            Err(ValidationError::InvalidMonth) => !valid_civil(year as int, month as int, 1),
            Err(ValidationError::OutOfRange) => valid_civil(year as int, month as int, 1) && !(
            min_day() <= grid_anchor(year as int, month as int) && grid_anchor(
                year as int,
                month as int,
            ) + 41 <= max_day()),
        },
{
    if !civil_is_valid(year, month, 1) {
        return Err(ValidationError::InvalidMonth);
    }
    let first = Date { year, month, day: 1 };
    let column_of_first: u32 = weekday_from_sunday(&first);
    let anchor = match shift_days(&first, -(column_of_first as i64)) {
        Some(date) => date,
        None => {
            return Err(ValidationError::OutOfRange);
        },
    };
    let last = match shift_days(&anchor, 41) {
        Some(date) => date,
        None => {
            return Err(ValidationError::OutOfRange);
        },
    };
    proof {
        lemma_day_number_bounds(anchor);
        lemma_day_number_bounds(last);
    }
    let mut grid: Vec<Vec<Date>> = Vec::new();
    let mut row: i64 = 0;
    while row < 6
        invariant
            0 <= row <= 6,
            anchor.is_valid(),
            anchor.day_number() == grid_anchor(year as int, month as int),
            min_day() <= anchor.day_number(),
            anchor.day_number() + 41 <= max_day(),
            grid@.len() == row,
            forall|r: int| 0 <= r < row ==> (#[trigger] grid@[r])@.len() == 7,
            forall|r: int, c: int|
                0 <= r < row && 0 <= c < 7 ==> {
                    let cell = #[trigger] grid@[r]@[c];
                    cell.is_valid() && cell.day_number() == anchor.day_number() + 7 * r + c
                },
        decreases 6 - row,
    {
        let mut week: Vec<Date> = Vec::new();
        let mut column: i64 = 0;
        while column < 7
            invariant
                0 <= row < 6,
                0 <= column <= 7,
                anchor.is_valid(),
                min_day() <= anchor.day_number(),
                anchor.day_number() + 41 <= max_day(),
                week@.len() == column,
                forall|c: int|
                    0 <= c < column ==> {
                        let cell = #[trigger] week@[c];
                        cell.is_valid() && cell.day_number() == anchor.day_number() + 7 * row + c
                    },
            decreases 7 - column,
        {
            let cell = match shift_days(&anchor, 7 * row + column) {
                Some(date) => date,
                None => {
                    return Err(ValidationError::OutOfRange);
                },
            };
            week.push(cell);
            column = column + 1;
        }
        grid.push(week);
        row = row + 1;
    }
    Ok(grid)
}

} // verus!
