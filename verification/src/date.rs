//! Calendar days. A day is a number in the proleptic Gregorian calendar, with the first
//! of January of the year 1 as day 1; the calendar itself is `chrono`'s.

use chrono::Datelike;
use chrono::Months;
use chrono::NaiveDate;
use chrono::Utc;
use vstd::prelude::*;

verus! {

/// The first day that `chrono` can hold: the first of January of the year -262143.
pub const FIRST_DAY: i32 = -95746129;

/// The last day that `chrono` can hold: the last of December of the year 262142.
pub const LAST_DAY: i32 = 95745399;

/// A calendar day.
#[derive(Clone, Copy, PartialEq, Eq, Structural, Debug)]
pub struct Date {
    pub days: i32,
}

impl Date {
    /// Whether `chrono` can hold the day.
    pub open spec fn valid(self) -> bool {
        valid_day(self.days as int)
    }
}

/// Whether `chrono` can hold the day of this number.
pub open spec fn valid_day(day: int) -> bool {
    FIRST_DAY <= day <= LAST_DAY
}

/// The day's place in its week, Monday being 0.
pub open spec fn weekday(day: int) -> int {
    (day - 1) % 7
}

/// The first day of the day's month.
pub uninterp spec fn month_start(day: i32) -> i32;

/// The same day one month on, or the last day of that month where it is shorter;
/// `None` past the last day.
pub uninterp spec fn one_month_on(day: i32) -> Option<i32>;

/// The day's place in its month, the first being 1.
pub uninterp spec fn month_day(day: i32) -> u32;

/// The day written by a `strftime` format.
pub uninterp spec fn date_text(day: i32, format: Seq<char>) -> Seq<char>;

/// The day written as `chrono` shows it: year, month and day with hyphens.
pub uninterp spec fn iso_text(day: i32) -> Seq<char>;

/// The day that a text names by the format `%Y-%m-%d`, if it names one.
pub uninterp spec fn parsed_day(text: Seq<char>) -> Option<i32>;

/// Calls `Utc::now` and `DateTime::date_naive`: today's day by the machine's clock.
/// Of the result only the range of `NaiveDate` is known.
#[verifier::external_body]
pub(crate) fn today() -> (day: i32)
    ensures
        valid_day(day as int),
{
    Utc::now().date_naive().num_days_from_ce()
}

/// Calls `NaiveDate::weekday` and `Weekday::num_days_from_monday`: day 1 is a Monday
/// and the weekdays follow each other by sevens.
#[verifier::external_body]
pub(crate) fn weekday_of(day: i32) -> (index: u32)
    requires
        valid_day(day as int),
    ensures
        index == weekday(day as int),
{
    NaiveDate::from_num_days_from_ce_opt(day).unwrap().weekday().num_days_from_monday()
}

/// Calls `NaiveDate::with_day` with 1: the first day of the month, which every month has
/// and which is not after the day.
#[verifier::external_body]
pub(crate) fn first_of_month(day: i32) -> (first: Option<i32>)
    requires
        valid_day(day as int),
    ensures
        first is Some,
        first->0 == month_start(day),
        first->0 <= day,
        valid_day(first->0 as int),
{
    NaiveDate::from_num_days_from_ce_opt(day).unwrap().with_day(1).map(|d| d.num_days_from_ce())
}

/// Calls `NaiveDate::day`: the day's place in its month, from 1 to 31.
#[verifier::external_body]
pub(crate) fn month_day_of(day: i32) -> (place: u32)
    requires
        valid_day(day as int),
    ensures
        place == month_day(day),
        1 <= place <= 31,
{
    NaiveDate::from_num_days_from_ce_opt(day).unwrap().day()
}

/// Calls `NaiveDate::checked_add_months` with one month.
#[verifier::external_body]
pub(crate) fn add_one_month(day: i32) -> (next: Option<i32>)
    requires
        valid_day(day as int),
    ensures
        next == one_month_on(day),
        next is Some ==> valid_day(next->0 as int),
{
    NaiveDate::from_num_days_from_ce_opt(day).unwrap().checked_add_months(Months::new(1)).map(
        |d| d.num_days_from_ce(),
    )
}

/// Calls `NaiveDate::pred_opt`: the day before, which all days but the first have.
#[verifier::external_body]
pub(crate) fn day_before(day: i32) -> (before: Option<i32>)
    requires
        valid_day(day as int),
    ensures
        before is Some <==> day > FIRST_DAY,
        before is Some ==> before->0 == day - 1,
{
    NaiveDate::from_num_days_from_ce_opt(day).unwrap().pred_opt().map(|d| d.num_days_from_ce())
}

/// Calls `NaiveDate::format`, with one of the formats that this library writes. A day
/// written by `%Y-%m-%d` reads back as itself.
#[verifier::external_body]
pub(crate) fn format_day(day: i32, format: &str) -> (text: String)
    requires
        valid_day(day as int),
        format@ == "%Y-%m-%d"@ || format@ == "%d %b"@ || format@ == "%d %b %Y"@ || format@ == "%A"@
            || format@ == "%A, %d %b"@,
    ensures
        text@ == date_text(day, format@),
        format@ == "%Y-%m-%d"@ ==> parsed_day(text@) == Some(day),
{
    NaiveDate::from_num_days_from_ce_opt(day).unwrap().format(format).to_string()
}

/// Calls `NaiveDate::to_string`.
#[verifier::external_body]
pub(crate) fn iso_text_of(day: i32) -> (text: String)
    requires
        valid_day(day as int),
    ensures
        text@ == iso_text(day),
{
    NaiveDate::from_num_days_from_ce_opt(day).unwrap().to_string()
}

/// Calls `NaiveDate::parse_from_str` with the format `%Y-%m-%d`.
#[verifier::external_body]
pub(crate) fn parse_day(text: &str) -> (day: Option<i32>)
    ensures
        day == parsed_day(text@),
        day is Some ==> valid_day(day->0 as int),
{
    NaiveDate::parse_from_str(text, "%Y-%m-%d").ok().map(|d| d.num_days_from_ce())
}

} // verus!
