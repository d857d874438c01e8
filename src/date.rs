//! Calendar days as plain day numbers, with chrono doing the calendar work.
use chrono::{Datelike, NaiveDate};
use vstd::prelude::*;

verus! {

/// A calendar day, numbered as chrono's `Datelike::num_days_from_ce` numbers
/// it: 0001-01-01 is day 1, and each following day is one more.
#[derive(Clone, Copy, Debug, PartialEq, Eq, Structural)]
pub struct Date {
    pub days: i32,
}

/// The day number of the date `year-month-day`, where that date exists.
pub uninterp spec fn ymd_days(year: int, month: int, day: int) -> Option<int>;

/// The day number of the date that the text spells in the form `%Y-%m-%d`,
/// where it spells one.
pub uninterp spec fn ymd_text_days(s: Seq<char>) -> Option<int>;

/// Relies on chrono's `NaiveDate::from_ymd_opt`, which gives the date where
/// it exists, and `num_days_from_ce`, which numbers it.
#[verifier::external_body]
fn days_from_ymd(year: i32, month: u32, day: u32) -> (r: Option<i32>)
    ensures
        match r {
            Some(d) => ymd_days(year as int, month as int, day as int) == Some(d as int),
            None => ymd_days(year as int, month as int, day as int) is None,
        },
{
    NaiveDate::from_ymd_opt(year, month, day).map(|d| d.num_days_from_ce())
}

/// Relies on chrono's `NaiveDate::parse_from_str` with the format `%Y-%m-%d`,
/// which reads a date from the whole text or fails, and `num_days_from_ce`,
/// which numbers it.
#[verifier::external_body]
fn days_from_text(s: &str) -> (r: Option<i32>)
    ensures
        match r {
            Some(d) => ymd_text_days(s@) == Some(d as int),
            None => ymd_text_days(s@) is None,
        },
{
    NaiveDate::parse_from_str(s, "%Y-%m-%d").ok().map(|d| d.num_days_from_ce())
}

impl Date {
    /// The date `year-month-day`, or `None` where no such date exists.
    pub fn from_ymd(year: i32, month: u32, day: u32) -> (r: Option<Date>)
        ensures
            match r {
                Some(d) => ymd_days(year as int, month as int, day as int) == Some(d.days as int),
                None => ymd_days(year as int, month as int, day as int) is None,
            },
    {
        match days_from_ymd(year, month, day) {
            Some(days) => Some(Date { days }),
            None => None,
        }
    }

    /// The date that `text` spells as `YYYY-MM-DD`, or `None` where it spells none.
    pub fn parse(text: &str) -> (r: Option<Date>)
        ensures
            match r {
                Some(d) => ymd_text_days(text@) == Some(d.days as int),
                None => ymd_text_days(text@) is None,
            },
    {
        match days_from_text(text) {
            Some(days) => Some(Date { days }),
            None => None,
        }
    }
}

} // verus!
