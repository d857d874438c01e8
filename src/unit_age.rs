//! Ageing of unit tests: how long after its last update a unit test runs,
//! shows as skipped, and then falls silent.
use vstd::prelude::*;

use crate::date::Date;
use crate::text::{decimal, decimal_string, parse_u32, u32_text};

verus! {

/// Days a unit test runs for after its last update, unless configured otherwise.
pub const DEFAULT_MAX_AGE_DAYS: u32 = 365;

/// Days an aged-out unit test shows as skipped, unless configured otherwise.
pub const DEFAULT_SKIP_WINDOW_DAYS: u32 = 30;

/// The ageing thresholds of unit tests.
#[derive(Clone, Copy, Debug, PartialEq, Eq, Structural)]
pub struct UnitAge {
    /// Days a unit test runs for; 0 turns ageing off.
    pub max: u32,
    /// Days a unit test then shows as skipped before it is dropped silently.
    pub skip: u32,
}

/// What to do with a unit test, given its age.
#[derive(Debug)]
pub enum UnitAgeResult {
    /// Young enough to run.
    Young,
    /// Aged out, but still shown as skipped, with this reason.
    Aged(String),
    /// Too old: dropped silently.
    Old,
}

/// The meaning of a [`UnitAgeResult`].
pub enum AgeOutcome {
    Young,
    Aged(Seq<char>),
    Old,
}

impl View for UnitAgeResult {
    type V = AgeOutcome;

    open spec fn view(&self) -> AgeOutcome {
        match self {
            UnitAgeResult::Young => AgeOutcome::Young,
            UnitAgeResult::Aged(reason) => AgeOutcome::Aged(reason@),
            UnitAgeResult::Old => AgeOutcome::Old,
        }
    }
}

/// The reason shown for a unit test that falls silent in `left` days.
pub open spec fn silenced_reason(left: nat) -> Seq<char> {
    "Silenced in "@ + decimal(left) + " days"@
}

/// `max + skip`, held at `u32::MAX`.
pub open spec fn silent_age(max: u32, skip: u32) -> int {
    if max + skip > u32::MAX {
        u32::MAX as int
    } else {
        max + skip
    }
}

/// The age outcome of a unit test last updated on day `updated`, judged on day `now`.
pub open spec fn age_outcome(updated: int, now: int, max: u32, skip: u32) -> AgeOutcome {
    let age = now - updated;
    if max == 0 || age < max {
        AgeOutcome::Young
    } else if silent_age(max, skip) - age > 0 {
        AgeOutcome::Aged(silenced_reason((silent_age(max, skip) - age) as nat))
    } else {
        AgeOutcome::Old
    }
}

/// The value of a day-count setting: the number it spells, else `default`.
pub open spec fn setting_days(text: Seq<char>, default: u32) -> u32 {
    match u32_text(text) {
        Some(n) => n,
        None => default,
    }
}

impl UnitAge {
    /// The thresholds read from the texts of the two settings; a text that
    /// spells no `u32` gives the default.
    pub fn from_settings(max_text: &str, skip_text: &str) -> (r: UnitAge)
        ensures
            r.max == setting_days(max_text@, DEFAULT_MAX_AGE_DAYS),
            r.skip == setting_days(skip_text@, DEFAULT_SKIP_WINDOW_DAYS),
    {
        let max = match parse_u32(max_text) {
            Some(n) => n,
            None => DEFAULT_MAX_AGE_DAYS,
        };
        let skip = match parse_u32(skip_text) {
            Some(n) => n,
            None => DEFAULT_SKIP_WINDOW_DAYS,
        };
        UnitAge { max, skip }
    }

    /// What to do with a unit test last updated on `since`, judged on `now`.
    pub fn unit_aged_out(&self, since: Date, now: Date) -> (r: UnitAgeResult)
        ensures
            r@ == age_outcome(since.days as int, now.days as int, self.max, self.skip),
    {
        if self.max == 0 {
            return UnitAgeResult::Young;
        }
        let age: i64 = now.days as i64 - since.days as i64;
        let silent: i64 = self.max.saturating_add(self.skip) as i64;
        if age < self.max as i64 {
            UnitAgeResult::Young
        } else {
            let skip_left: i64 = silent - age;
            if skip_left > 0 {
                let mut reason = "Silenced in ".to_owned();
                let digits = decimal_string(skip_left as u64);
                reason.append(digits.as_str());
                reason.append(" days");
                UnitAgeResult::Aged(reason)
            } else {
                UnitAgeResult::Old
            }
        }
    }
}

} // verus!
