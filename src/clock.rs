use vstd::prelude::*;
use chrono::Datelike;

verus! {

/// A calendar date in the proleptic Gregorian calendar.
#[derive(Clone, Copy, Debug, PartialEq, Eq)]
pub struct CivilDate {
    pub year: i32,
    pub month: u32,
    pub day: u32,
}

pub open spec fn is_leap_year(y: int) -> bool {
    (y % 4 == 0 && y % 100 != 0) || y % 400 == 0
}

pub open spec fn days_in_month(y: int, m: int) -> int {
    if m == 2 {
        if is_leap_year(y) {
            29
        } else {
            28
        }
    } else if m == 4 || m == 6 || m == 9 || m == 11 {
        30
    } else {
        31
    }
}

/// The date `days` after `(year, month, day)`; nothing where the sum leaves the range
/// of dates that the calendar library represents.
pub uninterp spec fn date_after(start: (int, int, int), days: int) -> Option<(int, int, int)>;

/// Day of the week of a date, counted from Monday as 0.
pub uninterp spec fn weekday_from_monday(date: (int, int, int)) -> int;

impl CivilDate {
    /// A real date within the years that the calendar library represents.
    pub open spec fn valid(self) -> bool {
        -262143 <= self.year <= 262142 && 1 <= self.month <= 12 && 1 <= self.day
            <= days_in_month(self.year as int, self.month as int)
    }

    /// Whether this is a real date within the calendar library's years.
    pub fn is_valid(&self) -> (r: bool)
        ensures
            r == self.valid(),
    {
        let leap = (self.year % 4 == 0 && self.year % 100 != 0) || self.year % 400 == 0;
        let days: u32 = if self.month == 2 {
            if leap {
                29
            } else {
                28
            }
        } else if self.month == 4 || self.month == 6 || self.month == 9 || self.month == 11 {
            30
        } else {
            31
        };
        -262143 <= self.year && self.year <= 262142 && 1 <= self.month && self.month <= 12
            && 1 <= self.day && self.day <= days
    }

    pub open spec fn triple(self) -> (int, int, int) {
        (self.year as int, self.month as int, self.day as int)
    }
}

/// Relies on chrono's `NaiveDate::checked_add_days`: the date `days` later, or nothing
/// where chrono reports that the sum leaves its range. Adding no days keeps the date.
#[verifier::external_body]
pub(crate) fn add_days(start: &CivilDate, days: u64) -> (r: Option<CivilDate>)
    requires
        start.valid(),
    ensures
        r matches Some(d) ==> d.valid() && date_after(start.triple(), days as int) == Some(
            d.triple(),
        ),
        r is None ==> date_after(start.triple(), days as int) is None,
        days == 0 ==> r == Some(*start),
{
    let d = chrono::NaiveDate::from_ymd_opt(start.year, start.month, start.day).unwrap();
    match d.checked_add_days(chrono::Days::new(days)) {
        Some(e) => Some(CivilDate { year: e.year(), month: e.month(), day: e.day() }),
        None => None,
    }
}

/// The date `days` after `start`, or `start` itself where that leaves the calendar's
/// range.
pub open spec fn day_or_start(start: CivilDate, days: int) -> (int, int, int) {
    match date_after(start.triple(), days) {
        Some(t) => t,
        None => start.triple(),
    }
}

/// Relies on chrono's `Datelike::weekday` and `Weekday::num_days_from_monday`: the day
/// of the week of a date, Monday being 0.
#[verifier::external_body]
pub(crate) fn weekday_index(date: &CivilDate) -> (r: u32)
    requires
        date.valid(),
    ensures
        r < 7,
        r as int == weekday_from_monday(date.triple()),
{
    chrono::NaiveDate::from_ymd_opt(date.year, date.month, date.day).unwrap().weekday().num_days_from_monday()
}

} // verus!
