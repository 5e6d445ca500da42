//! Calendar arithmetic for the month-end timestamps carried by correcting
//! transactions.
//!
//! A correction closing month `(year, month)` is dated at the last instant of
//! that month: its last day at 23:59:59.999, in a fixed UTC+2 offset. The
//! month length comes from the calendar crate; the rest of the stamp is plain
//! data assembled here.

use vstd::prelude::*;

verus! {

/// The proleptic Gregorian leap-year rule.
pub open spec fn is_leap_year(year: int) -> bool {
    (year % 4 == 0 && year % 100 != 0) || year % 400 == 0
}

/// Number of days in a month of the proleptic Gregorian calendar.
pub open spec fn days_in_month(year: int, month: int) -> int {
    if month == 2 {
        if is_leap_year(year) {
            29
        } else {
            28
        }
    } else if month == 4 || month == 6 || month == 9 || month == 11 {
        30
    } else {
        31
    }
}

/// Relies on chrono's `NaiveDate::from_ymd_opt`, `checked_add_months`,
/// `pred_opt` and `Datelike::day` (proleptic Gregorian calendar): stepping
/// from the first of the month one month forward and one day back lands on
/// the last day of the given month, whose day-of-month is the month's
/// length. All four calls return `Some` for the admitted year range.
#[verifier::external_body]
pub(crate) fn last_day_of_month(year: i32, month: u32) -> (day: u32)
    requires
        1 <= month <= 12,
        1 <= year <= 9999,
    ensures
        day == days_in_month(year as int, month as int),
{
    let first = chrono::NaiveDate::from_ymd_opt(year, month, 1).unwrap();
    let first_of_next = first.checked_add_months(chrono::Months::new(1)).unwrap();
    let last = first_of_next.pred_opt().unwrap();
    chrono::Datelike::day(&last)
}

/// The timestamp a created correction carries: the last instant of the month
/// being closed, as plain calendar fields plus a fixed offset in seconds.
#[derive(Clone, Copy, PartialEq, Eq, Structural, Debug)]
pub struct MonthEndStamp {
    pub year: i32,
    pub month: u32,
    pub day: u32,
    pub hour: u32,
    pub minute: u32,
    pub second: u32,
    pub millisecond: u32,
    pub offset_seconds: i32,
}

/// Mathematical image of a [`MonthEndStamp`].
pub ghost struct StampModel {
    pub year: int,
    pub month: int,
    pub day: int,
    pub hour: int,
    pub minute: int,
    pub second: int,
    pub millisecond: int,
    pub offset_seconds: int,
}

impl View for MonthEndStamp {
    type V = StampModel;

    open spec fn view(&self) -> StampModel {
        StampModel {
            year: self.year as int,
            month: self.month as int,
            day: self.day as int,
            hour: self.hour as int,
            minute: self.minute as int,
            second: self.second as int,
            millisecond: self.millisecond as int,
            offset_seconds: self.offset_seconds as int,
        }
    }
}

/// The stamp that closes `(year, month)`: last day of the month, one
/// millisecond before midnight, in the fixed UTC+2 offset.
pub open spec fn month_end_model(year: int, month: int) -> StampModel {
    StampModel {
        year,
        month,
        day: days_in_month(year, month),
        hour: 23,
        minute: 59,
        second: 59,
        millisecond: 999,
        offset_seconds: 7200,
    }
}

/// Builds the timestamp for a correction that closes `(year, month)`.
pub fn month_end_stamp(year: i32, month: u32) -> (stamp: MonthEndStamp)
    requires
        1 <= month <= 12,
        1 <= year <= 9999,
    ensures
        stamp@ == month_end_model(year as int, month as int),
{
    MonthEndStamp {
        year,
        month,
        day: last_day_of_month(year, month),
        hour: 23,
        minute: 59,
        second: 59,
        millisecond: 999,
        offset_seconds: 2 * 3600,
    }
}

} // verus!
