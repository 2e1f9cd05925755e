//! The appointment record and the calendar model it rests on: a date as
//! year, month and day, a time of day as hour and minute, both with an
//! explicit validity predicate.

use vstd::prelude::*;

verus! {

/// A calendar date (year-month-day), with no timezone attached.
#[derive(Clone, Copy, PartialEq, Eq, Structural, Debug)]
pub struct Date {
    pub year: i32,
    pub month: u8,
    pub day: u8,
}

/// A time of day (hour:minute, 24-hour), with no timezone attached.
#[derive(Clone, Copy, PartialEq, Eq, Structural, Debug)]
pub struct Time {
    pub hour: u8,
    pub minute: u8,
}

/// One appointment. `id` is `None` before the record has been persisted;
/// the store assigns it exactly once, on first insert.
#[derive(Debug)]
pub struct Appointment {
    pub id: Option<i64>,
    pub date: Date,
    pub time: Time,
    pub description: String,
    pub location: String,
}

pub open spec fn is_leap_year(y: int) -> bool {
    y % 4 == 0 && (y % 100 != 0 || y % 400 == 0)
}

pub open spec fn days_in_month(y: int, m: int) -> int {
    if m == 2 {
        if is_leap_year(y) {
            29
        } else {
            28
        }
    } else if m == 4 || m == 6 || m == 9 || m == 11 {
        30
    } else {
        31
    }
}

/// A date the store can represent: the year fits its four-digit column,
/// month and day name a real day of the proleptic Gregorian calendar.
pub open spec fn valid_date(d: Date) -> bool {
    0 <= d.year <= 9999 && 1 <= d.month <= 12 && 1 <= d.day <= days_in_month(
        d.year as int,
        d.month as int,
    )
}

pub open spec fn valid_time(t: Time) -> bool {
    t.hour <= 23 && t.minute <= 59
}

/// Every record of `s` has been persisted (it carries an id) and holds a
/// valid date and time: what the registry mirrors after any completed
/// load, add or remove.
pub open spec fn valid_records(s: Seq<Appointment>) -> bool {
    forall|i: int|
        0 <= i < s.len() ==> {
            let a = #[trigger] s[i];
            a.id is Some && valid_date(a.date) && valid_time(a.time)
        }
}

impl Date {
    pub fn is_valid(&self) -> (r: bool)
        ensures
            r == valid_date(*self),
    {
        0 <= self.year && self.year <= 9999 && 1 <= self.month && self.month <= 12 && 1 <= self.day
            && self.day as i32 <= days_in_month_exec(self.year, self.month) as i32
    }
}

impl Time {
    pub fn is_valid(&self) -> (r: bool)
        ensures
            r == valid_time(*self),
    {
        self.hour <= 23 && self.minute <= 59
    }
}

#[verifier::rlimit(30)]
pub fn days_in_month_exec(year: i32, month: u8) -> (r: u8)
    ensures
        r as int == days_in_month(year as int, month as int),
{
    if month == 2 {
        if year % 4 == 0 && (year % 100 != 0 || year % 400 == 0) {
            29
        } else {
            28
        }
    } else if month == 4 || month == 6 || month == 9 || month == 11 {
        30
    } else {
        31
    }
}

impl Clone for Appointment {
    /// A clone keeps every field, so a snapshot shows exactly the
    /// registry's records.
    fn clone(&self) -> (r: Self)
        ensures
            r == *self,
    {
        Appointment {
            id: self.id,
            date: self.date,
            time: self.time,
            description: self.description.clone(),
            location: self.location.clone(),
        }
    }
}

} // verus!
