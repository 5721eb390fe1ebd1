//! Calendar dates, the moment of an invocation, and the week that holds it.
use vstd::prelude::*;

verus! {

/// Gregorian leap-year rule.
pub open spec fn is_leap_year(y: int) -> bool {
    y % 4 == 0 && (y % 100 != 0 || y % 400 == 0)
}

/// Number of days in month `m` (1 to 12) of year `y`.
pub open spec fn days_in_month(y: int, m: int) -> int {
    if m == 2 {
        if is_leap_year(y) { 29 } else { 28 }
    } else if m == 4 || m == 6 || m == 9 || m == 11 {
        30
    } else {
        31
    }
}

/// A calendar date. Years run from 0 to 9999 so that each prints as four digits.
#[derive(Clone, Copy, Debug, PartialEq, Eq)]
pub struct Date {
    pub year: i32,
    pub month: u32,
    pub day: u32,
}

impl Date {
    pub open spec fn wf(self) -> bool {
        &&& 0 <= self.year <= 9999
        &&& 1 <= self.month <= 12
        &&& 1 <= self.day <= days_in_month(self.year as int, self.month as int)
    }

    /// Builds a date, or `None` when the parts do not name a date of years 0 to 9999.
    pub fn new(year: i32, month: u32, day: u32) -> (r: Option<Date>)
        ensures
            r is Some <==> (Date { year, month, day }).wf(),
            r is Some ==> r->0 == (Date { year, month, day }),
    {
        if 0 <= year && year <= 9999 && 1 <= month && month <= 12 && 1 <= day
            && day <= month_length(year, month) {
            Some(Date { year, month, day })
        } else {
            None
        }
    }

    /// The day before this one.
    pub fn pred(&self) -> (r: Date)
        requires
            self.wf(),
            !(self.year == 0 && self.month == 1 && self.day == 1),
        ensures
            r == prev_day(*self),
            r.wf(),
    {
        if self.day > 1 {
            Date { year: self.year, month: self.month, day: self.day - 1 }
        } else if self.month > 1 {
            Date { year: self.year, month: self.month - 1, day: month_length(self.year, self.month - 1) }
        } else {
            Date { year: self.year - 1, month: 12, day: 31 }
        }
    }
}

/// The day before `d`.
pub open spec fn prev_day(d: Date) -> Date {
    if d.day > 1 {
        Date { day: (d.day - 1) as u32, ..d }
    } else if d.month > 1 {
        Date {
            year: d.year,
            month: (d.month - 1) as u32,
            day: days_in_month(d.year as int, d.month - 1) as u32,
        }
    } else {
        Date { year: (d.year - 1) as i32, month: 12, day: 31 }
    }
}

/// The date `k` days before `d`.
pub open spec fn days_back(d: Date, k: nat) -> Date
    decreases k,
{
    if k == 0 {
        d
    } else {
        days_back(prev_day(d), (k - 1) as nat)
    }
}

pub fn is_leap(y: i32) -> (r: bool)
    ensures
        r == is_leap_year(y as int),
{
    y % 4 == 0 && (y % 100 != 0 || y % 400 == 0)
}

pub fn month_length(y: i32, m: u32) -> (r: u32)
    ensures
        r == days_in_month(y as int, m as int),
{
    if m == 2 {
        if is_leap(y) { 29 } else { 28 }
    } else if m == 4 || m == 6 || m == 9 || m == 11 {
        30
    } else {
        31
    }
}

/// The local time of one invocation, to the minute. `weekday` counts days
/// from Sunday (Sunday is 0, Saturday is 6).
#[derive(Clone, Copy, Debug, PartialEq, Eq)]
pub struct Moment {
    pub date: Date,
    pub weekday: u32,
    pub hour: u32,
    pub minute: u32,
}

/// The most recent Sunday on or before the moment's date.
pub open spec fn week_start_of(m: Moment) -> Date {
    days_back(m.date, m.weekday as nat)
}

impl Moment {
    /// Years start at 1 so that the week's Sunday is still a date of year 0 or later.
    pub open spec fn wf(self) -> bool {
        &&& self.date.wf()
        &&& self.date.year >= 1
        &&& self.weekday < 7
        &&& self.hour < 24
        &&& self.minute < 60
    }

    /// Builds a moment, or `None` when the parts are out of range.
    pub fn new(year: i32, month: u32, day: u32, weekday: u32, hour: u32, minute: u32) -> (r:
        Option<Moment>)
        ensures
            r is Some <==> (Moment { date: Date { year, month, day }, weekday, hour, minute }).wf(),
            r is Some ==> r->0 == (Moment { date: Date { year, month, day }, weekday, hour, minute }),
    {
        match Date::new(year, month, day) {
            Some(date) => {
                if year >= 1 && weekday < 7 && hour < 24 && minute < 60 {
                    Some(Moment { date, weekday, hour, minute })
                } else {
                    None
                }
            },
            None => None,
        }
    }

    /// The Sunday that starts this moment's week: step back one day at a
    /// time until the weekday is Sunday.
    pub fn week_start(&self) -> (r: Date)
        requires
            self.wf(),
        ensures
            r == week_start_of(*self),
            r.wf(),
    {
        let mut cur = self.date;
        let mut w: u32 = self.weekday;
        while w > 0
            invariant
                w < 7,
                cur.wf(),
                cur.year >= 1 || (cur.year == 0 && cur.month == 12 && cur.day >= 25 + w),
                days_back(cur, w as nat) == week_start_of(*self),
            decreases w,
        {
            cur = cur.pred();
            w = w - 1;
        }
        cur
    }
}

/// Stepping back `a` days and then `b` days is stepping back `a + b` days.
pub proof fn lemma_days_back_split(d: Date, a: nat, b: nat)
    ensures
        days_back(days_back(d, a), b) == days_back(d, a + b),
    decreases a,
{
    if a > 0 {
        lemma_days_back_split(prev_day(d), (a - 1) as nat, b);
    }
}

} // verus!
