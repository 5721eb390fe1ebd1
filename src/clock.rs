//! The local time of the machine, read through chrono.
use vstd::prelude::*;
use chrono::{Datelike, Timelike};
use crate::calendar::Moment;

verus! {

/// Relies on chrono's `Local::now` and the `Datelike` and `Timelike`
/// accessors of its result: the local date and time as year, month, day,
/// days from Sunday, hour and minute. chrono documents month 1 to 12, day 1
/// to 31, `num_days_from_sunday` 0 to 6, hour 0 to 23 and minute 0 to 59.
#[verifier::external_body]
fn local_now() -> (r: (i32, u32, u32, u32, u32, u32))
    ensures
        1 <= r.1 <= 12,
        1 <= r.2 <= 31,
        r.3 < 7,
        r.4 < 24,
        r.5 < 60,
{
    let now = chrono::Local::now();
    (now.year(), now.month(), now.day(), now.weekday().num_days_from_sunday(), now.hour(), now.minute())
}

impl Moment {
    /// The local time now; `None` when its year lies outside 1 to 9999.
    pub fn now() -> (r: Option<Moment>)
        ensures
            r matches Some(m) ==> m.wf(),
    {
        let (year, month, day, weekday, hour, minute) = local_now();
        Moment::new(year, month, day, weekday, hour, minute)
    }
}

} // verus!
