//! The library's only window on wall-clock time and the local time zone.
//!
//! Each function here converts between the library's plain civil values and
//! chrono's calendar types; nothing else in the library touches the clock.
//! The current moment and the machine's time zone are outside any contract,
//! so these functions promise only the documented field ranges; callers
//! validate the parts and state what holds of every outcome.

use vstd::prelude::*;
use chrono::{Datelike, TimeZone, Timelike};

use crate::calendar::{Date, Time};

verus! {

/// A civil date and time as plain parts: year, month, day, hour, minute.
/// The year is unconstrained; the other fields carry chrono's documented
/// ranges, which callers re-validate before building library values.
pub struct CivilParts {
    pub year: i32,
    pub month: u8,
    pub day: u8,
    pub hour: u8,
    pub minute: u8,
}

impl CivilParts {
    /// The ranges that chrono documents for its accessors.
    pub open spec fn ranged(self) -> bool {
        &&& 1 <= self.month <= 12
        &&& 1 <= self.day <= 31
        &&& self.hour < 24
        &&& self.minute < 60
    }
}

/// Relies on chrono's `Local::now` and the `Datelike`/`Timelike` accessors:
/// the month is 1 to 12, the day 1 to 31, the hour below 24, the minute
/// below 60.  Which moment comes back is outside any contract.
#[verifier::external_body]
pub fn now_local_parts() -> (r: CivilParts)
    ensures
        r.ranged(),
{
    let now = chrono::Local::now();
    CivilParts {
        year: now.year(),
        month: now.month() as u8,
        day: now.day() as u8,
        hour: now.hour() as u8,
        minute: now.minute() as u8,
    }
}

/// Relies on chrono's `Utc::now` and the `Datelike`/`Timelike` accessors,
/// with the same documented ranges as `now_local_parts`.
#[verifier::external_body]
pub fn now_utc_parts() -> (r: CivilParts)
    ensures
        r.ranged(),
{
    let now = chrono::Utc::now();
    CivilParts {
        year: now.year(),
        month: now.month() as u8,
        day: now.day() as u8,
        hour: now.hour() as u8,
        minute: now.minute() as u8,
    }
}

/// Relies on chrono's `Local::from_local_datetime`: a local civil time maps
/// to one UTC civil time when it exists unambiguously in the machine's time
/// zone, and to nothing across a fold or gap; ranges as documented.
#[verifier::external_body]
pub fn local_civil_to_utc_parts(d: Date, t: Time) -> (r: Option<CivilParts>)
    ensures
        match r {
            Some(p) => p.ranged(),
            None => true,
        },
{
    let nd = chrono::NaiveDate::from_ymd_opt(d.year as i32, d.month as u32, d.day as u32)?;
    let nt = chrono::NaiveTime::from_hms_opt(t.hour as u32, t.minute as u32, 0)?;
    let local = chrono::Local.from_local_datetime(&nd.and_time(nt)).single()?;
    let u = local.with_timezone(&chrono::Utc);
    Some(CivilParts {
        year: u.year(),
        month: u.month() as u8,
        day: u.day() as u8,
        hour: u.hour() as u8,
        minute: u.minute() as u8,
    })
}

/// Relies on chrono's `Utc::from_utc_datetime` and `with_timezone`: a UTC
/// civil time shown on the machine's local clock; ranges as documented.
#[verifier::external_body]
pub fn utc_civil_to_local_parts(d: Date, t: Time) -> (r: Option<CivilParts>)
    ensures
        match r {
            Some(p) => p.ranged(),
            None => true,
        },
{
    let nd = chrono::NaiveDate::from_ymd_opt(d.year as i32, d.month as u32, d.day as u32)?;
    let nt = chrono::NaiveTime::from_hms_opt(t.hour as u32, t.minute as u32, 0)?;
    let l = chrono::Utc.from_utc_datetime(&nd.and_time(nt)).with_timezone(&chrono::Local);
    Some(CivilParts {
        year: l.year(),
        month: l.month() as u8,
        day: l.day() as u8,
        hour: l.hour() as u8,
        minute: l.minute() as u8,
    })
}

/// Validates clock parts into a well-formed civil date-time.
pub fn civil_of_parts(p: CivilParts) -> (r: Option<crate::calendar::CivilDateTime>)
    ensures
        match r {
            Some(c) => {
                &&& c.wf()
                &&& c.date.year == p.year
                &&& c.date.month == p.month
                &&& c.date.day == p.day
                &&& c.time.hour == p.hour
                &&& c.time.minute == p.minute
            },
            None => true,
        },
        p.ranged() && 0 <= p.year <= 9999 && p.day <= crate::calendar::spec_days_in_month(
            p.year as int,
            p.month as int,
        ) ==> r is Some,
{
    if p.year < 0 || p.year > 9999 {
        return None;
    }
    match Date::new(p.year as u16, p.month, p.day) {
        Some(date) => {
            if p.hour < 24 && p.minute < 60 {
                Some(
                    crate::calendar::CivilDateTime {
                        date,
                        time: Time { hour: p.hour, minute: p.minute },
                    },
                )
            } else {
                None
            }
        },
        None => None,
    }
}

} // verus!
