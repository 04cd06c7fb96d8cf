//! A verified proleptic-Gregorian calendar over plain integers.
//!
//! Dates are year/month/day triples in the years 0 through 9999; a date is
//! equivalently a day index (days since 0000-01-01), and instants are seconds
//! since 0000-01-01 00:00 in UTC.  All arithmetic here is proved against the
//! recursive definitions below; only the wall clock and the local time zone
//! come from outside the library.

use vstd::prelude::*;
use vstd::arithmetic::div_mod::{lemma_add_mod_noop, lemma_mod_self_0, lemma_mod_twice, lemma_small_mod};

verus! {

/// A calendar date, valid when `wf()` holds.
#[derive(Clone, Copy, Debug, PartialEq, Eq, Structural)]
pub struct Date {
    pub year: u16,
    pub month: u8,
    pub day: u8,
}

/// A time of day with minute resolution.
#[derive(Clone, Copy, Debug, PartialEq, Eq, Structural)]
pub struct Time {
    pub hour: u8,
    pub minute: u8,
}

/// A date together with a time of day.
#[derive(Clone, Copy, Debug, PartialEq, Eq, Structural)]
pub struct CivilDateTime {
    pub date: Date,
    pub time: Time,
}

pub open spec fn spec_is_leap(y: int) -> bool {
    (y % 4 == 0 && y % 100 != 0) || y % 400 == 0
}

pub open spec fn spec_days_in_month(y: int, m: int) -> int {
    if m == 2 {
        if spec_is_leap(y) {
            29
        } else {
            28
        }
    } else if m == 4 || m == 6 || m == 9 || m == 11 {
        30
    } else {
        31
    }
}

pub open spec fn spec_days_in_year(y: int) -> int {
    if spec_is_leap(y) {
        366
    } else {
        365
    }
}

/// Days in all years before `y`, counting from year 0.
pub open spec fn spec_days_before_year(y: int) -> int
    decreases y,
{
    if y <= 0 {
        0
    } else {
        spec_days_before_year(y - 1) + spec_days_in_year(y - 1)
    }
}

/// Days in all months of year `y` before month `m`.
pub open spec fn spec_days_before_month(y: int, m: int) -> int
    decreases m,
{
    if m <= 1 {
        0
    } else {
        spec_days_before_month(y, m - 1) + spec_days_in_month(y, m - 1)
    }
}

/// One day past the last representable day index.
pub open spec fn spec_day_count() -> int {
    spec_days_before_year(10000)
}

/// Day of the week of a day index, with Monday as 0 and Sunday as 6.
pub open spec fn spec_weekday(idx: int) -> int {
    (idx + 5) % 7
}

impl Date {
    pub open spec fn wf(self) -> bool {
        &&& self.year <= 9999
        &&& 1 <= self.month <= 12
        &&& 1 <= self.day <= spec_days_in_month(self.year as int, self.month as int)
    }

    /// Days since 0000-01-01.
    pub open spec fn spec_day_index(self) -> int {
        spec_days_before_year(self.year as int) + spec_days_before_month(
            self.year as int,
            self.month as int,
        ) + self.day - 1
    }
}

impl Time {
    pub open spec fn wf(self) -> bool {
        self.hour < 24 && self.minute < 60
    }

    /// Minutes since midnight.
    pub open spec fn spec_minutes(self) -> int {
        self.hour * 60 + self.minute
    }
}

impl CivilDateTime {
    pub open spec fn wf(self) -> bool {
        self.date.wf() && self.time.wf()
    }

    /// Seconds since 0000-01-01 00:00.
    pub open spec fn spec_instant(self) -> int {
        self.date.spec_day_index() * 86400 + self.time.spec_minutes() * 60
    }
}

pub proof fn lemma_days_before_year_monotone(y1: int, y2: int)
    requires
        0 <= y1 <= y2,
    ensures
        spec_days_before_year(y1) <= spec_days_before_year(y2),
        y1 < y2 ==> spec_days_before_year(y1) + spec_days_in_year(y1) <= spec_days_before_year(y2),
    decreases y2 - y1,
{
    if y1 < y2 {
        lemma_days_before_year_monotone(y1 + 1, y2);
    }
}

pub proof fn lemma_days_before_year_bounds(y: int)
    requires
        0 <= y,
    ensures
        365 * y <= spec_days_before_year(y) <= 366 * y,
    decreases y,
{
    if y > 0 {
        lemma_days_before_year_bounds(y - 1);
    }
}

pub proof fn lemma_days_before_month_monotone(y: int, m1: int, m2: int)
    requires
        1 <= m1 <= m2,
    ensures
        spec_days_before_month(y, m1) <= spec_days_before_month(y, m2),
    decreases m2 - m1,
{
    if m1 < m2 {
        lemma_days_before_month_monotone(y, m1, m2 - 1);
    }
}

pub proof fn lemma_days_before_month_bounds(y: int, m: int)
    requires
        1 <= m <= 13,
    ensures
        0 <= spec_days_before_month(y, m) <= 31 * (m - 1),
        m <= 12 ==> spec_days_before_month(y, m) + spec_days_in_month(y, m)
            <= spec_days_before_month(y, 13),
    decreases m,
{
    if m > 1 {
        lemma_days_before_month_bounds(y, m - 1);
    }
    if m <= 12 {
        assert(spec_days_before_month(y, m + 1) == spec_days_before_month(y, m)
            + spec_days_in_month(y, m));
        lemma_days_before_month_monotone(y, m + 1, 13);
    }
}

/// The months of a year sum to the year's length.
pub proof fn lemma_months_fill_year(y: int)
    ensures
        spec_days_before_month(y, 13) == spec_days_in_year(y),
{
    reveal_with_fuel(spec_days_before_month, 13);
    assert(spec_days_before_month(y, 13) == spec_days_in_year(y));
}

/// A well-formed date's day index lies inside its own year.
pub proof fn lemma_day_index_in_year(d: Date)
    requires
        d.wf(),
    ensures
        spec_days_before_year(d.year as int) <= d.spec_day_index(),
        d.spec_day_index() < spec_days_before_year(d.year as int + 1),
        0 <= d.spec_day_index() < spec_day_count(),
{
    lemma_days_before_month_bounds(d.year as int, d.month as int);
    lemma_months_fill_year(d.year as int);
    assert(spec_days_before_month(d.year as int, 1) == 0);
    if d.month > 1 {
        lemma_days_before_month_nonneg(d.year as int, d.month as int);
    }
    lemma_days_before_year_monotone(d.year as int + 1, 10000);
    lemma_days_before_year_bounds(d.year as int);
}

proof fn lemma_days_before_month_nonneg(y: int, m: int)
    requires
        1 <= m,
    ensures
        spec_days_before_month(y, m) >= 0,
    decreases m,
{
    if m > 1 {
        lemma_days_before_month_nonneg(y, m - 1);
    }
}

pub fn is_leap_year(y: u16) -> (r: bool)
    ensures
        r == spec_is_leap(y as int),
{
    (y % 4 == 0 && y % 100 != 0) || y % 400 == 0
}

pub fn days_in_month(y: u16, m: u8) -> (r: u8)
    requires
        1 <= m <= 12,
    ensures
        r == spec_days_in_month(y as int, m as int),
{
    if m == 2 {
        if is_leap_year(y) {
            29
        } else {
            28
        }
    } else if m == 4 || m == 6 || m == 9 || m == 11 {
        30
    } else {
        31
    }
}

pub fn days_in_year(y: u16) -> (r: u16)
    ensures
        r == spec_days_in_year(y as int),
{
    if is_leap_year(y) {
        366
    } else {
        365
    }
}

/// Total number of representable day indexes.
pub fn day_count() -> (r: u32)
    ensures
        r == spec_day_count(),
{
    days_before_year(10000)
}

/// Days in all years before `y`, as an executable computation.
pub fn days_before_year(y: u16) -> (r: u32)
    requires
        y <= 10000,
    ensures
        r == spec_days_before_year(y as int),
{
    let mut acc: u32 = 0;
    let mut i: u16 = 0;
    while i < y
        invariant
            i <= y <= 10000,
            acc == spec_days_before_year(i as int),
        decreases y - i,
    {
        proof {
            lemma_days_before_year_bounds(i as int + 1);
        }
        acc = acc + days_in_year(i) as u32;
        i = i + 1;
    }
    acc
}

impl Date {
    /// Builds a date when the triple is a valid calendar date.
    pub fn new(year: u16, month: u8, day: u8) -> (r: Option<Date>)
        ensures
            match r {
                Some(d) => d.wf() && d.year == year && d.month == month && d.day == day,
                None => !(Date { year, month, day }).wf(),
            },
    {
        if year <= 9999 && 1 <= month && month <= 12 && 1 <= day && day <= days_in_month(
            year,
            month,
        ) {
            Some(Date { year, month, day })
        } else {
            None
        }
    }

    /// Days since 0000-01-01.
    pub fn day_index(self) -> (r: u32)
        requires
            self.wf(),
        ensures
            r == self.spec_day_index(),
            r < spec_day_count(),
    {
        proof {
            lemma_day_index_in_year(self);
        }
        let base = days_before_year(self.year);
        let mut acc: u32 = 0;
        let mut m: u8 = 1;
        while m < self.month
            invariant
                self.wf(),
                1 <= m <= self.month,
                acc == spec_days_before_month(self.year as int, m as int),
                acc <= 31 * (m - 1),
            decreases self.month - m,
        {
            proof {
                lemma_days_before_month_bounds(self.year as int, m as int + 1);
            }
            acc = acc + days_in_month(self.year, m) as u32;
            m = m + 1;
        }
        proof {
            lemma_days_before_year_bounds(self.year as int);
        }
        base + acc + self.day as u32 - 1
    }

    /// Recovers the date of a day index.
    pub fn of_day_index(n: u32) -> (r: Date)
        requires
            n < spec_day_count(),
        ensures
            r.wf(),
            r.spec_day_index() == n,
    {
        let mut y: u16 = 0;
        let mut acc: u32 = 0;
        while n - acc >= days_in_year(y) as u32
            invariant
                y <= 9999,
                acc == spec_days_before_year(y as int),
                acc <= n < spec_day_count(),
            decreases spec_day_count() - acc,
        {
            proof {
                lemma_days_before_year_bounds(y as int + 1);
                if y as int + 1 > 9999 {
                    lemma_days_before_year_monotone(y as int + 1, 10000);
                    assert(false);
                }
            }
            acc = acc + days_in_year(y) as u32;
            y = y + 1;
        }
        // n now falls inside year y
        let mut m: u8 = 1;
        let mut macc: u32 = acc;
        proof {
            lemma_months_fill_year(y as int);
        }
        while n - macc >= days_in_month(y, m) as u32
            invariant
                y <= 9999,
                1 <= m <= 12,
                acc == spec_days_before_year(y as int),
                macc == acc + spec_days_before_month(y as int, m as int),
                macc <= n,
                n - acc < spec_days_in_year(y as int),
                spec_days_before_month(y as int, 13) == spec_days_in_year(y as int),
            decreases 12 - m,
        {
            proof {
                if m as int + 1 > 12 {
                    lemma_days_before_month_bounds(y as int, 13);
                    assert(false);
                }
                lemma_days_before_month_bounds(y as int, m as int + 1);
            }
            macc = macc + days_in_month(y, m) as u32;
            m = m + 1;
        }
        let day = (n - macc + 1) as u8;
        Date { year: y, month: m, day }
    }
}

/// Day of the week of a day index, with Monday as 0 and Sunday as 6.
pub fn weekday_of_index(n: u32) -> (r: u8)
    requires
        n < spec_day_count(),
    ensures
        r == spec_weekday(n as int),
        r < 7,
{
    proof {
        lemma_days_before_year_bounds(10000);
    }
    ((n + 5) % 7) as u8
}

/// Weekdays repeat with period 7.
pub proof fn lemma_weekday_step(idx: int, k: int)
    requires
        0 <= idx,
        0 <= k,
    ensures
        spec_weekday(idx + k) == (spec_weekday(idx) + k) % 7,
{
    lemma_add_mod_noop(idx + 5, k, 7);
    lemma_mod_self_0(7);
    lemma_mod_twice(idx + 5, 7);
    assert((idx + 5) % 7 % 7 == (idx + 5) % 7);
    assert(((idx + 5) % 7 + k % 7) % 7 == ((idx + 5) + k) % 7) by {
        lemma_add_mod_noop(idx + 5, k, 7);
    };
    assert(((idx + 5) % 7 + k) % 7 == ((idx + 5) % 7 % 7 + k % 7) % 7) by {
        lemma_add_mod_noop((idx + 5) % 7, k, 7);
    };
}

/// Adds a signed number of days, inside the representable range.
pub fn add_days(d: Date, delta: i64) -> (r: Option<Date>)
    requires
        d.wf(),
    ensures
        match r {
            Some(d2) => {
                &&& d2.wf()
                &&& d2.spec_day_index() == d.spec_day_index() + delta
                &&& 0 <= d.spec_day_index() + delta < spec_day_count()
            },
            None => !(0 <= d.spec_day_index() + delta < spec_day_count()),
        },
{
    let idx = d.day_index() as i64;
    proof {
        lemma_days_before_year_bounds(10000);
    }
    // both operands are far from the i64 range ends, so the sum cannot wrap
    if delta >= -4000000 && delta <= 4000000 {
        let target = idx + delta;
        if target >= 0 && target < day_count() as i64 {
            Some(Date::of_day_index(target as u32))
        } else {
            None
        }
    } else {
        None
    }
}

/// The first date strictly after `today` whose weekday is `target`.
pub fn next_weekday_date(today: Date, target: u8) -> (r: Option<Date>)
    requires
        today.wf(),
        target < 7,
    ensures
        match r {
            Some(d) => {
                &&& d.wf()
                &&& today.spec_day_index() < d.spec_day_index() <= today.spec_day_index() + 7
                &&& spec_weekday(d.spec_day_index()) == target
                &&& forall|j: int|
                    today.spec_day_index() < j < d.spec_day_index() ==> spec_weekday(j) != target
            },
            None => today.spec_day_index() + 7 >= spec_day_count(),
        },
{
    proof {
        lemma_day_index_in_year(today);
    }
    let mut k: i64 = 1;
    while k <= 7
        invariant
            today.wf(),
            0 <= today.spec_day_index(),
            1 <= k <= 8,
            target < 7,
            forall|j: int|
                today.spec_day_index() < j < today.spec_day_index() + k ==> spec_weekday(j)
                    != target,
        decreases 8 - k,
    {
        match add_days(today, k) {
            Some(d) => {
                let w = weekday_of_index(d.day_index());
                if w == target {
                    return Some(d);
                }
            },
            None => {
                return None;
            },
        }
        k = k + 1;
    }
    proof {
        // among seven consecutive days every weekday occurs
        let idx = today.spec_day_index();
        let w0 = spec_weekday(idx + 1);
        let k0 = (target - w0) % 7;
        lemma_weekday_step(idx + 1, k0);
        assert(spec_weekday(idx + 1 + k0) == (w0 + k0) % 7);
        assert(0 <= w0 < 7) by {
            assert(spec_weekday(idx + 1) == (idx + 6) % 7);
        };
        assert(0 <= k0 < 7);
        assert((w0 + (target - w0) % 7) % 7 == target as int) by {
            if target as int - w0 >= 0 {
                lemma_small_mod((target as int - w0) as nat, 7);
                lemma_small_mod(target as nat, 7);
            } else {
                assert((target - w0) % 7 == target - w0 + 7);
                lemma_small_mod(target as nat, 7);
            }
        };
        assert(spec_weekday(idx + 1 + k0) == target);
        assert(idx < idx + 1 + k0 < idx + 8);
        assert(false);
    }
    None
}

/// Seconds since 0000-01-01 00:00 of a civil date-time.
pub fn instant_of_civil(c: CivilDateTime) -> (r: u64)
    requires
        c.wf(),
    ensures
        r == c.spec_instant(),
        r < spec_day_count() * 86400,
{
    let idx = c.date.day_index() as u64;
    proof {
        lemma_days_before_year_bounds(10000);
        lemma_day_index_in_year(c.date);
    }
    idx * 86400 + (c.time.hour as u64 * 60 + c.time.minute as u64) * 60
}

/// Recovers the civil date-time of an instant, dropping seconds.
pub fn civil_of_instant(i: u64) -> (r: Option<CivilDateTime>)
    ensures
        match r {
            Some(c) => {
                &&& c.wf()
                &&& c.spec_instant() <= i < c.spec_instant() + 60
            },
            None => i >= spec_day_count() * 86400,
        },
{
    proof {
        lemma_days_before_year_bounds(10000);
    }
    let days = i / 86400;
    if days >= day_count() as u64 {
        return None;
    }
    let date = Date::of_day_index(days as u32);
    let rem = i % 86400;
    let hour = (rem / 3600) as u8;
    let minute = ((rem % 3600) / 60) as u8;
    let c = CivilDateTime { date, time: Time { hour, minute } };
    Some(c)
}

} // verus!
