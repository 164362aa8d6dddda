//! Civil-calendar view of Unix-epoch milliseconds, with the two renderings
//! the delivery paths need: RFC3339 with millisecond precision, and the
//! `/dt=%Y%m%d/hour=%H/` time-partition key evaluated in UTC.

use vstd::prelude::*;

use crate::strutil::{spec_dec, spec_pad2, spec_pad3, u64_to_dec, u64_to_pad2, u64_to_pad3};

verus! {

pub const MILLIS_PER_DAY: u64 = 86_400_000;

pub const MILLIS_PER_HOUR: u64 = 3_600_000;

pub const MILLIS_PER_MINUTE: u64 = 60_000;

pub const MILLIS_PER_SECOND: u64 = 1_000;

pub open spec fn is_leap_year(y: int) -> bool {
    y % 4 == 0 && (y % 100 != 0 || y % 400 == 0)
}

pub open spec fn spec_days_in_year(y: int) -> int {
    if is_leap_year(y) {
        366
    } else {
        365
    }
}

pub open spec fn spec_days_in_month(y: int, m: int) -> int {
    if m == 2 {
        if is_leap_year(y) {
            29
        } else {
            28
        }
    } else if m == 4 || m == 6 || m == 9 || m == 11 {
        30
    } else {
        31
    }
}

/// Steps year by year from `y`, consuming whole years out of `rem` days.
pub open spec fn spec_year_split(y: int, rem: int) -> (int, int)
    decreases rem,
{
    if rem < spec_days_in_year(y) || rem < 0 {
        (y, rem)
    } else {
        spec_year_split(y + 1, rem - spec_days_in_year(y))
    }
}

/// Steps month by month from `m`, consuming whole months out of `rem` days.
pub open spec fn spec_month_split(y: int, m: int, rem: int) -> (int, int)
    decreases rem,
{
    if rem < spec_days_in_month(y, m) || rem < 0 {
        (m, rem)
    } else {
        spec_month_split(y, m + 1, rem - spec_days_in_month(y, m))
    }
}

/// The proleptic-Gregorian UTC date holding the given day number, counted
/// from 1970-01-01: `(year, month, day)` with month and day one-based.
pub open spec fn spec_civil_from_days(days: int) -> (int, int, int) {
    let (y, rem) = spec_year_split(1970, days);
    let (m, rem2) = spec_month_split(y, 1, rem);
    (y, m, rem2 + 1)
}

/// Days in the years from 1970 up to, excluding, year `y`.
pub open spec fn spec_days_in_years_before(y: int) -> int
    decreases y - 1970,
{
    if y <= 1970 {
        0
    } else {
        spec_days_in_years_before(y - 1) + spec_days_in_year(y - 1)
    }
}

/// Days in the months of year `y` before month `m`.
pub open spec fn spec_days_before_month(y: int, m: int) -> int
    decreases m,
{
    if m <= 1 {
        0
    } else {
        spec_days_before_month(y, m - 1) + spec_days_in_month(y, m - 1)
    }
}

/// The day number, counted from 1970-01-01, of a civil date.
pub open spec fn spec_days_from_civil(y: int, m: int, d: int) -> int {
    spec_days_in_years_before(y) + spec_days_before_month(y, m) + (d - 1)
}

proof fn lemma_year_split_sum(y: int, rem: int)
    requires
        y >= 1970,
        rem >= 0,
    ensures
        ({
            let (fy, frem) = spec_year_split(y, rem);
            spec_days_in_years_before(fy) - spec_days_in_years_before(y) + frem == rem
        }),
    decreases rem,
{
    if rem >= spec_days_in_year(y) {
        lemma_year_split_sum(y + 1, rem - spec_days_in_year(y));
    }
}

proof fn lemma_month_split_sum(y: int, m: int, rem: int)
    requires
        m >= 1,
        rem >= 0,
    ensures
        ({
            let (fm, frem) = spec_month_split(y, m, rem);
            spec_days_before_month(y, fm) - spec_days_before_month(y, m) + frem == rem
        }),
    decreases rem,
{
    if rem >= spec_days_in_month(y, m) {
        lemma_month_split_sum(y, m + 1, rem - spec_days_in_month(y, m));
    }
}

/// A calendar timestamp decomposed from Unix-epoch milliseconds.
pub struct CivilDateTime {
    pub year: u64,
    pub month: u8,
    pub day: u8,
    pub hour: u8,
    pub minute: u8,
    pub second: u8,
    pub millisecond: u16,
}

impl CivilDateTime {
    /// The decomposition is the one that the civil-calendar split of the
    /// day count and the fixed split of the time of day prescribe.
    pub open spec fn is_decomposition_of(self, ms: int) -> bool {
        let days = ms / (MILLIS_PER_DAY as int);
        let in_day = ms % (MILLIS_PER_DAY as int);
        &&& (self.year as int, self.month as int, self.day as int) == spec_civil_from_days(days)
        &&& self.hour as int == in_day / (MILLIS_PER_HOUR as int)
        &&& self.minute as int == in_day % (MILLIS_PER_HOUR as int) / (MILLIS_PER_MINUTE as int)
        &&& self.second as int == in_day % (MILLIS_PER_MINUTE as int) / (MILLIS_PER_SECOND as int)
        &&& self.millisecond as int == in_day % (MILLIS_PER_SECOND as int)
    }
}

fn days_in_year(y: u64) -> (r: u64)
    ensures
        r as int == spec_days_in_year(y as int),
{
    if y % 4 == 0 && (y % 100 != 0 || y % 400 == 0) {
        366
    } else {
        365
    }
}

fn days_in_month(y: u64, m: u8) -> (r: u64)
    ensures
        r as int == spec_days_in_month(y as int, m as int),
{
    if m == 2 {
        if y % 4 == 0 && (y % 100 != 0 || y % 400 == 0) {
            29
        } else {
            28
        }
    } else if m == 4 || m == 6 || m == 9 || m == 11 {
        30
    } else {
        31
    }
}

proof fn lemma_year_split_bounds(y: int, rem: int)
    requires
        rem >= 0,
    ensures
        ({
            let (fy, frem) = spec_year_split(y, rem);
            &&& y <= fy <= y + rem
            &&& 0 <= frem < spec_days_in_year(fy)
            &&& frem <= rem
        }),
    decreases rem,
{
    if rem >= spec_days_in_year(y) {
        lemma_year_split_bounds(y + 1, rem - spec_days_in_year(y));
    }
}

proof fn lemma_month_split_bounds(y: int, m: int, rem: int)
    requires
        0 <= rem < 366,
        1 <= m <= 12,
        rem < spec_days_in_year(y),
        // days available from month m onward cover rem
        rem < spec_days_remaining(y, m),
    ensures
        ({
            let (fm, frem) = spec_month_split(y, m, rem);
            &&& m <= fm <= 12
            &&& 1 <= frem + 1 <= spec_days_in_month(y, fm)
        }),
    decreases 12 - m,
{
    if rem >= spec_days_in_month(y, m) {
        assert(spec_days_remaining(y, m) == spec_days_in_month(y, m) + spec_days_remaining(
            y,
            m + 1,
        ));
        assert(m < 12) by {
            if m == 12 {
                assert(spec_days_remaining(y, 12) == spec_days_in_month(y, 12) + 0);
            }
        }
        lemma_month_split_bounds(y, m + 1, rem - spec_days_in_month(y, m));
    }
}

/// Days in months `m ..= 12` of year `y`.
pub open spec fn spec_days_remaining(y: int, m: int) -> int
    decreases 13 - m,
{
    if m > 12 || m < 1 {
        0
    } else {
        spec_days_in_month(y, m) + spec_days_remaining(y, m + 1)
    }
}

proof fn lemma_days_remaining_whole_year(y: int)
    ensures
        spec_days_remaining(y, 1) == spec_days_in_year(y),
{
    reveal_with_fuel(spec_days_remaining, 13);
}

/// Decomposes Unix-epoch milliseconds into a UTC calendar timestamp.
pub fn civil_from_millis(ms: u64) -> (r: CivilDateTime)
    ensures
        r.is_decomposition_of(ms as int),
        // the decomposition is the true inverse of the day count
        spec_days_from_civil(r.year as int, r.month as int, r.day as int) == ms as int / (
        MILLIS_PER_DAY as int),
        r.year >= 1970,
        1 <= r.month <= 12,
        1 <= r.day <= 31,
        r.hour < 24,
        r.minute < 60,
        r.second < 60,
        r.millisecond < 1000,
{
    let days: u64 = ms / MILLIS_PER_DAY;
    let in_day: u64 = ms % MILLIS_PER_DAY;

    let mut y: u64 = 1970;
    let mut rem: u64 = days;
    let mut dy: u64 = days_in_year(y);
    proof {
        lemma_year_split_bounds(1970, days as int);
        vstd::arithmetic::div_mod::lemma_fundamental_div_mod(ms as int, MILLIS_PER_DAY as int);
    }
    while dy <= rem
        invariant
            1970 <= y,
            y as int + rem as int <= 1970 + days as int,
            days as int * (MILLIS_PER_DAY as int) <= u64::MAX as int,
            dy as int == spec_days_in_year(y as int),
            spec_year_split(y as int, rem as int) == spec_year_split(1970, days as int),
        decreases rem,
    {
        rem = rem - dy;
        y = y + 1;
        dy = days_in_year(y);
    }
    proof {
        lemma_year_split_bounds(1970, days as int);
        assert(spec_year_split(y as int, rem as int) == (y as int, rem as int));
    }

    let mut m: u8 = 1;
    let mut dm: u64 = days_in_month(y, m);
    proof {
        lemma_days_remaining_whole_year(y as int);
        lemma_month_split_bounds(y as int, 1, rem as int);
    }
    while dm <= rem
        invariant
            1 <= m <= 12,
            rem < 366,
            dm as int == spec_days_in_month(y as int, m as int),
            spec_month_split(y as int, m as int, rem as int) == spec_month_split(
                y as int,
                1,
                spec_year_split(1970, days as int).1,
            ),
            spec_year_split(1970, days as int).0 == y as int,
            (rem as int) < spec_days_remaining(y as int, m as int),
        decreases rem,
    {
        proof {
            assert(spec_days_remaining(y as int, m as int) == spec_days_in_month(
                y as int,
                m as int,
            ) + spec_days_remaining(y as int, m as int + 1));
            if m == 12 {
                assert(spec_days_remaining(y as int, 13) == 0);
            }
        }
        rem = rem - dm;
        m = m + 1;
        dm = days_in_month(y, m);
    }
    proof {
        assert(spec_month_split(y as int, m as int, rem as int) == (m as int, rem as int));
        lemma_year_split_sum(1970, days as int);
        lemma_month_split_sum(y as int, 1, spec_year_split(1970, days as int).1);
    }

    let d: u8 = (rem + 1) as u8;

    let hour: u8 = (in_day / MILLIS_PER_HOUR) as u8;
    let minute: u8 = (in_day % MILLIS_PER_HOUR / MILLIS_PER_MINUTE) as u8;
    let second: u8 = (in_day % MILLIS_PER_MINUTE / MILLIS_PER_SECOND) as u8;
    let millisecond: u16 = (in_day % MILLIS_PER_SECOND) as u16;

    CivilDateTime { year: y, month: m, day: d, hour, minute, second, millisecond }
}

/// The RFC3339 rendering with millisecond precision and a `Z` suffix,
/// e.g. `2021-08-23T16:00:27.879Z`.
pub open spec fn spec_rfc3339_millis(ms: int) -> Seq<char> {
    let days = ms / (MILLIS_PER_DAY as int);
    let in_day = ms % (MILLIS_PER_DAY as int);
    let (y, m, d) = spec_civil_from_days(days);
    spec_dec(y) + seq!['-'] + spec_pad2(m) + seq!['-'] + spec_pad2(d) + seq!['T'] + spec_pad2(
        in_day / (MILLIS_PER_HOUR as int),
    ) + seq![':'] + spec_pad2(in_day % (MILLIS_PER_HOUR as int) / (MILLIS_PER_MINUTE as int))
        + seq![':'] + spec_pad2(in_day % (MILLIS_PER_MINUTE as int) / (MILLIS_PER_SECOND as int))
        + seq!['.'] + spec_pad3(in_day % (MILLIS_PER_SECOND as int)) + seq!['Z']
}

/// Renders Unix-epoch milliseconds as RFC3339 UTC with millisecond
/// precision.
pub fn rfc3339_millis(ms: u64) -> (r: String)
    ensures
        r@ == spec_rfc3339_millis(ms as int),
{
    let c = civil_from_millis(ms);
    let mut s = u64_to_dec(c.year);
    proof {
        reveal_strlit("-");
        reveal_strlit("T");
        reveal_strlit(":");
        reveal_strlit(".");
        reveal_strlit("Z");
    }
    s.append("-");
    let mm = u64_to_pad2(c.month as u64);
    s.append(mm.as_str());
    s.append("-");
    let dd = u64_to_pad2(c.day as u64);
    s.append(dd.as_str());
    s.append("T");
    let hh = u64_to_pad2(c.hour as u64);
    s.append(hh.as_str());
    s.append(":");
    let mi = u64_to_pad2(c.minute as u64);
    s.append(mi.as_str());
    s.append(":");
    let ss = u64_to_pad2(c.second as u64);
    s.append(ss.as_str());
    s.append(".");
    let ms3 = u64_to_pad3(c.millisecond as u64);
    s.append(ms3.as_str());
    s.append("Z");
    proof {
        assert(s@ =~= spec_rfc3339_millis(ms as int));
    }
    s
}

/// The time-partition key `/dt=%Y%m%d/hour=%H/` evaluated in UTC.
pub open spec fn spec_partition_key(ms: int) -> Seq<char> {
    let days = ms / (MILLIS_PER_DAY as int);
    let in_day = ms % (MILLIS_PER_DAY as int);
    let (y, m, d) = spec_civil_from_days(days);
    "/dt="@ + spec_dec(y) + spec_pad2(m) + spec_pad2(d) + "/hour="@ + spec_pad2(
        in_day / (MILLIS_PER_HOUR as int),
    ) + "/"@
}

/// Evaluates the time-partition template on a UTC timestamp.
pub fn partition_key_for_millis(ms: u64) -> (r: String)
    ensures
        r@ == spec_partition_key(ms as int),
{
    let c = civil_from_millis(ms);
    proof {
        reveal_strlit("/dt=");
        reveal_strlit("/hour=");
        reveal_strlit("/");
    }
    let mut s = String::from_str("/dt=");
    let yy = u64_to_dec(c.year);
    s.append(yy.as_str());
    let mm = u64_to_pad2(c.month as u64);
    s.append(mm.as_str());
    let dd = u64_to_pad2(c.day as u64);
    s.append(dd.as_str());
    s.append("/hour=");
    let hh = u64_to_pad2(c.hour as u64);
    s.append(hh.as_str());
    s.append("/");
    proof {
        assert(s@ =~= spec_partition_key(ms as int));
    }
    s
}

} // verus!
