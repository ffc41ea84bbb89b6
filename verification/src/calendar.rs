//! Proleptic Gregorian calendar arithmetic for the session's "today" query.
//!
//! A reference instant is carried as whole seconds since the Unix epoch; the
//! calendar date it falls on, after an hour offset is applied, is computed
//! here. Dates outside the representable year range (±9999) are refused, as
//! is an offset outside ±23 hours.

use vstd::prelude::*;

use vstd::arithmetic::div_mod::{
    lemma_div_is_ordered, lemma_fundamental_div_mod, lemma_fundamental_div_mod_converse,
    lemma_mod_bound, lemma_mod_multiples_vanish,
};

verus! {

/// Whether a year is a leap year in the proleptic Gregorian calendar.
pub open spec fn is_leap(y: int) -> bool {
    (y % 4 == 0 && y % 100 != 0) || y % 400 == 0
}

/// The number of days of a year.
pub open spec fn year_len(y: int) -> int {
    if is_leap(y) {
        366
    } else {
        365
    }
}

/// The number of days of a month (1 through 12).
pub open spec fn days_in_month(y: int, m: int) -> int {
    if m == 2 {
        if is_leap(y) {
            29
        } else {
            28
        }
    } else if m == 4 || m == 6 || m == 9 || m == 11 {
        30
    } else {
        31
    }
}

/// Days from the epoch day (1970-01-01) to the first day of year `y`;
/// negative for years before 1970.
pub open spec fn days_before_year(y: int) -> int
    decreases
            if y >= 1970 {
                y - 1970
            } else {
                1970 - y
            },
{
    if y > 1970 {
        days_before_year(y - 1) + year_len(y - 1)
    } else if y < 1970 {
        days_before_year(y + 1) - year_len(y)
    } else {
        0
    }
}

/// Days from the first day of year `y` to the first day of its month `m`.
pub open spec fn days_before_month(y: int, m: int) -> int
    decreases m,
{
    if m <= 1 {
        0
    } else {
        days_before_month(y, m - 1) + days_in_month(y, m - 1)
    }
}

/// A calendar date within the representable year range.
pub struct Date {
    pub year: i64,
    pub month: u8,
    pub day: u8,
}

impl Date {
    /// A well-formed date: year in ±9999, month and day within their ranges.
    pub open spec fn wf(self) -> bool {
        &&& -9999 <= self.year <= 9999
        &&& 1 <= self.month <= 12
        &&& 1 <= self.day <= days_in_month(self.year as int, self.month as int)
    }
}

/// The day number of a date: days since 1970-01-01, negative before it.
pub open spec fn day_number(y: int, m: int, d: int) -> int {
    days_before_year(y) + days_before_month(y, m) + (d - 1)
}

/// The first representable day number.
pub open spec fn min_day() -> int {
    days_before_year(-9999)
}

/// The last representable day number.
pub open spec fn max_day() -> int {
    days_before_year(10000) - 1
}

/// Stepping one year forward adds that year's length.
pub proof fn lemma_dby_next(y: int)
    ensures
        days_before_year(y + 1) == days_before_year(y) + year_len(y),
{
    if y + 1 > 1970 {
    } else {
    }
}

/// Day counts grow with the year.
pub proof fn lemma_dby_mono(y1: int, y2: int)
    requires
        y1 <= y2,
    ensures
        days_before_year(y1) <= days_before_year(y2),
    decreases y2 - y1,
{
    if y1 < y2 {
        lemma_dby_mono(y1, y2 - 1);
        lemma_dby_next(y2 - 1);
    }
}

/// A year is between 365 and 366 days times its distance from any other year.
pub proof fn lemma_dby_bounds(y: int)
    requires
        -10000 <= y <= 10000,
    ensures
        365 * (y - 1970) <= days_before_year(y) <= 366 * (y - 1970) || 366 * (y - 1970)
            <= days_before_year(y) <= 365 * (y - 1970),
    decreases
            if y >= 1970 {
                y - 1970
            } else {
                1970 - y
            },
{
    if y > 1970 {
        lemma_dby_bounds(y - 1);
        lemma_dby_next(y - 1);
    } else if y < 1970 {
        lemma_dby_bounds(y + 1);
        lemma_dby_next(y);
    }
}

/// The months of a year sum to its length.
pub proof fn lemma_months_sum(y: int)
    ensures
        days_before_month(y, 13) == year_len(y),
{
    reveal_with_fuel(days_before_month, 14);
}

/// Whether `y` is a leap year, executably.
pub fn leap_year(y: i64) -> (r: bool)
    requires
        -10000 <= y <= 10000,
    ensures
        r == is_leap(y as int),
{
    let a = y + 10000;
    proof {
        lemma_mod_multiples_vanish(2500, y as int, 4);
        lemma_mod_multiples_vanish(100, y as int, 100);
        lemma_mod_multiples_vanish(25, y as int, 400);
    }
    (a % 4 == 0 && a % 100 != 0) || a % 400 == 0
}

/// The length of year `y` in days, executably.
pub fn year_len_exec(y: i64) -> (r: i64)
    requires
        -10000 <= y <= 10000,
    ensures
        r == year_len(y as int),
{
    if leap_year(y) {
        366
    } else {
        365
    }
}

/// The length of month `m` of year `y` in days, executably.
pub fn days_in_month_exec(y: i64, m: u8) -> (r: i64)
    requires
        -10000 <= y <= 10000,
    ensures
        r == days_in_month(y as int, m as int),
{
    if m == 2 {
        if leap_year(y) {
            29
        } else {
            28
        }
    } else if m == 4 || m == 6 || m == 9 || m == 11 {
        30
    } else {
        31
    }
}

/// The calendar date of day number `n` (days since 1970-01-01), or `None`
/// when that day falls outside the representable years.
pub fn civil_from_days(n: i64) -> (r: Option<Date>)
    ensures
        match r {
            Some(d) => d.wf() && day_number(d.year as int, d.month as int, d.day as int) == n
                && min_day() <= n <= max_day(),
            None => n < min_day() || n > max_day(),
        },
{
    let mut y: i64 = 1970;
    let mut rem: i64 = n;
    if rem >= 0 {
        loop
            invariant
                1970 <= y <= 9999,
                0 <= rem,
                days_before_year(y as int) + rem == n,
            ensures
                1970 <= y <= 9999,
                0 <= rem < year_len(y as int),
                days_before_year(y as int) + rem == n,
            decreases rem,
        {
            let len = year_len_exec(y);
            if rem < len {
                break ;
            }
            proof {
                lemma_dby_next(y as int);
            }
            if y == 9999 {
                proof {
                    assert(n >= days_before_year(10000));
                }
                return None;
            }
            rem = rem - len;
            y = y + 1;
        }
    } else {
        while rem < 0
            invariant
                -9999 <= y <= 1970,
                rem < year_len(y as int),
                days_before_year(y as int) + rem == n,
            decreases y + 10000,
        {
            if y == -9999 {
                proof {
                    assert(n < days_before_year(-9999));
                }
                return None;
            }
            let len = year_len_exec(y - 1);
            proof {
                lemma_dby_next(y as int - 1);
            }
            y = y - 1;
            rem = rem + len;
        }
    }
    // n now addresses day `rem` of year `y`
    proof {
        lemma_dby_mono(-9999, y as int);
        lemma_dby_next(y as int);
        lemma_dby_mono(y as int + 1, 10000);
        assert(min_day() <= n <= max_day());
    }
    let mut m: u8 = 1;
    loop
        invariant
            1 <= m <= 12,
            -9999 <= y <= 9999,
            0 <= rem,
            days_before_month(y as int, m as int) + rem == n - days_before_year(y as int),
            n - days_before_year(y as int) < year_len(y as int),
        ensures
            1 <= m <= 12,
            -9999 <= y <= 9999,
            0 <= rem < days_in_month(y as int, m as int),
            days_before_month(y as int, m as int) + rem == n - days_before_year(y as int),
        decreases 12 - m,
    {
        let len = days_in_month_exec(y, m);
        if rem < len {
            break ;
        }
        proof {
            lemma_months_sum(y as int);
            if m == 12 {
                assert(days_before_month(y as int, 13) == days_before_month(y as int, 12)
                    + days_in_month(y as int, 12));
                assert(false);
            }
        }
        rem = rem - len;
        m = m + 1;
    }
    let d = Date { year: y, month: m, day: (rem + 1) as u8 };
    Some(d)
}

/// Seconds in an hour.
pub open spec fn hour_secs() -> int {
    3600
}

/// Seconds in a day.
pub open spec fn day_secs() -> int {
    86400
}

/// The local second count after applying an hour offset.
pub open spec fn local_secs(ts: int, off: int) -> int {
    ts + off * hour_secs()
}

/// The day a local second count falls on (floor division).
pub open spec fn local_day(ts: int, off: int) -> int {
    local_secs(ts, off) / day_secs()
}

/// Whether an hour offset is representable.
pub open spec fn off_ok(off: int) -> bool {
    -23 <= off <= 23
}

/// The calendar date "today" for a reference instant `ts` (seconds since the
/// Unix epoch) shifted by `off` whole hours; `None` when the offset is out
/// of range or the shifted date is unrepresentable.
pub fn today_from(ts: i64, off: i64) -> (r: Option<Date>)
    ensures
        match r {
            Some(d) => off_ok(off as int) && d.wf() && day_number(
                d.year as int,
                d.month as int,
                d.day as int,
            ) == local_day(ts as int, off as int),
            None => !off_ok(off as int) || local_day(ts as int, off as int) < min_day()
                || local_day(ts as int, off as int) > max_day(),
        },
{
    if off < -23 || off > 23 {
        return None;
    }
    let ghost l = local_secs(ts as int, off as int);
    let local = match ts.checked_add(off * 3600) {
        Some(v) => v,
        None => {
            proof {
                out_of_range_day(ts as int, off as int);
            }
            return None;
        },
    };
    // clamp far outside the representable years, then shift to non-negative
    // seconds so that division floors
    if local > 86400 * 5000000 || local < -86400 * 5000000 {
        proof {
            out_of_range_day(ts as int, off as int);
        }
        return None;
    }
    let shifted = local + 86400 * 5000000;
    let day_shifted = shifted / 86400;
    proof {
        lemma_fundamental_div_mod(shifted as int, 86400);
        lemma_mod_bound(shifted as int, 86400);
        lemma_fundamental_div_mod_converse(
            l,
            86400,
            day_shifted - 5000000,
            shifted as int % 86400,
        );
    }
    let day = day_shifted - 5000000;
    civil_from_days(day)
}

/// A local second count far outside the clamp lies outside the
/// representable days.
proof fn out_of_range_day(ts: int, off: int)
    requires
        local_secs(ts, off) > 86400 * 5000000 || local_secs(ts, off) < -86400 * 5000000,
    ensures
        local_day(ts, off) < min_day() || local_day(ts, off) > max_day(),
{
    let l = local_secs(ts, off);
    lemma_dby_bounds(-9999);
    lemma_dby_bounds(10000);
    if l > 86400 * 5000000 {
        lemma_div_is_ordered(86400int * 5000000, l, 86400);
        assert(86400int * 5000000 / 86400 == 5000000);
    } else {
        lemma_div_is_ordered(l, -86400int * 5000000, 86400);
        assert(-86400int * 5000000 / 86400 == -5000000);
    }
}

} // verus!
