//! Gregorian calendar arithmetic for UTC timestamps.

use vstd::prelude::*;

verus! {

pub open spec fn is_leap_year(y: int) -> bool {
    y % 4 == 0 && (y % 100 != 0 || y % 400 == 0)
}

/// Number of leap years among `1..=y`.
pub open spec fn leap_years_through(y: int) -> int {
    y / 4 - y / 100 + y / 400
}

pub open spec fn days_in_month(y: int, m: int) -> int {
    if m == 2 {
        if is_leap_year(y) {
            29
        } else {
            28
        }
    } else if m == 4 || m == 6 || m == 9 || m == 11 {
        30
    } else {
        31
    }
}

/// Days from January 1 to the first day of month `m` of year `y`.
pub open spec fn days_before_month(y: int, m: int) -> int {
    let base: int = if m == 1 {
        0
    } else if m == 2 {
        31
    } else if m == 3 {
        59
    } else if m == 4 {
        90
    } else if m == 5 {
        120
    } else if m == 6 {
        151
    } else if m == 7 {
        181
    } else if m == 8 {
        212
    } else if m == 9 {
        243
    } else if m == 10 {
        273
    } else if m == 11 {
        304
    } else {
        334
    };
    base + if m > 2 && is_leap_year(y) {
        1int
    } else {
        0int
    }
}

/// Days from 1970-01-01 to January 1 of year `y` (for `y >= 1970`).
pub open spec fn days_before_year(y: int) -> int {
    365 * (y - 1970) + leap_years_through(y - 1) - leap_years_through(1969)
}

/// `(y, m, d)` is the calendar date `days` days after 1970-01-01.
pub open spec fn is_civil_date_of(days: int, y: int, m: int, d: int) -> bool {
    &&& y >= 1970
    &&& 1 <= m <= 12
    &&& 1 <= d <= days_in_month(y, m)
    &&& days == days_before_year(y) + days_before_month(y, m) + d - 1
}

/// Days from the start of a 400-year era (a March 1) to March 1 of its year `yoe`.
pub open spec fn era_days_before(yoe: int) -> int {
    365 * yoe + yoe / 4 - yoe / 100
}

/// Days from March 1 to the first day of the `mp`-th month counted from March.
pub open spec fn march_days_before(mp: int) -> int {
    (153 * mp + 2) / 5
}

proof fn lemma_year_of_era(doe: u32)
    requires
        doe < 146097,
    ensures
        ({
            let yoe = (doe - doe / 1460 + doe / 36524 - doe / 146096) / 365;
            &&& yoe <= 399
            &&& 365 * yoe + yoe / 4 - yoe / 100 <= doe
            &&& yoe < 399 ==> doe < 365 * (yoe + 1) + (yoe + 1) / 4 - (yoe + 1) / 100
        }),
{
    assert({
        let yoe = (doe - doe / 1460 + doe / 36524 - doe / 146096) / 365;
        &&& yoe <= 399
        &&& 365 * yoe + yoe / 4 - yoe / 100 <= doe
        &&& yoe < 399 ==> doe < 365 * (yoe + 1) + (yoe + 1) / 4 - (yoe + 1) / 100
    }) by (bit_vector)
        requires
            doe < 146097,
    ;
}


proof fn lemma_month_of_year(doy: u32)
    requires
        doy <= 365,
    ensures
        ({
            let mp = (5 * doy + 2) / 153;
            &&& mp <= 11
            &&& (153 * mp + 2) / 5 <= doy
            &&& mp < 11 ==> doy < (153 * (mp + 1) + 2) / 5
        }),
{
    assert({
        let mp = (5 * doy + 2) / 153;
        &&& mp <= 11
        &&& (153 * mp + 2) / 5 <= doy
        &&& mp < 11 ==> doy < (153 * (mp + 1) + 2) / 5
    }) by (bit_vector)
        requires
            doy <= 365,
    ;
}

/// Splits a count of shifted years into eras and the year within the era.
proof fn lemma_shifted_year_leaps(era: int, yoe: int)
    requires
        era >= 0,
        0 <= yoe < 400,
    ensures
        365 * (era * 400 + yoe) + leap_years_through(era * 400 + yoe) == era * 146097
            + era_days_before(yoe),
        leap_years_through(era * 400 + yoe + 1) == leap_years_through(era * 400 + yoe) + if is_leap_year(era * 400 + yoe + 1) { 1int } else { 0int },
        is_leap_year(era * 400 + yoe + 1) <==> (yoe == 399 || ((yoe + 1) % 4 == 0 && (yoe + 1) % 100 != 0)),
{
    let y = era * 400 + yoe;
    assert(y / 4 == era * 100 + yoe / 4);
    assert(y / 100 == era * 4 + yoe / 100);
    assert(y / 400 == era);
    assert((y + 1) % 4 == (yoe + 1) % 4);
    assert((y + 1) % 100 == (yoe + 1) % 100);
    assert((y + 1) % 400 == 0 <==> yoe == 399);
}

/// The calendar date in terms of the shifted (March-based) year of an era.
proof fn lemma_civil_from_parts(days: int, era: int, yoe: int, doy: int, mp: int)
    requires
        era >= 0,
        0 <= yoe <= 399,
        days >= 0,
        days + 719468 == era * 146097 + era_days_before(yoe) + doy,
        0 <= doy,
        yoe < 399 ==> doy < era_days_before(yoe + 1) - era_days_before(yoe),
        yoe == 399 ==> doy < 366,
        0 <= mp <= 11,
        march_days_before(mp) <= doy,
        mp < 11 ==> doy < march_days_before(mp + 1),
    ensures
        ({
            let d = doy - march_days_before(mp) + 1;
            let m = if mp < 10 {
                mp + 3
            } else {
                mp - 9
            };
            let y = if m <= 2 {
                era * 400 + yoe + 1
            } else {
                era * 400 + yoe
            };
            is_civil_date_of(days, y, m, d)
        }),
{
    lemma_shifted_year_leaps(era, yoe);
    let sy = era * 400 + yoe;
    assert(leap_years_through(1969) == 477);
    assert(yoe < 399 ==> era_days_before(yoe + 1) - era_days_before(yoe) == 365 + if (yoe + 1)
        % 4 == 0 && (yoe + 1) % 100 != 0 {
        1int
    } else {
        0int
    });
    assert(mp == 0 ==> march_days_before(mp) == 0);
    assert(mp == 1 ==> march_days_before(mp) == 31);
    assert(mp == 2 ==> march_days_before(mp) == 61);
    assert(mp == 3 ==> march_days_before(mp) == 92);
    assert(mp == 4 ==> march_days_before(mp) == 122);
    assert(mp == 5 ==> march_days_before(mp) == 153);
    assert(mp == 6 ==> march_days_before(mp) == 184);
    assert(mp == 7 ==> march_days_before(mp) == 214);
    assert(mp == 8 ==> march_days_before(mp) == 245);
    assert(mp == 9 ==> march_days_before(mp) == 275);
    assert(mp == 10 ==> march_days_before(mp) == 306);
    assert(mp == 11 ==> march_days_before(mp) == 337);
    assert(mp < 11 ==> march_days_before(mp + 1) == march_days_before(mp) + days_in_month(
        sy,
        if mp < 10 {
            mp + 3
        } else {
            mp - 9
        },
    ));
    if mp >= 10 {
        // January or February of the following civil year.
        assert(leap_years_through(sy) == leap_years_through(sy + 1 - 1));
    } else {
        assert(leap_years_through(sy) == leap_years_through(sy - 1) + if is_leap_year(sy) {
            1int
        } else {
            0int
        }) by {
            assert((sy - 1) / 4 + (if sy % 4 == 0 { 1int } else { 0int }) == sy / 4);
            assert((sy - 1) / 100 + (if sy % 100 == 0 { 1int } else { 0int }) == sy / 100);
            assert((sy - 1) / 400 + (if sy % 400 == 0 { 1int } else { 0int }) == sy / 400);
        }
    }
}

/// Converts a count of days since 1970-01-01 into the calendar date
/// `(year, month, day)` (the `civil_from_days` algorithm of H. Hinnant).
pub fn days_to_ymd(days: u64) -> (r: (u64, u64, u64))
    requires
        days <= u64::MAX - 719_468,
    ensures
        is_civil_date_of(days as int, r.0 as int, r.1 as int, r.2 as int),
{
    let z = days + 719_468;
    let era = z / 146_097;
    let doe = z - era * 146_097;
    let yoe = (doe - doe / 1_460 + doe / 36_524 - doe / 146_096) / 365;
    proof {
        lemma_year_of_era(doe as u32);
    }
    let y = yoe + era * 400;
    let doy = doe - (365 * yoe + yoe / 4 - yoe / 100);
    proof {
        lemma_shifted_year_leaps(era as int, yoe as int);
        assert(doy <= 365);
        lemma_month_of_year(doy as u32);
    }
    let mp = (5 * doy + 2) / 153;
    let d = doy - (153 * mp + 2) / 5 + 1;
    let m = if mp < 10 {
        mp + 3
    } else {
        mp - 9
    };
    let y = if m <= 2 {
        y + 1
    } else {
        y
    };
    proof {
        lemma_civil_from_parts(days as int, era as int, yoe as int, doy as int, mp as int);
    }
    (y, m, d)
}

/// Length of year `y` in days.
pub open spec fn year_length(y: int) -> int {
    if is_leap_year(y) {
        366
    } else {
        365
    }
}

proof fn lemma_leap_step(y: int)
    ensures
        leap_years_through(y) - leap_years_through(y - 1) == if is_leap_year(y) {
            1int
        } else {
            0int
        },
{
    assert(y / 4 - (y - 1) / 4 == if y % 4 == 0 { 1int } else { 0int }) by (nonlinear_arith);
    assert(y / 100 - (y - 1) / 100 == if y % 100 == 0 { 1int } else { 0int }) by (nonlinear_arith);
    assert(y / 400 - (y - 1) / 400 == if y % 400 == 0 { 1int } else { 0int }) by (nonlinear_arith);
    assert(y % 400 == 0 ==> y % 100 == 0) by (nonlinear_arith);
    assert(y % 100 == 0 ==> y % 4 == 0) by (nonlinear_arith);
}

proof fn lemma_year_starts_grow(y1: int, y2: int)
    requires
        y1 < y2,
    ensures
        days_before_year(y1) + year_length(y1) <= days_before_year(y2),
    decreases y2 - y1,
{
    lemma_leap_step(y1);
    if y1 + 1 < y2 {
        lemma_year_starts_grow(y1 + 1, y2);
        lemma_leap_step(y1 + 1);
    }
}

proof fn lemma_month_starts_grow(y: int, m1: int, m2: int)
    requires
        1 <= m1 < m2 <= 12,
    ensures
        days_before_month(y, m1) + days_in_month(y, m1) <= days_before_month(y, m2),
{
}

/// Each day count after the epoch names a single calendar date.
pub proof fn lemma_civil_date_unique(days: int, y1: int, m1: int, d1: int, y2: int, m2: int, d2: int)
    requires
        is_civil_date_of(days, y1, m1, d1),
        is_civil_date_of(days, y2, m2, d2),
    ensures
        y1 == y2 && m1 == m2 && d1 == d2,
{
    assert(days_before_month(y1, m1) + d1 - 1 < year_length(y1));
    assert(days_before_month(y2, m2) + d2 - 1 < year_length(y2));
    if y1 < y2 {
        lemma_year_starts_grow(y1, y2);
    } else if y2 < y1 {
        lemma_year_starts_grow(y2, y1);
    }
    if m1 < m2 {
        lemma_month_starts_grow(y1, m1, m2);
    } else if m2 < m1 {
        lemma_month_starts_grow(y1, m2, m1);
    }
}

} // verus!
