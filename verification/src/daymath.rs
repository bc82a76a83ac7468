//! Mathematical model of proleptic Gregorian dates.
//!
//! A date is modelled by its triple `(year, month, day)`; `day_index`
//! maps each valid triple to the number of days since 0001-01-01, which
//! orders dates, measures spans, and determines the day of the week
//! (0001-01-01 was a Monday, so the index modulo 7 gives the weekday).
use vstd::prelude::*;

verus! {

use vstd::arithmetic::div_mod::{lemma_fundamental_div_mod, lemma_fundamental_div_mod_converse};

/// Whether `y` is a leap year in the Gregorian calendar.
pub open spec fn is_leap_year(y: int) -> bool {
    y % 4 == 0 && (y % 100 != 0 || y % 400 == 0)
}

/// Number of days in month `m` of year `y` (for `1 <= m <= 12`).
pub open spec fn days_in_month(y: int, m: int) -> int {
    if m == 2 {
        if is_leap_year(y) {
            29
        } else {
            28
        }
    } else if m == 4 || m == 6 || m == 9 || m == 11 {
        30
    } else {
        31
    }
}

/// Whether `(y, m, d)` is a valid calendar date of any year.
pub open spec fn valid_ymd(y: int, m: int, d: int) -> bool {
    1 <= m <= 12 && 1 <= d <= days_in_month(y, m)
}

/// The years this library represents.
pub open spec fn in_year_range(y: int) -> bool {
    1 <= y <= 9999
}

/// A valid date within the representable range.
pub open spec fn wf_ymd(y: int, m: int, d: int) -> bool {
    in_year_range(y) && valid_ymd(y, m, d)
}

/// Total number of days in the years `1..=y` (for `y >= 0`).
pub open spec fn days_in_years(y: int) -> int {
    365 * y + y / 4 - y / 100 + y / 400
}

/// Day offset of the first of month `m` within the March-to-February
/// span that the index formula uses: March is month 0 of the shifted
/// year, and January and February belong to the end of the previous
/// shifted year.
pub open spec fn month_offset(m: int) -> int {
    if m == 1 {
        306
    } else if m == 2 {
        337
    } else if m == 3 {
        0
    } else if m == 4 {
        31
    } else if m == 5 {
        61
    } else if m == 6 {
        92
    } else if m == 7 {
        122
    } else if m == 8 {
        153
    } else if m == 9 {
        184
    } else if m == 10 {
        214
    } else if m == 11 {
        245
    } else {
        275
    }
}

/// Number of days from 0001-01-01 to the given date; 0001-01-01 itself
/// has index 0.
pub open spec fn day_index(y: int, m: int, d: int) -> int {
    let n = if m <= 2 {
        y - 1
    } else {
        y
    };
    days_in_years(n) + month_offset(m) + d - 1 - 306
}

/// Weekday of a date as a number, Monday being 0 and Sunday 6.
pub open spec fn day_of_week(y: int, m: int, d: int) -> int {
    day_index(y, m, d) % 7
}

/// The day after `(y, m, d)`.
pub open spec fn next_ymd(y: int, m: int, d: int) -> (int, int, int) {
    if d < days_in_month(y, m) {
        (y, m, d + 1)
    } else if m < 12 {
        (y, m + 1, 1)
    } else {
        (y + 1, 1, 1)
    }
}

/// The day before `(y, m, d)`.
pub open spec fn prev_ymd(y: int, m: int, d: int) -> (int, int, int) {
    if d > 1 {
        (y, m, d - 1)
    } else if m > 1 {
        (y, m - 1, days_in_month(y, m - 1))
    } else {
        (y - 1, 12, 31)
    }
}

/// Ordinal of the date within its year, January 1 being 0.
pub open spec fn day_of_year(y: int, m: int, d: int) -> int {
    month_start(y, m) + d - 1
}

/// Ordinal of the first of month `m` within year `y`.
pub open spec fn month_start(y: int, m: int) -> int {
    let l: int = if is_leap_year(y) {
        1
    } else {
        0
    };
    if m == 1 {
        0
    } else if m == 2 {
        31
    } else if m == 3 {
        59 + l
    } else if m == 4 {
        90 + l
    } else if m == 5 {
        120 + l
    } else if m == 6 {
        151 + l
    } else if m == 7 {
        181 + l
    } else if m == 8 {
        212 + l
    } else if m == 9 {
        243 + l
    } else if m == 10 {
        273 + l
    } else if m == 11 {
        304 + l
    } else {
        334 + l
    }
}

/// Strict lexicographic order on date triples.
pub open spec fn ymd_lt(y1: int, m1: int, d1: int, y2: int, m2: int, d2: int) -> bool {
    y1 < y2 || (y1 == y2 && (m1 < m2 || (m1 == m2 && d1 < d2)))
}

/// How one floor division changes when the dividend shrinks by one.
proof fn lemma_div_step(n: int, k: int)
    requires
        k >= 1,
    ensures
        n / k - (n - 1) / k == if n % k == 0 {
            1int
        } else {
            0int
        },
{
    lemma_fundamental_div_mod(n, k);
    assert((n / k - 1) * k == (n / k) * k - k) by (nonlinear_arith);
    assert(k * (n / k) == (n / k) * k) by (nonlinear_arith);
    if n % k == 0 {
        lemma_fundamental_div_mod_converse(n - 1, k, n / k - 1, k - 1);
    } else {
        lemma_fundamental_div_mod_converse(n - 1, k, n / k, n % k - 1);
    }
}

/// A multiple of 100 is a multiple of 4, and one of 400 one of 100.
proof fn lemma_century_divisibility(y: int)
    ensures
        y % 100 == 0 ==> y % 4 == 0,
        y % 400 == 0 ==> y % 100 == 0,
{
    if y % 100 == 0 {
        lemma_fundamental_div_mod(y, 100);
        lemma_fundamental_div_mod_converse(y, 4, 25 * (y / 100), 0);
    }
    if y % 400 == 0 {
        lemma_fundamental_div_mod(y, 400);
        lemma_fundamental_div_mod_converse(y, 100, 4 * (y / 400), 0);
    }
}

/// Year `y` adds 365 days, or 366 in a leap year, to the day count.
pub proof fn lemma_year_days_step(y: int)
    ensures
        days_in_years(y) == days_in_years(y - 1) + 365 + if is_leap_year(y) {
            1int
        } else {
            0int
        },
{
    lemma_div_step(y, 4);
    lemma_div_step(y, 100);
    lemma_div_step(y, 400);
    lemma_century_divisibility(y);
}

/// The day index splits into whole years plus the ordinal in the year.
pub proof fn lemma_index_split(y: int, m: int, d: int)
    requires
        valid_ymd(y, m, d),
    ensures
        day_index(y, m, d) == days_in_years(y - 1) + day_of_year(y, m, d),
{
    if m > 2 {
        lemma_year_days_step(y);
    }
}

/// Bounds of the ordinal within a year.
pub proof fn lemma_day_of_year_bounds(y: int, m: int, d: int)
    requires
        valid_ymd(y, m, d),
    ensures
        0 <= day_of_year(y, m, d),
        day_of_year(y, m, d) <= 364 + if is_leap_year(y) {
            1int
        } else {
            0int
        },
{
}

/// Stepping to the next day raises the day index by exactly one.
pub proof fn lemma_next_index(y: int, m: int, d: int)
    requires
        valid_ymd(y, m, d),
    ensures
        ({
            let (y2, m2, d2) = next_ymd(y, m, d);
            valid_ymd(y2, m2, d2) && day_index(y2, m2, d2) == day_index(y, m, d) + 1
        }),
{
    let (y2, m2, d2) = next_ymd(y, m, d);
    lemma_index_split(y, m, d);
    lemma_index_split(y2, m2, d2);
    if d == days_in_month(y, m) && m == 12 {
        lemma_year_days_step(y2);
    }
}

/// Stepping back is the inverse of stepping forward, so it lowers the
/// day index by exactly one.
pub proof fn lemma_prev_index(y: int, m: int, d: int)
    requires
        valid_ymd(y, m, d),
    ensures
        ({
            let (y0, m0, d0) = prev_ymd(y, m, d);
            valid_ymd(y0, m0, d0) && next_ymd(y0, m0, d0) == (y, m, d) && day_index(
                y0,
                m0,
                d0,
            ) == day_index(y, m, d) - 1
        }),
{
    let (y0, m0, d0) = prev_ymd(y, m, d);
    lemma_next_index(y0, m0, d0);
}

/// The weekday steps back by one, wrapping from Monday to Sunday,
/// when the date steps back by one day.
pub proof fn lemma_prev_dow(y: int, m: int, d: int)
    requires
        valid_ymd(y, m, d),
    ensures
        ({
            let (y0, m0, d0) = prev_ymd(y, m, d);
            day_of_week(y0, m0, d0) == (day_of_week(y, m, d) + 6) % 7
        }),
{
    lemma_prev_index(y, m, d);
    let i = day_index(y, m, d);
    lemma_fundamental_div_mod(i, 7);
    let q = i / 7;
    let r = i % 7;
    if r == 0 {
        lemma_fundamental_div_mod_converse(i - 1, 7, q - 1, 6);
    } else {
        lemma_fundamental_div_mod_converse(i - 1, 7, q, r - 1);
        lemma_fundamental_div_mod_converse(r + 6, 7, 1, r - 1);
    }
}

/// The day count over whole years grows by at least 365 a year.
pub proof fn lemma_years_mono(y1: int, y2: int)
    requires
        y1 <= y2,
    ensures
        days_in_years(y1) + 365 * (y2 - y1) <= days_in_years(y2),
    decreases y2 - y1,
{
    if y1 < y2 {
        lemma_years_mono(y1, y2 - 1);
        lemma_year_days_step(y2);
    }
}

/// The day index orders valid dates exactly as the lexicographic order
/// on (year, month, day) does.
pub proof fn lemma_lex_index(y1: int, m1: int, d1: int, y2: int, m2: int, d2: int)
    requires
        valid_ymd(y1, m1, d1),
        valid_ymd(y2, m2, d2),
    ensures
        ymd_lt(y1, m1, d1, y2, m2, d2) <==> day_index(y1, m1, d1) < day_index(y2, m2, d2),
        (y1 == y2 && m1 == m2 && d1 == d2) <==> day_index(y1, m1, d1) == day_index(y2, m2, d2),
{
    if ymd_lt(y1, m1, d1, y2, m2, d2) {
        lemma_lex_index_one_way(y1, m1, d1, y2, m2, d2);
    }
    if ymd_lt(y2, m2, d2, y1, m1, d1) {
        lemma_lex_index_one_way(y2, m2, d2, y1, m1, d1);
    }
}

/// One strict direction of the order correspondence.
proof fn lemma_lex_index_one_way(y1: int, m1: int, d1: int, y2: int, m2: int, d2: int)
    requires
        valid_ymd(y1, m1, d1),
        valid_ymd(y2, m2, d2),
        ymd_lt(y1, m1, d1, y2, m2, d2),
    ensures
        day_index(y1, m1, d1) < day_index(y2, m2, d2),
{
    if y1 < y2 {
        lemma_index_in_year(y1, m1, d1);
        lemma_index_in_year(y2, m2, d2);
        lemma_years_mono(y1, y2 - 1);
    } else {
        lemma_index_split(y1, m1, d1);
        lemma_index_split(y2, m2, d2);
    }
}

/// A calendar spanning a whole year holds 365 days, or 366 in a leap
/// year: that is the span from January 1 to December 31, inclusive.
pub proof fn lemma_year_span(y: int)
    ensures
        day_index(y, 12, 31) - day_index(y, 1, 1) + 1 == 365 + if is_leap_year(y) {
            1int
        } else {
            0int
        },
{
    lemma_index_split(y, 1, 1);
    lemma_index_split(y, 12, 31);
}

/// Every date of year `y` lies in the block of indices of year `y`.
pub proof fn lemma_index_in_year(y: int, m: int, d: int)
    requires
        valid_ymd(y, m, d),
    ensures
        days_in_years(y - 1) <= day_index(y, m, d),
        day_index(y, m, d) < days_in_years(y),
{
    lemma_index_split(y, m, d);
    lemma_day_of_year_bounds(y, m, d);
    lemma_year_days_step(y);
}

} // verus!
