//! Japanese national holidays.
//!
//! A date's holiday, if any, is decided by rules applied in a fixed
//! priority order: legislated fixed dates, then substitute holidays,
//! then the floating nth-Monday holidays, the two equinox holidays,
//! and finally the citizens' holiday squeezed between two holidays.
//! Each rule applies only within its legislated span of years.
use vstd::prelude::*;

verus! {

use crate::date::{Date, Weekday};
use crate::daymath::{
    day_index,
    day_of_week,
    lemma_index_in_year,
    lemma_prev_index,
    lemma_years_mono,
    next_ymd,
    prev_ymd,
    wf_ymd,
};

/// The view of an optional borrowed name.
pub open spec fn opt_str_view(r: Option<&str>) -> Option<Seq<char>> {
    match r {
        Some(s) => Some(s@),
        None => None,
    }
}

/// The view of an optional owned name.
pub open spec fn opt_string_view(r: Option<String>) -> Option<Seq<char>> {
    match r {
        Some(s) => Some(s@),
        None => None,
    }
}

/// The fixed-date holidays, each with its legislated span of years.
pub open spec fn fixed_holiday(y: int, m: int, d: int) -> Option<Seq<char>> {
    if m == 1 && d == 1 && 1948 <= y {
        Some("元日"@)
    } else if m == 1 && d == 15 && 1948 <= y <= 1999 {
        Some("成人の日"@)
    } else if m == 2 && d == 11 && 1967 <= y {
        Some("建国記念日"@)
    } else if m == 4 && d == 29 && 1948 <= y <= 1988 {
        Some("天皇誕生日"@)
    } else if m == 4 && d == 29 && 1989 <= y <= 2006 {
        Some("みどりの日"@)
    } else if m == 4 && d == 29 && 2007 <= y {
        Some("昭和の日"@)
    } else if m == 5 && d == 1 && y == 2019 {
        Some("新天皇即位日"@)
    } else if m == 5 && d == 3 && 1948 <= y {
        Some("憲法記念日"@)
    } else if m == 5 && d == 4 && 2007 <= y {
        Some("みどりの日"@)
    } else if m == 5 && d == 5 && 1948 <= y {
        Some("こどもの日"@)
    } else if m == 7 && d == 20 && 1996 <= y <= 2002 {
        Some("海の日"@)
    } else if m == 8 && d == 11 && 2016 <= y {
        Some("山の日"@)
    } else if m == 9 && d == 15 && 1966 <= y <= 2002 {
        Some("敬老の日"@)
    } else if m == 10 && d == 10 && 1966 <= y <= 1999 {
        Some("体育の日"@)
    } else if m == 10 && d == 22 && y == 2019 {
        Some("即位礼正殿の儀"@)
    } else if m == 11 && d == 3 && 1948 <= y {
        Some("文化の日"@)
    } else if m == 11 && d == 23 && 1948 <= y {
        Some("勤労感謝の日"@)
    } else if m == 12 && d == 23 && 1989 <= y <= 2018 {
        Some("天皇誕生日"@)
    } else {
        None
    }
}

/// Whether the day of the month lies in the second week.
pub open spec fn second_week(d: int) -> bool {
    8 <= d <= 14
}

/// Whether the day of the month lies in the third week.
pub open spec fn third_week(d: int) -> bool {
    15 <= d <= 21
}

/// One floating nth-Monday rule: the date is a Monday of the required
/// week of the required month, in a year strictly after the rule's
/// fixed-date predecessor ended.
pub open spec fn floating_rule(
    y: int,
    m: int,
    d: int,
    month: int,
    second: bool,
    after: int,
) -> bool {
    m == month && day_of_week(y, m, d) == 0 && y > after && if second {
        second_week(d)
    } else {
        third_week(d)
    }
}

/// The floating nth-Monday holidays.
pub open spec fn floating_holiday(y: int, m: int, d: int) -> Option<Seq<char>> {
    if floating_rule(y, m, d, 1, true, 1999) {
        Some("成人の日"@)
    } else if floating_rule(y, m, d, 7, false, 2002) {
        Some("海の日"@)
    } else if floating_rule(y, m, d, 9, false, 2002) {
        Some("敬老の日"@)
    } else if floating_rule(y, m, d, 10, true, 1999) {
        Some("体育の日"@)
    } else {
        None
    }
}

/// The March day of the vernal equinox, from the historical table of
/// year bands indexed by the year modulo 4; outside the covered bands
/// there is no entry.
pub open spec fn vernal_equinox_dom(y: int) -> Option<int> {
    let r = y % 4;
    if 1900 <= y <= 1923 {
        Some(
            if r == 3 {
                22int
            } else {
                21int
            },
        )
    } else if 1924 <= y <= 1959 {
        Some(21int)
    } else if 1960 <= y <= 1991 {
        Some(
            if r == 0 {
                20int
            } else {
                21int
            },
        )
    } else if 1992 <= y <= 2023 {
        Some(
            if r <= 1 {
                20int
            } else {
                21int
            },
        )
    } else if 2024 <= y <= 2055 {
        Some(
            if r <= 2 {
                20int
            } else {
                21int
            },
        )
    } else if 2056 <= y <= 2091 {
        Some(20int)
    } else if 2092 <= y <= 2099 {
        Some(
            if r == 0 {
                19int
            } else {
                20int
            },
        )
    } else {
        None
    }
}

/// The September day of the autumnal equinox, as
/// [`vernal_equinox_dom`].
pub open spec fn autumnal_equinox_dom(y: int) -> Option<int> {
    let r = y % 4;
    if 1900 <= y <= 1919 {
        Some(
            if r == 0 {
                23int
            } else {
                24int
            },
        )
    } else if 1920 <= y <= 1947 {
        Some(
            if r <= 1 {
                23int
            } else {
                24int
            },
        )
    } else if 1948 <= y <= 1979 {
        Some(
            if r == 3 {
                24int
            } else {
                23int
            },
        )
    } else if 1980 <= y <= 2011 {
        Some(23int)
    } else if 2012 <= y <= 2043 {
        Some(
            if r == 0 {
                22int
            } else {
                23int
            },
        )
    } else if 2044 <= y <= 2075 {
        Some(
            if r <= 1 {
                22int
            } else {
                23int
            },
        )
    } else if 2076 <= y <= 2099 {
        Some(
            if r == 3 {
                23int
            } else {
                22int
            },
        )
    } else {
        None
    }
}

/// Vernal Equinox Day, for years after the modern holiday law.
pub open spec fn vernal_holiday(y: int, m: int, d: int) -> Option<Seq<char>> {
    if y > 1948 && m == 3 && vernal_equinox_dom(y) == Some(d) {
        Some("春分の日"@)
    } else {
        None
    }
}

/// Autumnal Equinox Day, for years from the modern holiday law on.
pub open spec fn autumnal_holiday(y: int, m: int, d: int) -> Option<Seq<char>> {
    if y >= 1948 && m == 9 && autumnal_equinox_dom(y) == Some(d) {
        Some("秋分の日"@)
    } else {
        None
    }
}

/// A day that is a holiday in its own right: fixed or equinox. The
/// backward walk of the substitute rule looks for these.
pub open spec fn base_holiday(y: int, m: int, d: int) -> bool {
    fixed_holiday(y, m, d) is Some || vernal_holiday(y, m, d) is Some || autumnal_holiday(
        y,
        m,
        d,
    ) is Some
}

/// The least representable date, where the backward walk stops.
pub open spec fn is_min_ymd(y: int, m: int, d: int) -> bool {
    y == 1 && m == 1 && d == 1
}

/// The backward walk of the substitute rule, examining the day before
/// the candidate: a chain of holidays walked backwards ends the walk
/// successfully when it reaches a Sunday holiday, and unsuccessfully
/// at a non-holiday or at the edge of the calendar.
pub open spec fn substitute_walk(y: int, m: int, d: int) -> bool
    decreases day_index(y, m, d),
    when wf_ymd(y, m, d)
    via substitute_walk_decreases
{
    if base_holiday(y, m, d) {
        if day_of_week(y, m, d) == 6 {
            true
        } else if is_min_ymd(y, m, d) {
            false
        } else {
            let p = prev_ymd(y, m, d);
            substitute_walk(p.0, p.1, p.2)
        }
    } else {
        false
    }
}

#[via_fn]
proof fn substitute_walk_decreases(y: int, m: int, d: int) {
    if base_holiday(y, m, d) && day_of_week(y, m, d) != 6 && !is_min_ymd(y, m, d) {
        lemma_prev_index(y, m, d);
        let p = prev_ymd(y, m, d);
        lemma_index_nonneg(p.0, p.1, p.2);
    }
}

/// The day index of a valid in-range date is non-negative.
pub proof fn lemma_index_nonneg(y: int, m: int, d: int)
    requires
        wf_ymd(y, m, d),
    ensures
        day_index(y, m, d) >= 0,
{
    lemma_index_in_year(y, m, d);
    lemma_years_mono(0, y - 1);
}

/// The substitute-holiday rule, in force from 1973: the date follows,
/// across a possible run of further holidays, a holiday that fell on a
/// Sunday.
pub open spec fn substitute_spec(y: int, m: int, d: int) -> Option<Seq<char>> {
    if y < 1973 || is_min_ymd(y, m, d) {
        None
    } else {
        let p = prev_ymd(y, m, d);
        if substitute_walk(p.0, p.1, p.2) {
            Some("振替休日"@)
        } else {
            None
        }
    }
}

/// The citizens'-holiday rule, in force from 1986: a day that is not a
/// Sunday and not itself a fixed holiday, but whose previous day is a
/// holiday (fixed, or the floating Respect-for-the-Aged Day) and whose
/// next day is a holiday (fixed, or the Autumnal Equinox Day).
pub open spec fn citizens_spec(y: int, m: int, d: int) -> Option<Seq<char>> {
    if y < 1986 || day_of_week(y, m, d) == 6 || fixed_holiday(y, m, d) is Some {
        None
    } else if is_min_ymd(y, m, d) || (y == 9999 && m == 12 && d == 31) {
        None
    } else {
        let p = prev_ymd(y, m, d);
        let n = next_ymd(y, m, d);
        let before = fixed_holiday(p.0, p.1, p.2) is Some || floating_rule(
            p.0,
            p.1,
            p.2,
            9,
            false,
            2002,
        );
        let after = fixed_holiday(n.0, n.1, n.2) is Some || autumnal_holiday(n.0, n.1, n.2) is Some;
        if before && after {
            Some("国民の休日"@)
        } else {
            None
        }
    }
}

/// The holiday of a date: the rules applied in priority order, first
/// match wins.
pub open spec fn spec_holiday(y: int, m: int, d: int) -> Option<Seq<char>> {
    if fixed_holiday(y, m, d) is Some {
        fixed_holiday(y, m, d)
    } else if substitute_spec(y, m, d) is Some {
        substitute_spec(y, m, d)
    } else if floating_holiday(y, m, d) is Some {
        floating_holiday(y, m, d)
    } else if vernal_holiday(y, m, d) is Some {
        vernal_holiday(y, m, d)
    } else if autumnal_holiday(y, m, d) is Some {
        autumnal_holiday(y, m, d)
    } else {
        citizens_spec(y, m, d)
    }
}

/// Determines whether the date is a national holiday, returning its
/// name.
pub fn holiday(date: &Date) -> (r: Option<String>)
    requires
        date.wf(),
    ensures
        opt_string_view(r) == spec_holiday(date.year as int, date.month as int, date.day as int),
{
    match holiday_name(date) {
        Some(s) => Some(s.to_owned()),
        None => None,
    }
}

/// The holiday rules in priority order, over borrowed names.
fn holiday_name(date: &Date) -> (r: Option<&'static str>)
    requires
        date.wf(),
    ensures
        opt_str_view(r) == spec_holiday(date.year as int, date.month as int, date.day as int),
{
    if let Some(s) = defined_holiday(date) {
        return Some(s);
    }
    if let Some(s) = substitute_holiday(date) {
        return Some(s);
    }
    if let Some(s) = variable_holiday(date, "成人の日", 1, true, 1999) {
        return Some(s);
    }
    if let Some(s) = variable_holiday(date, "海の日", 7, false, 2002) {
        return Some(s);
    }
    if let Some(s) = variable_holiday(date, "敬老の日", 9, false, 2002) {
        return Some(s);
    }
    if let Some(s) = variable_holiday(date, "体育の日", 10, true, 1999) {
        return Some(s);
    }
    if let Some(s) = vernal_equinox_day(date) {
        return Some(s);
    }
    if let Some(s) = autumnal_equinox_day(date) {
        return Some(s);
    }
    national_holiday(date)
}

/// Matches the date against the fixed-date holiday table.
fn defined_holiday(date: &Date) -> (r: Option<&'static str>)
    requires
        date.wf(),
    ensures
        opt_str_view(r) == fixed_holiday(date.year as int, date.month as int, date.day as int),
{
    let y = date.year;
    let m = date.month;
    let d = date.day;
    if m == 1 && d == 1 && 1948 <= y {
        Some("元日")
    } else if m == 1 && d == 15 && 1948 <= y && y <= 1999 {
        Some("成人の日")
    } else if m == 2 && d == 11 && 1967 <= y {
        Some("建国記念日")
    } else if m == 4 && d == 29 && 1948 <= y && y <= 1988 {
        Some("天皇誕生日")
    } else if m == 4 && d == 29 && 1989 <= y && y <= 2006 {
        Some("みどりの日")
    } else if m == 4 && d == 29 && 2007 <= y {
        Some("昭和の日")
    } else if m == 5 && d == 1 && y == 2019 {
        Some("新天皇即位日")
    } else if m == 5 && d == 3 && 1948 <= y {
        Some("憲法記念日")
    } else if m == 5 && d == 4 && 2007 <= y {
        Some("みどりの日")
    } else if m == 5 && d == 5 && 1948 <= y {
        Some("こどもの日")
    } else if m == 7 && d == 20 && 1996 <= y && y <= 2002 {
        Some("海の日")
    } else if m == 8 && d == 11 && 2016 <= y {
        Some("山の日")
    } else if m == 9 && d == 15 && 1966 <= y && y <= 2002 {
        Some("敬老の日")
    } else if m == 10 && d == 10 && 1966 <= y && y <= 1999 {
        Some("体育の日")
    } else if m == 10 && d == 22 && y == 2019 {
        Some("即位礼正殿の儀")
    } else if m == 11 && d == 3 && 1948 <= y {
        Some("文化の日")
    } else if m == 11 && d == 23 && 1948 <= y {
        Some("勤労感謝の日")
    } else if m == 12 && d == 23 && 1989 <= y && y <= 2018 {
        Some("天皇誕生日")
    } else {
        None
    }
}

/// Matches the date against one floating nth-Monday rule.
fn variable_holiday(
    date: &Date,
    name: &'static str,
    month: u32,
    second: bool,
    after: i32,
) -> (r: Option<&'static str>)
    requires
        date.wf(),
    ensures
        r is Some <==> floating_rule(
            date.year as int,
            date.month as int,
            date.day as int,
            month as int,
            second,
            after as int,
        ),
        r matches Some(s) ==> s == name,
{
    if date.month != month {
        return None;
    }
    if !(date.weekday == Weekday::Monday) {
        return None;
    }
    if date.year <= after {
        return None;
    }
    let in_week = if second {
        8 <= date.day && date.day <= 14
    } else {
        15 <= date.day && date.day <= 21
    };
    if in_week {
        Some(name)
    } else {
        None
    }
}

/// Matches the date against the vernal-equinox table.
fn vernal_equinox_day(date: &Date) -> (r: Option<&'static str>)
    requires
        date.wf(),
    ensures
        opt_str_view(r) == vernal_holiday(date.year as int, date.month as int, date.day as int),
{
    if date.year <= 1948 {
        return None;
    }
    if date.month != 3 {
        return None;
    }
    let y = date.year;
    let r4 = y % 4;
    let target: Option<u32> = if 1900 <= y && y <= 1923 {
        Some(
            if r4 == 3 {
                22
            } else {
                21
            },
        )
    } else if 1924 <= y && y <= 1959 {
        Some(21)
    } else if 1960 <= y && y <= 1991 {
        Some(
            if r4 == 0 {
                20
            } else {
                21
            },
        )
    } else if 1992 <= y && y <= 2023 {
        Some(
            if r4 <= 1 {
                20
            } else {
                21
            },
        )
    } else if 2024 <= y && y <= 2055 {
        Some(
            if r4 <= 2 {
                20
            } else {
                21
            },
        )
    } else if 2056 <= y && y <= 2091 {
        Some(20)
    } else if 2092 <= y && y <= 2099 {
        Some(
            if r4 == 0 {
                19
            } else {
                20
            },
        )
    } else {
        None
    };
    match target {
        Some(t) => if date.day == t {
            Some("春分の日")
        } else {
            None
        },
        None => None,
    }
}

/// Matches the date against the autumnal-equinox table.
fn autumnal_equinox_day(date: &Date) -> (r: Option<&'static str>)
    requires
        date.wf(),
    ensures
        opt_str_view(r) == autumnal_holiday(date.year as int, date.month as int, date.day as int),
{
    if date.year < 1948 {
        return None;
    }
    if date.month != 9 {
        return None;
    }
    let y = date.year;
    let r4 = y % 4;
    let target: Option<u32> = if 1900 <= y && y <= 1919 {
        Some(
            if r4 == 0 {
                23
            } else {
                24
            },
        )
    } else if 1920 <= y && y <= 1947 {
        Some(
            if r4 <= 1 {
                23
            } else {
                24
            },
        )
    } else if 1948 <= y && y <= 1979 {
        Some(
            if r4 == 3 {
                24
            } else {
                23
            },
        )
    } else if 1980 <= y && y <= 2011 {
        Some(23)
    } else if 2012 <= y && y <= 2043 {
        Some(
            if r4 == 0 {
                22
            } else {
                23
            },
        )
    } else if 2044 <= y && y <= 2075 {
        Some(
            if r4 <= 1 {
                22
            } else {
                23
            },
        )
    } else if 2076 <= y && y <= 2099 {
        Some(
            if r4 == 3 {
                23
            } else {
                22
            },
        )
    } else {
        None
    };
    match target {
        Some(t) => if date.day == t {
            Some("秋分の日")
        } else {
            None
        },
        None => None,
    }
}

/// The backward walk of the substitute rule, starting at the day
/// before the candidate: walks back over consecutive holidays until a
/// Sunday holiday (success), a non-holiday, or the calendar's edge.
fn substitute_from(d: &Date) -> (r: bool)
    requires
        d.wf(),
    ensures
        r == substitute_walk(d.year as int, d.month as int, d.day as int),
    decreases d.index(),
{
    proof {
        lemma_index_nonneg(d.year as int, d.month as int, d.day as int);
    }
    let base = defined_holiday(d).is_some() || vernal_equinox_day(d).is_some()
        || autumnal_equinox_day(d).is_some();
    if !base {
        return false;
    }
    if d.weekday == Weekday::Sunday {
        return true;
    }
    match d.yesterday() {
        Ok(prev) => substitute_from(&prev),
        Err(_) => false,
    }
}

/// Matches the date against the substitute-holiday rule.
fn substitute_holiday(date: &Date) -> (r: Option<&'static str>)
    requires
        date.wf(),
    ensures
        opt_str_view(r) == substitute_spec(date.year as int, date.month as int, date.day as int),
{
    if date.year < 1973 {
        return None;
    }
    match date.yesterday() {
        Ok(prev) => if substitute_from(&prev) {
            Some("振替休日")
        } else {
            None
        },
        Err(_) => None,
    }
}

/// Matches the date against the citizens'-holiday rule.
fn national_holiday(date: &Date) -> (r: Option<&'static str>)
    requires
        date.wf(),
    ensures
        opt_str_view(r) == citizens_spec(date.year as int, date.month as int, date.day as int),
{
    if date.year < 1986 {
        return None;
    }
    if date.weekday == Weekday::Sunday {
        return None;
    }
    if defined_holiday(date).is_some() {
        return None;
    }
    let prev = match date.yesterday() {
        Ok(p) => p,
        Err(_) => {
            return None;
        },
    };
    let before = defined_holiday(&prev).is_some() || variable_holiday(
        &prev,
        "敬老の日",
        9,
        false,
        2002,
    ).is_some();
    if !before {
        return None;
    }
    let next = match date.tomorrow() {
        Ok(n) => n,
        Err(_) => {
            return None;
        },
    };
    let after = defined_holiday(&next).is_some() || autumnal_equinox_day(&next).is_some();
    if after {
        Some("国民の休日")
    } else {
        None
    }
}


/// Whether the fixed-date rule matches the date.
pub open spec fn matches_fixed(y: int, m: int, d: int) -> bool {
    fixed_holiday(y, m, d) is Some
}

/// Whether a floating nth-Monday rule matches the date.
pub open spec fn matches_floating(y: int, m: int, d: int) -> bool {
    floating_holiday(y, m, d) is Some
}

/// Whether an equinox rule matches the date.
pub open spec fn matches_equinox(y: int, m: int, d: int) -> bool {
    vernal_holiday(y, m, d) is Some || autumnal_holiday(y, m, d) is Some
}

/// Whether the substitute rule matches the date.
pub open spec fn matches_substitute(y: int, m: int, d: int) -> bool {
    substitute_spec(y, m, d) is Some
}

/// Whether the citizens'-holiday rule matches the date.
pub open spec fn matches_citizens(y: int, m: int, d: int) -> bool {
    citizens_spec(y, m, d) is Some
}

/// From 1948 on, January 1 is always 元日, whatever else the calendar
/// holds.
pub proof fn lemma_new_years_day(y: int)
    requires
        y >= 1948,
    ensures
        spec_holiday(y, 1, 1) == Some("元日"@),
{
}

/// Mutual exclusivity of the holiday rules: on any single date, the
/// fixed, floating and equinox rules exclude one another pairwise, the
/// floating and equinox rules exclude the substitute rule, and the
/// citizens' rule excludes the fixed, floating and equinox rules. (The
/// two pairs not listed — fixed with substitute, and substitute with
/// citizens — can coincide; the priority order of [`spec_holiday`]
/// resolves them.)
pub proof fn lemma_rule_exclusivity(y: int, m: int, d: int)
    requires
        wf_ymd(y, m, d),
    ensures
        !(matches_fixed(y, m, d) && matches_floating(y, m, d)),
        !(matches_fixed(y, m, d) && matches_equinox(y, m, d)),
        !(matches_fixed(y, m, d) && matches_citizens(y, m, d)),
        !(matches_floating(y, m, d) && matches_equinox(y, m, d)),
        !(matches_floating(y, m, d) && matches_substitute(y, m, d)),
        !(matches_floating(y, m, d) && matches_citizens(y, m, d)),
        !(matches_equinox(y, m, d) && matches_substitute(y, m, d)),
        !(matches_equinox(y, m, d) && matches_citizens(y, m, d)),
{
    if matches_floating(y, m, d) && matches_substitute(y, m, d) {
        lemma_floating_excludes_walk(y, m, d);
    }
    if matches_floating(y, m, d) && matches_citizens(y, m, d) {
        crate::daymath::lemma_prev_dow(y, m, d);
    }
    if matches_equinox(y, m, d) && matches_substitute(y, m, d) {
        lemma_equinox_excludes_walk(y, m, d);
    }
}


/// Which rule the holiday of a date comes from: thanks to the mutual
/// exclusivity of the rules, the priority order of [`spec_holiday`]
/// only ever arbitrates the two overlapping pairs, and every other
/// match decides the result by itself.
pub proof fn lemma_holiday_from_rules(y: int, m: int, d: int)
    requires
        wf_ymd(y, m, d),
    ensures
        matches_fixed(y, m, d) ==> spec_holiday(y, m, d) == fixed_holiday(y, m, d),
        matches_substitute(y, m, d) && !matches_fixed(y, m, d) ==> spec_holiday(y, m, d)
            == substitute_spec(y, m, d),
        matches_floating(y, m, d) ==> spec_holiday(y, m, d) == floating_holiday(y, m, d),
        matches_equinox(y, m, d) ==> spec_holiday(y, m, d) == if vernal_holiday(
            y,
            m,
            d,
        ) is Some {
            vernal_holiday(y, m, d)
        } else {
            autumnal_holiday(y, m, d)
        },
        matches_citizens(y, m, d) && !matches_substitute(y, m, d) ==> spec_holiday(y, m, d)
            == citizens_spec(y, m, d),
{
    lemma_rule_exclusivity(y, m, d);
}

/// On a floating-holiday Monday the previous day is no fixed or
/// equinox holiday, so the backward walk of the substitute rule fails
/// at its first step.
proof fn lemma_floating_excludes_walk(y: int, m: int, d: int)
    requires
        wf_ymd(y, m, d),
        matches_floating(y, m, d),
    ensures
        !matches_substitute(y, m, d),
{
    let p = prev_ymd(y, m, d);
    crate::daymath::lemma_prev_index(y, m, d);
    assert(p == (y, m, d - 1));
    assert(!base_holiday(y, m, d - 1));
    assert(!substitute_walk(p.0, p.1, p.2));
}

/// On an equinox holiday the previous day is no fixed or equinox
/// holiday either, so the backward walk fails at its first step.
proof fn lemma_equinox_excludes_walk(y: int, m: int, d: int)
    requires
        wf_ymd(y, m, d),
        matches_equinox(y, m, d),
    ensures
        !matches_substitute(y, m, d),
{
    let p = prev_ymd(y, m, d);
    crate::daymath::lemma_prev_index(y, m, d);
    assert(p == (y, m, d - 1));
    assert(!base_holiday(y, m, d - 1));
    assert(!substitute_walk(p.0, p.1, p.2));
}

} // verus!
