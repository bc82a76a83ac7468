//! Japanese imperial eras.
//!
//! The table covers the four eras from Meiji on; each occupies a
//! contiguous interval of dates, closed on both ends, and the last one
//! is open-ended. The era of a date is found by scanning from the most
//! recent era backwards.
use vstd::prelude::*;

verus! {

use crate::date::{Date, date_at};
use crate::daymath::ymd_lt;
use crate::text::{dec_int, push_i64_dec};
use vstd::string::StringExecFns;

/// Whether date `a` is on or after the day `(y, m, d)`.
pub open spec fn on_or_after(a: Date, y: int, m: int, d: int) -> bool {
    !ymd_lt(a.year as int, a.month as int, a.day as int, y, m, d)
}

/// The name of the era containing the date (meaningful only from the
/// Meiji epoch on).
pub open spec fn era_name_of(a: Date) -> Seq<char> {
    if on_or_after(a, 1989, 1, 8) {
        "平成"@
    } else if on_or_after(a, 1926, 12, 25) {
        "昭和"@
    } else if on_or_after(a, 1912, 7, 30) {
        "大正"@
    } else {
        "明治"@
    }
}

/// The first day of the era containing the date.
pub open spec fn era_start_of(a: Date) -> Date {
    if on_or_after(a, 1989, 1, 8) {
        date_at(1989, 1, 8)
    } else if on_or_after(a, 1926, 12, 25) {
        date_at(1926, 12, 25)
    } else if on_or_after(a, 1912, 7, 30) {
        date_at(1912, 7, 30)
    } else {
        date_at(1868, 1, 25)
    }
}

/// The last day of the era containing the date, if the era has ended.
pub open spec fn era_until_of(a: Date) -> Option<Date> {
    if on_or_after(a, 1989, 1, 8) {
        None
    } else if on_or_after(a, 1926, 12, 25) {
        Some(date_at(1989, 1, 7))
    } else if on_or_after(a, 1912, 7, 30) {
        Some(date_at(1926, 12, 24))
    } else {
        Some(date_at(1912, 7, 29))
    }
}

/// What [`era`] returns for a date: nothing before the Meiji epoch,
/// else the era record with the date's own year.
pub open spec fn era_post(a: Date, r: Option<Era>) -> bool {
    &&& (r is Some <==> on_or_after(a, 1868, 1, 25))
    &&& (r matches Some(e) ==> {
        &&& e.ad == a.year
        &&& e.name@ == era_name_of(a)
        &&& e.from == era_start_of(a)
        &&& e.until == era_until_of(a)
        &&& e.wf()
    })
}

/// An imperial era, as seen from a particular date: the era's name and
/// interval, and the Gregorian year `ad` of the viewing date.
#[derive(Debug, Eq, PartialEq)]
pub struct Era {
    pub ad: i32,
    pub name: String,
    pub from: Date,
    pub until: Option<Date>,
}

impl Era {
    /// The interval endpoints are well-formed dates and the viewed
    /// year lies in the representable range.
    pub open spec fn wf(self) -> bool {
        &&& self.from.wf()
        &&& (self.until matches Some(u) ==> u.wf())
        &&& 1 <= self.ad <= 9999
    }

    /// The era-relative year of the viewing date.
    pub open spec fn spec_year(self) -> int {
        self.ad - self.from.year + 1
    }

    /// The rendering of the era and its relative year: the first year
    /// is written `元年`, later ones with their number.
    pub open spec fn format_view(self) -> Seq<char> {
        if self.spec_year() == 1 {
            self.name@ + "元年"@
        } else {
            self.name@ + dec_int(self.spec_year()) + "年"@
        }
    }

    /// Returns the era's name.
    pub fn name(&self) -> (r: String)
        ensures
            r@ == self.name@,
    {
        self.name.clone()
    }

    /// Returns the era-relative year of the viewing date.
    pub fn year(&self) -> (r: i32)
        requires
            self.wf(),
        ensures
            r == self.spec_year(),
    {
        self.ad - self.from.year + 1
    }

    /// Renders the era with its relative year, `元年` for the first.
    pub fn format(&self) -> (r: String)
        requires
            self.wf(),
        ensures
            r@ == self.format_view(),
    {
        let mut s = self.name.clone();
        let y = self.ad - self.from.year + 1;
        if y == 1 {
            s.append("元年");
        } else {
            push_i64_dec(&mut s, y as i64);
            s.append("年");
        }
        s
    }

    /// Whether the date falls within this era's interval.
    fn is_match(&self, date: &Date) -> (r: bool)
        ensures
            r == self.spec_match(*date),
    {
        match &self.until {
            Some(until) => self.from <= *date && *date <= *until,
            None => self.from <= *date,
        }
    }

    /// The date lies between the era's first and last day.
    pub open spec fn spec_match(self, a: Date) -> bool {
        match self.until {
            Some(u) => !ymd_lt(
                a.year as int,
                a.month as int,
                a.day as int,
                self.from.year as int,
                self.from.month as int,
                self.from.day as int,
            ) && !ymd_lt(
                u.year as int,
                u.month as int,
                u.day as int,
                a.year as int,
                a.month as int,
                a.day as int,
            ),
            None => !ymd_lt(
                a.year as int,
                a.month as int,
                a.day as int,
                self.from.year as int,
                self.from.month as int,
                self.from.day as int,
            ),
        }
    }
}

/// Looks up the era containing the date, scanning from the most recent
/// era backwards; dates before the Meiji epoch have none.
pub fn era(date: &Date) -> (r: Option<Era>)
    requires
        date.wf(),
    ensures
        era_post(*date, r),
{
    let heisei = Era {
        ad: date.year,
        name: "平成".to_owned(),
        from: Date::from_ymd(1989, 1, 8).unwrap(),
        until: None,
    };
    if heisei.is_match(date) {
        return Some(heisei);
    }
    let showa = Era {
        ad: date.year,
        name: "昭和".to_owned(),
        from: Date::from_ymd(1926, 12, 25).unwrap(),
        until: Some(Date::from_ymd(1989, 1, 7).unwrap()),
    };
    if showa.is_match(date) {
        return Some(showa);
    }
    let taisho = Era {
        ad: date.year,
        name: "大正".to_owned(),
        from: Date::from_ymd(1912, 7, 30).unwrap(),
        until: Some(Date::from_ymd(1926, 12, 24).unwrap()),
    };
    if taisho.is_match(date) {
        return Some(taisho);
    }
    let meiji = Era {
        ad: date.year,
        name: "明治".to_owned(),
        from: Date::from_ymd(1868, 1, 25).unwrap(),
        until: Some(Date::from_ymd(1912, 7, 29).unwrap()),
    };
    if meiji.is_match(date) {
        return Some(meiji);
    }
    None
}

/// The era record of a date, and hence its rendering, is fully
/// determined by the date: two lookups of the same date agree on
/// whether an era exists, on its name, and on its rendered form.
pub proof fn lemma_era_deterministic(a: Date, r1: Option<Era>, r2: Option<Era>)
    requires
        a.wf(),
        era_post(a, r1),
        era_post(a, r2),
    ensures
        r1 is Some <==> r2 is Some,
        r1 is Some && r2 is Some ==> r1->Some_0.name@ == r2->Some_0.name@
            && r1->Some_0.format_view() == r2->Some_0.format_view(),
{
}

} // verus!
