//! Calendar dates.
//!
//! A [`Date`] carries a validated (year, month, day) triple together
//! with its weekday. Date arithmetic — parsing, the weekday, and
//! stepping a day forward or back — is delegated to chrono, whose
//! results are stated against the model in [`crate::daymath`].
use vstd::prelude::*;

verus! {

use crate::KoyomiError;
use crate::KoyomiResult;
use crate::calendar::num_days_checked;
use crate::daymath::{
    day_index,
    day_of_week,
    next_ymd,
    prev_ymd,
    valid_ymd,
    wf_ymd,
    lemma_next_index,
    lemma_prev_index,
};
use crate::text::{date_canon, date_display, date_display_string, has_letter};
use vstd::std_specs::cmp::PartialOrdSpecImpl;

/// A day of the week; the week starts on Monday.
#[derive(Clone, Copy, Debug, PartialEq, Eq, Structural)]
pub enum Weekday {
    Monday,
    Tuesday,
    Wednesday,
    Thursday,
    Friday,
    Saturday,
    Sunday,
}

impl Weekday {
    /// The weekday as a number, Monday being 0 and Sunday 6.
    pub open spec fn num(self) -> int {
        match self {
            Weekday::Monday => 0,
            Weekday::Tuesday => 1,
            Weekday::Wednesday => 2,
            Weekday::Thursday => 3,
            Weekday::Friday => 4,
            Weekday::Saturday => 5,
            Weekday::Sunday => 6,
        }
    }

    /// The Japanese single-character name of the weekday.
    pub open spec fn japanese_char(self) -> char {
        match self {
            Weekday::Monday => '月',
            Weekday::Tuesday => '火',
            Weekday::Wednesday => '水',
            Weekday::Thursday => '木',
            Weekday::Friday => '金',
            Weekday::Saturday => '土',
            Weekday::Sunday => '日',
        }
    }

    /// Returns the Japanese single-character name of the weekday.
    pub fn japanese(&self) -> (c: char)
        ensures
            c == self.japanese_char(),
    {
        match *self {
            Weekday::Monday => '月',
            Weekday::Tuesday => '火',
            Weekday::Wednesday => '水',
            Weekday::Thursday => '木',
            Weekday::Friday => '金',
            Weekday::Saturday => '土',
            Weekday::Sunday => '日',
        }
    }
}

/// The weekday with the given number, Monday being 0 and Sunday 6.
pub open spec fn weekday_of_num(n: int) -> Weekday {
    if n == 0 {
        Weekday::Monday
    } else if n == 1 {
        Weekday::Tuesday
    } else if n == 2 {
        Weekday::Wednesday
    } else if n == 3 {
        Weekday::Thursday
    } else if n == 4 {
        Weekday::Friday
    } else if n == 5 {
        Weekday::Saturday
    } else {
        Weekday::Sunday
    }
}

/// Converts a weekday number (Monday = 0) into a [`Weekday`].
fn weekday_from_num(n: u32) -> (w: Weekday)
    requires
        n < 7,
    ensures
        w == weekday_of_num(n as int),
{
    if n == 0 {
        Weekday::Monday
    } else if n == 1 {
        Weekday::Tuesday
    } else if n == 2 {
        Weekday::Wednesday
    } else if n == 3 {
        Weekday::Thursday
    } else if n == 4 {
        Weekday::Friday
    } else if n == 5 {
        Weekday::Saturday
    } else {
        Weekday::Sunday
    }
}

/// A calendar date with its weekday.
///
/// Dates are built through [`Date::parse`] and [`Date::from_ymd`],
/// which only ever produce well-formed values (see [`Date::wf`]):
/// a valid (year, month, day) of the years 1 to 9999, carrying its
/// true weekday.
#[derive(Clone, Copy, Debug, PartialEq, Eq, Structural)]
pub struct Date {
    pub year: i32,
    pub month: u32,
    pub day: u32,
    pub weekday: Weekday,
}

/// The well-formed date with the given (year, month, day).
pub open spec fn date_at(y: int, m: int, d: int) -> Date {
    Date {
        year: y as i32,
        month: m as u32,
        day: d as u32,
        weekday: weekday_of_num(day_of_week(y, m, d)),
    }
}

impl Date {
    /// A valid date in the representable range whose stored weekday is
    /// the true weekday of its (year, month, day).
    pub open spec fn wf(self) -> bool {
        wf_ymd(self.year as int, self.month as int, self.day as int) && self.weekday.num()
            == day_of_week(self.year as int, self.month as int, self.day as int)
    }

    /// The day index of this date (see [`crate::daymath::day_index`]).
    pub open spec fn index(self) -> int {
        day_index(self.year as int, self.month as int, self.day as int)
    }

    /// The greatest representable date.
    pub open spec fn is_max(self) -> bool {
        self.year == 9999 && self.month == 12 && self.day == 31
    }

    /// The least representable date.
    pub open spec fn is_min(self) -> bool {
        self.year == 1 && self.month == 1 && self.day == 1
    }

    /// The date one day after this one.
    pub open spec fn succ_date(self) -> Date {
        date_at(
            next_ymd(self.year as int, self.month as int, self.day as int).0,
            next_ymd(self.year as int, self.month as int, self.day as int).1,
            next_ymd(self.year as int, self.month as int, self.day as int).2,
        )
    }

    /// The date one day before this one.
    pub open spec fn pred_date(self) -> Date {
        date_at(
            prev_ymd(self.year as int, self.month as int, self.day as int).0,
            prev_ymd(self.year as int, self.month as int, self.day as int).1,
            prev_ymd(self.year as int, self.month as int, self.day as int).2,
        )
    }

    /// Builds a date from year, month and day.
    ///
    /// Returns `InvalidFormat` when the triple is not a valid calendar
    /// date of the representable years 1 to 9999.
    pub fn from_ymd(year: i32, month: u32, day: u32) -> (r: KoyomiResult<Date>)
        ensures
            wf_ymd(year as int, month as int, day as int) ==> r == Ok::<Date, KoyomiError>(
                date_at(year as int, month as int, day as int),
            ),
            r matches Ok(d) ==> d.wf() && d.year == year && d.month == month && d.day == day,
            !wf_ymd(year as int, month as int, day as int) ==> (r matches Err(e) && e matches
                KoyomiError::InvalidFormat(s) && s@ == date_display(
                year as int,
                month as int,
                day as int,
            )),
    {
        let valid = 1 <= year && year <= 9999 && 1 <= month && month <= 12 && 1 <= day
            && match num_days_checked(year, month) {
            Some(n) => day <= n,
            None => false,
        };
        if valid {
            let wn = chrono_weekday_num(year, month, day);
            Ok(Date { year, month, day, weekday: weekday_from_num(wn) })
        } else {
            Err(KoyomiError::InvalidFormat(date_display_string(year, month, day)))
        }
    }

    /// Parses a date from text in the form `Y-m-d` or `Y/m/d`.
    ///
    /// Returns `InvalidFormat`, carrying the text, when it does not
    /// denote a valid date of the representable range.
    pub fn parse(fmt: &str) -> (r: KoyomiResult<Date>)
        ensures
            r matches Ok(d) ==> d.wf(),
            forall|y: int, m: int, d: int|
                wf_ymd(y, m, d) && fmt@ == #[trigger] date_canon(y, m, d, '-') ==> r
                    == Ok::<Date, KoyomiError>(date_at(y, m, d)),
            forall|y: int, m: int, d: int|
                wf_ymd(y, m, d) && fmt@ == #[trigger] date_canon(y, m, d, '/') ==> r
                    == Ok::<Date, KoyomiError>(date_at(y, m, d)),
            has_letter(fmt@) ==> (r matches Err(e) && e matches KoyomiError::InvalidFormat(s)
                && s@ == fmt@),
            forall|y: int, m: int, d: int|
                0 <= y <= 9999 && 0 <= m && 0 <= d && !valid_ymd(y, m, d) && fmt@
                    == #[trigger] date_canon(y, m, d, '-') ==> r is Err,
            forall|y: int, m: int, d: int|
                0 <= y <= 9999 && 0 <= m && 0 <= d && !valid_ymd(y, m, d) && fmt@
                    == #[trigger] date_canon(y, m, d, '/') ==> r is Err,
            r matches Err(e) ==> e matches KoyomiError::InvalidFormat(s) && s@ == fmt@,
    {
        match chrono_parse_ymd(fmt) {
            Some((y, m, d)) => {
                if 1 <= y && y <= 9999 {
                    let wn = chrono_weekday_num(y, m, d);
                    Ok(Date { year: y, month: m, day: d, weekday: weekday_from_num(wn) })
                } else {
                    Err(KoyomiError::InvalidFormat(fmt.to_owned()))
                }
            },
            None => Err(KoyomiError::InvalidFormat(fmt.to_owned())),
        }
    }

    /// Returns the imperial era of this date.
    pub fn era(&self) -> (r: Option<crate::era::Era>)
        requires
            self.wf(),
        ensures
            crate::era::era_post(*self, r),
    {
        crate::era::era(self)
    }

    /// Returns the national holiday falling on this date, if any.
    pub fn holiday(&self) -> (r: Option<String>)
        requires
            self.wf(),
        ensures
            crate::holiday::opt_string_view(r) == crate::holiday::spec_holiday(
                self.year as int,
                self.month as int,
                self.day as int,
            ),
    {
        crate::holiday::holiday(self)
    }

    /// Returns the day of the month.
    pub fn day(&self) -> (r: u32)
        ensures
            r == self.day,
    {
        self.day
    }

    /// Returns the month.
    pub fn month(&self) -> (r: u32)
        ensures
            r == self.month,
    {
        self.month
    }

    /// Returns the year.
    pub fn year(&self) -> (r: i32)
        ensures
            r == self.year,
    {
        self.year
    }

    /// Returns the weekday.
    pub fn weekday(&self) -> (r: &Weekday)
        ensures
            r == self.weekday,
    {
        &self.weekday
    }

    /// Signed number of days from `date` to `self`.
    pub fn num_days(&self, date: &Date) -> (r: i64)
        requires
            self.wf(),
            date.wf(),
        ensures
            r == self.index() - date.index(),
    {
        chrono_days_between(
            (self.year, self.month, self.day),
            (date.year, date.month, date.day),
        )
    }

    /// Renders the date as `Y-m-d`, the year left-justified in four
    /// characters, month and day zero-padded to two.
    pub fn to_string(&self) -> (r: String)
        requires
            self.wf(),
        ensures
            r@ == date_display(self.year as int, self.month as int, self.day as int),
    {
        date_display_string(self.year, self.month, self.day)
    }

    /// The next day, or `NoTomorrow` past the last representable date.
    pub fn tomorrow(&self) -> (r: KoyomiResult<Date>)
        requires
            self.wf(),
        ensures
            !self.is_max() ==> r == Ok::<Date, KoyomiError>(self.succ_date())
                && self.succ_date().wf() && self.succ_date().index() == self.index() + 1,
            self.is_max() ==> r == Err::<Date, KoyomiError>(
                KoyomiError::NoTomorrow(self.year, self.month, self.day),
            ),
    {
        if self.year == 9999 && self.month == 12 && self.day == 31 {
            Err(KoyomiError::NoTomorrow(self.year, self.month, self.day))
        } else {
            proof {
                lemma_next_index(self.year as int, self.month as int, self.day as int);
            }
            let (y2, m2, d2) = chrono_next_ymd(self.year, self.month, self.day);
            let wn = chrono_weekday_num(y2, m2, d2);
            Ok(Date { year: y2, month: m2, day: d2, weekday: weekday_from_num(wn) })
        }
    }

    /// The previous day, or `NoYesterday` before the first
    /// representable date.
    pub fn yesterday(&self) -> (r: KoyomiResult<Date>)
        requires
            self.wf(),
        ensures
            !self.is_min() ==> r == Ok::<Date, KoyomiError>(self.pred_date())
                && self.pred_date().wf() && self.pred_date().index() == self.index() - 1,
            self.is_min() ==> r == Err::<Date, KoyomiError>(
                KoyomiError::NoYesterday(self.year, self.month, self.day),
            ),
    {
        if self.year == 1 && self.month == 1 && self.day == 1 {
            Err(KoyomiError::NoYesterday(self.year, self.month, self.day))
        } else {
            proof {
                lemma_prev_index(self.year as int, self.month as int, self.day as int);
            }
            let (y0, m0, d0) = chrono_pred_ymd(self.year, self.month, self.day);
            let wn = chrono_weekday_num(y0, m0, d0);
            Ok(Date { year: y0, month: m0, day: d0, weekday: weekday_from_num(wn) })
        }
    }
}

impl core::cmp::PartialOrd for Date {
    /// Dates are ordered lexicographically on (year, month, day).
    fn partial_cmp(&self, other: &Date) -> (r: Option<core::cmp::Ordering>) {
        if self.year < other.year {
            Some(core::cmp::Ordering::Less)
        } else if self.year > other.year {
            Some(core::cmp::Ordering::Greater)
        } else if self.month < other.month {
            Some(core::cmp::Ordering::Less)
        } else if self.month > other.month {
            Some(core::cmp::Ordering::Greater)
        } else if self.day < other.day {
            Some(core::cmp::Ordering::Less)
        } else if self.day > other.day {
            Some(core::cmp::Ordering::Greater)
        } else {
            Some(core::cmp::Ordering::Equal)
        }
    }
}

impl PartialOrdSpecImpl for Date {
    open spec fn obeys_partial_cmp_spec() -> bool {
        true
    }

    open spec fn partial_cmp_spec(&self, other: &Date) -> Option<core::cmp::Ordering> {
        if crate::daymath::ymd_lt(
            self.year as int,
            self.month as int,
            self.day as int,
            other.year as int,
            other.month as int,
            other.day as int,
        ) {
            Some(core::cmp::Ordering::Less)
        } else if crate::daymath::ymd_lt(
            other.year as int,
            other.month as int,
            other.day as int,
            self.year as int,
            self.month as int,
            self.day as int,
        ) {
            Some(core::cmp::Ordering::Greater)
        } else {
            Some(core::cmp::Ordering::Equal)
        }
    }
}

/// Two well-formed dates with the same day index are the same date.
pub proof fn lemma_wf_date_unique(a: Date, b: Date)
    requires
        a.wf(),
        b.wf(),
        a.index() == b.index(),
    ensures
        a == b,
{
    crate::daymath::lemma_lex_index(
        a.year as int,
        a.month as int,
        a.day as int,
        b.year as int,
        b.month as int,
        b.day as int,
    );
    assert(a.weekday.num() == b.weekday.num());
    assert(a.weekday == b.weekday);
}


/// Round trip between rendering and parsing: for a well-formed date
/// with a four-digit year, the rendered form is exactly the canonical
/// string that [`Date::parse`] promises to turn back into this very
/// date. (With a year below 1000 the rendered year field carries
/// trailing spaces and does not parse back.)
pub proof fn lemma_parse_round_trip(d: Date)
    requires
        d.wf(),
        d.year >= 1000,
    ensures
        date_display(d.year as int, d.month as int, d.day as int) == date_canon(
            d.year as int,
            d.month as int,
            d.day as int,
            '-',
        ),
        date_at(d.year as int, d.month as int, d.day as int) == d,
{
    crate::text::lemma_display_is_canon(d.year as int, d.month as int, d.day as int);
    assert(weekday_of_num(d.weekday.num()) == d.weekday);
}

/// Relies on `chrono::NaiveDate::parse_from_str` with the formats
/// `%Y-%m-%d` and `%Y/%m/%d`: a successful parse yields a valid
/// calendar date, and the fully zero-padded rendering of any valid
/// in-range date parses back to exactly that date. On the failure
/// side: both formats consume only digits, whitespace, a sign, and
/// their literal separators, and demand that the whole text be
/// consumed, so text containing a letter never parses; and a parsed
/// month or day is validated against the calendar, so the rendering of
/// an invalid triple (month 13, February 30) never parses either.
#[verifier::external_body]
fn chrono_parse_ymd(text: &str) -> (r: Option<(i32, u32, u32)>)
    ensures
        r matches Some(t) ==> valid_ymd(t.0 as int, t.1 as int, t.2 as int),
        has_letter(text@) ==> r is None,
        forall|y: int, m: int, d: int|
            0 <= y <= 9999 && 0 <= m && 0 <= d && !valid_ymd(y, m, d) && text@
                == #[trigger] date_canon(y, m, d, '-') ==> r is None,
        forall|y: int, m: int, d: int|
            0 <= y <= 9999 && 0 <= m && 0 <= d && !valid_ymd(y, m, d) && text@
                == #[trigger] date_canon(y, m, d, '/') ==> r is None,
        forall|y: int, m: int, d: int|
            wf_ymd(y, m, d) && text@ == #[trigger] date_canon(y, m, d, '-') ==> r == Some(
                (y as i32, m as u32, d as u32),
            ),
        forall|y: int, m: int, d: int|
            wf_ymd(y, m, d) && text@ == #[trigger] date_canon(y, m, d, '/') ==> r == Some(
                (y as i32, m as u32, d as u32),
            ),
{
    let parsed = chrono::NaiveDate::parse_from_str(text, "%Y-%m-%d").or_else(
        |_| chrono::NaiveDate::parse_from_str(text, "%Y/%m/%d"),
    );
    match parsed {
        Ok(nd) => Some(
            (chrono::Datelike::year(&nd), chrono::Datelike::month(&nd), chrono::Datelike::day(&nd)),
        ),
        Err(_) => None,
    }
}

/// Relies on `chrono::NaiveDate::from_ymd_opt` and
/// `chrono::Weekday::num_days_from_monday`: the weekday of a proleptic
/// Gregorian date, numbered with Monday as 0.
#[verifier::external_body]
fn chrono_weekday_num(y: i32, m: u32, d: u32) -> (r: u32)
    requires
        wf_ymd(y as int, m as int, d as int),
    ensures
        r == day_of_week(y as int, m as int, d as int),
{
    let nd = chrono::NaiveDate::from_ymd_opt(y, m, d).unwrap();
    chrono::Datelike::weekday(&nd).num_days_from_monday()
}

/// Relies on `chrono::NaiveDate::succ_opt`: the next calendar day.
#[verifier::external_body]
fn chrono_next_ymd(y: i32, m: u32, d: u32) -> (r: (i32, u32, u32))
    requires
        wf_ymd(y as int, m as int, d as int),
    ensures
        (r.0 as int, r.1 as int, r.2 as int) == next_ymd(y as int, m as int, d as int),
{
    let nd = chrono::NaiveDate::from_ymd_opt(y, m, d).unwrap().succ_opt().unwrap();
    (chrono::Datelike::year(&nd), chrono::Datelike::month(&nd), chrono::Datelike::day(&nd))
}

/// Relies on `chrono::NaiveDate::pred_opt`: the previous calendar day.
#[verifier::external_body]
fn chrono_pred_ymd(y: i32, m: u32, d: u32) -> (r: (i32, u32, u32))
    requires
        wf_ymd(y as int, m as int, d as int),
        !(y == 1 && m == 1 && d == 1),
    ensures
        (r.0 as int, r.1 as int, r.2 as int) == prev_ymd(y as int, m as int, d as int),
{
    let nd = chrono::NaiveDate::from_ymd_opt(y, m, d).unwrap().pred_opt().unwrap();
    (chrono::Datelike::year(&nd), chrono::Datelike::month(&nd), chrono::Datelike::day(&nd))
}

/// Relies on `chrono::NaiveDate::signed_duration_since` and
/// `chrono::TimeDelta::num_days`: the signed difference of two dates
/// in days.
#[verifier::external_body]
fn chrono_days_between(a: (i32, u32, u32), b: (i32, u32, u32)) -> (r: i64)
    requires
        wf_ymd(a.0 as int, a.1 as int, a.2 as int),
        wf_ymd(b.0 as int, b.1 as int, b.2 as int),
    ensures
        r == day_index(a.0 as int, a.1 as int, a.2 as int) - day_index(
            b.0 as int,
            b.1 as int,
            b.2 as int,
        ),
{
    let da = chrono::NaiveDate::from_ymd_opt(a.0, a.1, a.2).unwrap();
    let db = chrono::NaiveDate::from_ymd_opt(b.0, b.1, b.2).unwrap();
    da.signed_duration_since(db).num_days()
}

} // verus!
