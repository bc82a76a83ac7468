//! Calendars over a range of dates, and small date utilities.
//!
//! A [`Calendar`] holds a strictly increasing pair of dates and can
//! materialize every day of the range. A [`CalendarBuilder`] resolves
//! `"Y"` and `"Y-m"` tokens into such a range: a lone token spans the
//! whole year or month, and a from/until pair is resolved to the first
//! day of its start and the last day of its end.
use vstd::prelude::*;

verus! {

use crate::KoyomiError;
use crate::KoyomiResult;
use crate::date::{Date, date_at};
use crate::daymath::{days_in_month, is_leap_year, lemma_lex_index, wf_ymd};
use crate::text::{
    count_char,
    date_canon,
    dec_digits,
    has_letter,
    lemma_count_char_concat,
    lemma_dec_digits_len,
    lemma_digits_no_hyphen,
    lemma_has_letter_concat,
    lemma_pad2_no_hyphen,
    pad2,
};
use vstd::string::{StrSliceExecFns, StringExecFns};
use vstd::arithmetic::div_mod::lemma_mod_multiples_vanish;

/// Whether the year is a leap year.
pub fn is_leap(year: i32) -> (r: bool)
    ensures
        r == is_leap_year(year as int),
{
    // Shift by a positive multiple of 400 so the remainders are taken
    // of a positive number; leap years repeat every 400 years.
    let y: i64 = year as i64 + 2_147_484_000i64;
    proof {
        lemma_mod_multiples_vanish(536_871_000, year as int, 4);
        lemma_mod_multiples_vanish(21_474_840, year as int, 100);
        lemma_mod_multiples_vanish(5_368_710, year as int, 400);
    }
    if y % 4 != 0 {
        false
    } else if y % 100 == 0 && y % 400 != 0 {
        false
    } else {
        true
    }
}

/// Number of days in the given month of the given year.
pub fn num_days(year: i32, month: u32) -> (r: u32)
    requires
        1 <= month <= 12,
    ensures
        r == days_in_month(year as int, month as int),
{
    if month == 2 {
        if is_leap(year) {
            29
        } else {
            28
        }
    } else if month == 4 || month == 6 || month == 9 || month == 11 {
        30
    } else {
        31
    }
}

/// Number of days in the month, or `None` when the month is invalid.
pub(crate) fn num_days_checked(year: i32, month: u32) -> (r: Option<u32>)
    ensures
        1 <= month <= 12 ==> r == Some((days_in_month(year as int, month as int) as u32)),
        !(1 <= month <= 12) ==> r is None,
{
    if 1 <= month && month <= 12 {
        Some(num_days(year, month))
    } else {
        None
    }
}

/// A token of the form `"Y"`: the decimal digits of a four-digit year.
pub open spec fn year_token(s: Seq<char>, y: int) -> bool {
    1000 <= y <= 9999 && s == dec_digits(y)
}

/// A token of the form `"Y-m"`: a four-digit year, a hyphen, and a
/// zero-padded two-digit month.
pub open spec fn month_token(s: Seq<char>, y: int, m: int) -> bool {
    1000 <= y <= 9999 && 1 <= m <= 12 && s == dec_digits(y) + seq!['-'] + pad2(m)
}

/// A calendar range of dates, from `from` to `until` inclusive.
#[derive(Debug)]
pub struct Calendar {
    pub from: Date,
    pub until: Date,
}

impl Calendar {
    /// Both endpoints are well-formed and the range runs forward.
    pub open spec fn wf(self) -> bool {
        self.from.wf() && self.until.wf() && self.from.index() < self.until.index()
    }

    /// Builds a calendar over the given range; an inverted or empty
    /// range is rejected as `InvalidTerm`.
    pub fn new(from: Date, until: Date) -> (r: KoyomiResult<Calendar>)
        requires
            from.wf(),
            until.wf(),
        ensures
            from.index() < until.index() ==> r == Ok::<Calendar, KoyomiError>(
                Calendar { from, until },
            ),
            r matches Ok(c) ==> c.wf(),
            from.index() >= until.index() ==> r == Err::<Calendar, KoyomiError>(
                KoyomiError::InvalidTerm(from, until),
            ),
    {
        let span = until.num_days(&from);
        if span <= 0 {
            Err(KoyomiError::InvalidTerm(from, until))
        } else {
            Ok(Calendar { from, until })
        }
    }

    /// Returns a builder for a calendar.
    pub fn build<'a>() -> (r: CalendarBuilder<'a>)
        ensures
            r.from is None,
            r.single is None,
            r.until is None,
    {
        CalendarBuilder { from: None, single: None, until: None }
    }

    /// Renders the first day of the range.
    pub fn from(&self) -> (r: String)
        requires
            self.wf(),
        ensures
            r@ == crate::text::date_display(
                self.from.year as int,
                self.from.month as int,
                self.from.day as int,
            ),
    {
        self.from.to_string()
    }

    /// Renders the last day of the range.
    pub fn until(&self) -> (r: String)
        requires
            self.wf(),
        ensures
            r@ == crate::text::date_display(
                self.until.year as int,
                self.until.month as int,
                self.until.day as int,
            ),
    {
        self.until.to_string()
    }

    /// Materializes every day of the range in order: the dates from
    /// `from` to `until` inclusive, each one day after the previous.
    #[verifier::rlimit(60)]
    pub fn make(&self) -> (r: Vec<Date>)
        requires
            self.wf(),
        ensures
            r@.len() == self.until.index() - self.from.index() + 1,
            forall|i: int|
                0 <= i < r@.len() ==> (#[trigger] r@[i]).wf() && r@[i].index() == self.from.index()
                    + i,
            r@[0] == self.from,
            r@[r@.len() - 1] == self.until,
    {
        let mut cal: Vec<Date> = Vec::new();
        let mut cur: Date = self.from;
        cal.push(cur);
        while cur < self.until
            invariant
                self.wf(),
                cur.wf(),
                cur.index() <= self.until.index(),
                cal@.len() == cur.index() - self.from.index() + 1,
                forall|i: int|
                    0 <= i < cal@.len() ==> (#[trigger] cal@[i]).wf() && cal@[i].index()
                        == self.from.index() + i,
                cal@[0] == self.from,
                cal@[cal@.len() - 1] == cur,
            decreases self.until.index() - cur.index(),
        {
            proof {
                lemma_lex_index(
                    cur.year as int,
                    cur.month as int,
                    cur.day as int,
                    self.until.year as int,
                    self.until.month as int,
                    self.until.day as int,
                );
                lemma_lex_index(
                    cur.year as int,
                    cur.month as int,
                    cur.day as int,
                    9999,
                    12,
                    31,
                );
                lemma_lex_index(
                    self.until.year as int,
                    self.until.month as int,
                    self.until.day as int,
                    9999,
                    12,
                    31,
                );
            }
            let next = match cur.tomorrow() {
                Ok(n) => n,
                Err(_) => {
                    proof {
                        assert(false);
                    }
                    return cal;
                },
            };
            cur = next;
            cal.push(cur);
        }
        proof {
            lemma_lex_index(
                cur.year as int,
                cur.month as int,
                cur.day as int,
                self.until.year as int,
                self.until.month as int,
                self.until.day as int,
            );
            crate::date::lemma_wf_date_unique(cur, self.until);
        }
        cal
    }
}

/// Builds a [`Calendar`] from `"Y"` or `"Y-m"` tokens: either a single
/// token spanning a whole year or month, or a from/until pair.
#[derive(Debug)]
pub struct CalendarBuilder<'a> {
    pub from: Option<&'a str>,
    pub single: Option<&'a str>,
    pub until: Option<&'a str>,
}

impl<'a> CalendarBuilder<'a> {
    /// Sets the start of the range.
    pub fn from(self, from: &'a str) -> (r: Self)
        ensures
            r.from == Some(from),
            r.single == self.single,
            r.until == self.until,
    {
        CalendarBuilder { from: Some(from), single: self.single, until: self.until }
    }

    /// Sets a single year or year-month token.
    pub fn single(self, single: &'a str) -> (r: Self)
        ensures
            r.single == Some(single),
            r.from == self.from,
            r.until == self.until,
    {
        CalendarBuilder { from: self.from, single: Some(single), until: self.until }
    }

    /// Sets the end of the range.
    pub fn until(self, until: &'a str) -> (r: Self)
        ensures
            r.until == Some(until),
            r.from == self.from,
            r.single == self.single,
    {
        CalendarBuilder { from: self.from, single: self.single, until: Some(until) }
    }

    /// Resolves the builder into a calendar.
    ///
    /// A single token wins over a from/until pair; a missing bound of
    /// the pair is `NotEnough`; a malformed token is `InvalidFormat`;
    /// a resolved from/until pair that does not run forward is
    /// `InvalidTerm` (a single token always spans forward, so single
    /// mode reports only `InvalidFormat`).
    #[verifier::rlimit(100)]
    pub fn finalize(&self) -> (r: KoyomiResult<Calendar>)
        ensures
            r matches Ok(c) ==> c.wf(),
            forall|y: int|
                self.single is Some && #[trigger] year_token(self.single->Some_0@, y) ==> r
                    == Ok::<Calendar, KoyomiError>(
                    Calendar { from: date_at(y, 1, 1), until: date_at(y, 12, 31) },
                ),
            forall|y: int, m: int|
                self.single is Some && #[trigger] month_token(self.single->Some_0@, y, m) ==> r
                    == Ok::<Calendar, KoyomiError>(
                    Calendar {
                        from: date_at(y, m, 1),
                        until: date_at(y, m, days_in_month(y, m)),
                    },
                ),
            self.single is Some && count_char(self.single->Some_0@, '-') >= 2 ==> (r matches
                Err(e) && e matches KoyomiError::InvalidFormat(s) && s@ == self.single->Some_0@),
            self.single is Some && has_letter(self.single->Some_0@) ==> (r matches Err(e)
                && e matches KoyomiError::InvalidFormat(_)),
            self.single is Some ==> (r matches Err(e) ==> e matches KoyomiError::InvalidFormat(
                _,
            )),
            r matches Err(e) ==> (e is NotEnough || e matches KoyomiError::InvalidFormat(_)
                || e matches KoyomiError::InvalidTerm(_, _)),
            self.single is None && self.from is Some && has_letter(self.from->Some_0@) ==> (
            r matches Err(e) && e matches KoyomiError::InvalidFormat(_)),
            forall|y1: int|
                self.single is None && self.from is Some && self.until is Some
                    && #[trigger] year_token(self.from->Some_0@, y1)
                    && has_letter(self.until->Some_0@) ==> (r matches Err(e) && e matches
                    KoyomiError::InvalidFormat(_)),
            forall|y1: int, m1: int|
                self.single is None && self.from is Some && self.until is Some
                    && #[trigger] month_token(self.from->Some_0@, y1, m1)
                    && has_letter(self.until->Some_0@) ==> (r matches Err(e) && e matches
                    KoyomiError::InvalidFormat(_)),
            self.single is None && self.from is None ==> r == Err::<Calendar, KoyomiError>(
                KoyomiError::NotEnough,
            ),
            forall|y1: int|
                self.single is None && self.until is None && self.from is Some
                    && #[trigger] year_token(self.from->Some_0@, y1) ==> r
                    == Err::<Calendar, KoyomiError>(KoyomiError::NotEnough),
            forall|y1: int, m1: int|
                self.single is None && self.until is None && self.from is Some
                    && #[trigger] month_token(self.from->Some_0@, y1, m1) ==> r
                    == Err::<Calendar, KoyomiError>(KoyomiError::NotEnough),
            forall|y1: int, y2: int|
                self.single is None && self.from is Some && self.until is Some
                    && #[trigger] year_token(self.from->Some_0@, y1)
                    && #[trigger] year_token(self.until->Some_0@, y2) ==> r == range_result(
                    date_at(y1, 1, 1),
                    date_at(y2, 12, 31),
                ),
            forall|y1: int, y2: int, m2: int|
                self.single is None && self.from is Some && self.until is Some
                    && #[trigger] year_token(self.from->Some_0@, y1)
                    && #[trigger] month_token(self.until->Some_0@, y2, m2) ==> r == range_result(
                    date_at(y1, 1, 1),
                    date_at(y2, m2, days_in_month(y2, m2)),
                ),
            forall|y1: int, m1: int, y2: int|
                self.single is None && self.from is Some && self.until is Some
                    && #[trigger] month_token(self.from->Some_0@, y1, m1)
                    && #[trigger] year_token(self.until->Some_0@, y2) ==> r == range_result(
                    date_at(y1, m1, 1),
                    date_at(y2, 12, 31),
                ),
            forall|y1: int, m1: int, y2: int, m2: int|
                self.single is None && self.from is Some && self.until is Some
                    && #[trigger] month_token(self.from->Some_0@, y1, m1)
                    && #[trigger] month_token(self.until->Some_0@, y2, m2) ==> r == range_result(
                    date_at(y1, m1, 1),
                    date_at(y2, m2, days_in_month(y2, m2)),
                ),
    {
        match self.single {
            Some(single) => self.single_calendar(single),
            None => self.pair_calendar(),
        }
    }

    /// Resolves the from/until pair of tokens into a calendar.
    #[verifier::rlimit(100)]
    fn pair_calendar(&self) -> (r: KoyomiResult<Calendar>)
        ensures
            r matches Ok(c) ==> c.wf(),
            self.from is None ==> r == Err::<Calendar, KoyomiError>(KoyomiError::NotEnough),
            self.from is Some && count_char(self.from->Some_0@, '-') >= 2 ==> (r matches
                Err(e) && e matches KoyomiError::InvalidFormat(s) && s@ == self.from->Some_0@),
            self.from is Some && has_letter(self.from->Some_0@) ==> (r matches Err(e)
                && e matches KoyomiError::InvalidFormat(_)),
            r matches Err(e) ==> (e is NotEnough || e matches KoyomiError::InvalidFormat(_)
                || e matches KoyomiError::InvalidTerm(_, _)),
            forall|y1: int|
                self.from is Some && self.until is Some
                    && #[trigger] year_token(self.from->Some_0@, y1)
                    && has_letter(self.until->Some_0@) ==> (r matches Err(e) && e matches
                    KoyomiError::InvalidFormat(_)),
            forall|y1: int, m1: int|
                self.from is Some && self.until is Some
                    && #[trigger] month_token(self.from->Some_0@, y1, m1)
                    && has_letter(self.until->Some_0@) ==> (r matches Err(e) && e matches
                    KoyomiError::InvalidFormat(_)),
            forall|y1: int|
                self.until is None && self.from is Some
                    && #[trigger] year_token(self.from->Some_0@, y1) ==> r
                    == Err::<Calendar, KoyomiError>(KoyomiError::NotEnough),
            forall|y1: int, m1: int|
                self.until is None && self.from is Some
                    && #[trigger] month_token(self.from->Some_0@, y1, m1) ==> r
                    == Err::<Calendar, KoyomiError>(KoyomiError::NotEnough),
            forall|y1: int, y2: int|
                self.from is Some && self.until is Some
                    && #[trigger] year_token(self.from->Some_0@, y1)
                    && #[trigger] year_token(self.until->Some_0@, y2) ==> r == range_result(
                    date_at(y1, 1, 1),
                    date_at(y2, 12, 31),
                ),
            forall|y1: int, y2: int, m2: int|
                self.from is Some && self.until is Some
                    && #[trigger] year_token(self.from->Some_0@, y1)
                    && #[trigger] month_token(self.until->Some_0@, y2, m2) ==> r == range_result(
                    date_at(y1, 1, 1),
                    date_at(y2, m2, days_in_month(y2, m2)),
                ),
            forall|y1: int, m1: int, y2: int|
                self.from is Some && self.until is Some
                    && #[trigger] month_token(self.from->Some_0@, y1, m1)
                    && #[trigger] year_token(self.until->Some_0@, y2) ==> r == range_result(
                    date_at(y1, m1, 1),
                    date_at(y2, 12, 31),
                ),
            forall|y1: int, m1: int, y2: int, m2: int|
                self.from is Some && self.until is Some
                    && #[trigger] month_token(self.from->Some_0@, y1, m1)
                    && #[trigger] month_token(self.until->Some_0@, y2, m2) ==> r == range_result(
                    date_at(y1, m1, 1),
                    date_at(y2, m2, days_in_month(y2, m2)),
                ),
    {
        let from = match self.date_from() {
            Ok(d) => d,
            Err(e) => {
                return Err(e);
            },
        };
        let until = match self.date_until() {
            Ok(d) => d,
            Err(e) => {
                return Err(e);
            },
        };
        let result = Calendar::new(from, until);
        proof {
            let f = self.from->Some_0@;
            let u = self.until->Some_0@;
            assert forall|y1: int, y2: int|
                year_token(f, y1) && year_token(u, y2) implies result == range_result(
                date_at(y1, 1, 1),
                date_at(y2, 12, 31),
            ) by {
                assert(from == date_at(y1, 1, 1));
                assert(until == date_at(y2, 12, 31));
            }
            assert forall|y1: int, y2: int, m2: int|
                year_token(f, y1) && month_token(u, y2, m2) implies result == range_result(
                date_at(y1, 1, 1),
                date_at(y2, m2, days_in_month(y2, m2)),
            ) by {
                assert(from == date_at(y1, 1, 1));
                assert(until == date_at(y2, m2, days_in_month(y2, m2)));
            }
            assert forall|y1: int, m1: int, y2: int|
                month_token(f, y1, m1) && year_token(u, y2) implies result == range_result(
                date_at(y1, m1, 1),
                date_at(y2, 12, 31),
            ) by {
                assert(from == date_at(y1, m1, 1));
                assert(until == date_at(y2, 12, 31));
            }
            assert forall|y1: int, m1: int, y2: int, m2: int|
                month_token(f, y1, m1) && month_token(u, y2, m2) implies result == range_result(
                date_at(y1, m1, 1),
                date_at(y2, m2, days_in_month(y2, m2)),
            ) by {
                assert(from == date_at(y1, m1, 1));
                assert(until == date_at(y2, m2, days_in_month(y2, m2)));
            }
        }
        result
    }

    /// Resolves the `from` token to the first day of its span.
    fn date_from(&self) -> (r: KoyomiResult<Date>)
        ensures
            self.from is None ==> r == Err::<Date, KoyomiError>(KoyomiError::NotEnough),
            forall|y: int|
                self.from is Some && #[trigger] year_token(self.from->Some_0@, y) ==> r
                    == Ok::<Date, KoyomiError>(date_at(y, 1, 1)),
            forall|y: int, m: int|
                self.from is Some && #[trigger] month_token(self.from->Some_0@, y, m) ==> r
                    == Ok::<Date, KoyomiError>(date_at(y, m, 1)),
            self.from is Some && count_char(self.from->Some_0@, '-') >= 2 ==> (r matches
                Err(e) && e matches KoyomiError::InvalidFormat(s) && s@ == self.from->Some_0@),
            self.from is Some && has_letter(self.from->Some_0@) ==> (r matches Err(e)
                && e matches KoyomiError::InvalidFormat(_)),
            self.from is Some ==> (r matches Err(e) ==> e matches KoyomiError::InvalidFormat(_)),
            r matches Ok(d) ==> d.wf(),
    {
        match self.from {
            None => Err(KoyomiError::NotEnough),
            Some(f) => resolve_start(f),
        }
    }

    /// Resolves the `until` token to the last day of its span.
    fn date_until(&self) -> (r: KoyomiResult<Date>)
        ensures
            self.until is None ==> r == Err::<Date, KoyomiError>(KoyomiError::NotEnough),
            forall|y: int|
                self.until is Some && #[trigger] year_token(self.until->Some_0@, y) ==> r
                    == Ok::<Date, KoyomiError>(date_at(y, 12, 31)),
            forall|y: int, m: int|
                self.until is Some && #[trigger] month_token(self.until->Some_0@, y, m) ==> r
                    == Ok::<Date, KoyomiError>(date_at(y, m, days_in_month(y, m))),
            self.until is Some && count_char(self.until->Some_0@, '-') >= 2 ==> (r matches
                Err(e) && e matches KoyomiError::InvalidFormat(s) && s@ == self.until->Some_0@),
            self.until is Some && has_letter(self.until->Some_0@) ==> (r matches Err(e)
                && e matches KoyomiError::InvalidFormat(_)),
            self.until is Some ==> (r matches Err(e) ==> e matches KoyomiError::InvalidFormat(_)),
            r matches Ok(d) ==> d.wf(),
    {
        match self.until {
            None => Err(KoyomiError::NotEnough),
            Some(u) => resolve_end(u),
        }
    }

    /// Builds the calendar for a single year or year-month token.
    ///
    /// A single token always resolves to a forward range — a year from
    /// its January 1 to its December 31, a month from its first to its
    /// last day — so the only error single mode reports is
    /// `InvalidFormat`, never `InvalidTerm`.
    fn single_calendar(&self, ym: &str) -> (r: KoyomiResult<Calendar>)
        ensures
            r matches Ok(c) ==> c.wf(),
            r matches Err(e) ==> e matches KoyomiError::InvalidFormat(_),
            forall|y: int|
                #[trigger] year_token(ym@, y) ==> r == Ok::<Calendar, KoyomiError>(
                    Calendar { from: date_at(y, 1, 1), until: date_at(y, 12, 31) },
                ),
            forall|y: int, m: int|
                #[trigger] month_token(ym@, y, m) ==> r == Ok::<Calendar, KoyomiError>(
                    Calendar {
                        from: date_at(y, m, 1),
                        until: date_at(y, m, days_in_month(y, m)),
                    },
                ),
            count_char(ym@, '-') >= 2 ==> (r matches Err(e) && e matches
                KoyomiError::InvalidFormat(s) && s@ == ym@),
            has_letter(ym@) ==> (r matches Err(e) && e matches KoyomiError::InvalidFormat(_)),
    {
        let from = match resolve_start(ym) {
            Ok(d) => d,
            Err(e) => {
                return Err(e);
            },
        };
        let until = match resolve_end(ym) {
            Ok(d) => d,
            Err(e) => {
                return Err(e);
            },
        };
        proof {
            assert forall|y: int| year_token(ym@, y) implies from.index() < until.index() by {
                lemma_lex_index(y, 1, 1, y, 12, 31);
            }
            assert forall|y: int, m: int| month_token(ym@, y, m) implies from.index()
                < until.index() by {
                lemma_lex_index(y, m, 1, y, m, days_in_month(y, m));
            }
        }
        match Calendar::new(from, until) {
            Ok(c) => Ok(c),
            Err(_) => Err(KoyomiError::InvalidFormat(ym.to_owned())),
        }
    }
}

/// What a resolved from/until pair yields: the calendar when the range
/// runs forward, `InvalidTerm` otherwise.
pub open spec fn range_result(from: Date, until: Date) -> KoyomiResult<Calendar> {
    if from.index() < until.index() {
        Ok(Calendar { from, until })
    } else {
        Err(KoyomiError::InvalidTerm(from, until))
    }
}

/// Counts the hyphens in a token.
fn count_hyphens(t: &str) -> (r: usize)
    ensures
        r == count_char(t@, '-'),
{
    let len = t.unicode_len();
    let mut i: usize = 0;
    let mut n: usize = 0;
    while i < len
        invariant
            i <= len,
            len == t@.len(),
            n <= i,
            n == count_char(t@.take(i as int), '-'),
        decreases len - i,
    {
        let c = t.get_char(i);
        i = i + 1;
        if c == '-' {
            n = n + 1;
        }
        proof {
            assert(t@.take(i as int).take(i - 1) =~= t@.take(i - 1));
            assert(t@.take(i as int)[i - 1] == t@[i - 1]);
        }
    }
    proof {
        assert(t@.take(len as int) =~= t@);
    }
    n
}

/// Resolves a token to the first day of its span: `"Y"` to January 1,
/// `"Y-m"` to the first of the month.
fn resolve_start(t: &str) -> (r: KoyomiResult<Date>)
    ensures
        forall|y: int|
            #[trigger] year_token(t@, y) ==> r == Ok::<Date, KoyomiError>(date_at(y, 1, 1)),
        forall|y: int, m: int|
            #[trigger] month_token(t@, y, m) ==> r == Ok::<Date, KoyomiError>(date_at(y, m, 1)),
        count_char(t@, '-') >= 2 ==> (r matches Err(e) && e matches KoyomiError::InvalidFormat(s)
            && s@ == t@),
        has_letter(t@) ==> (r matches Err(e) && e matches KoyomiError::InvalidFormat(_)),
        r matches Err(e) ==> e matches KoyomiError::InvalidFormat(_),
        r matches Ok(d) ==> d.wf(),
{
    proof {
        lemma_token_hyphens();
    }
    let hyphens = count_hyphens(t);
    if hyphens == 0 {
        let mut s = t.to_owned();
        s.append("-01-01");
        proof {
            reveal_strlit("-01-01");
            assert forall|y: int| year_token(t@, y) implies s@ == date_canon(y, 1, 1, '-') by {
                lemma_dec_digits_len(y);
                assert(s@ =~= date_canon(y, 1, 1, '-'));
            }
            if has_letter(t@) {
                lemma_has_letter_concat(t@, "-01-01"@);
            }
        }
        Date::parse(s.as_str())
    } else if hyphens == 1 {
        let mut s = t.to_owned();
        s.append("-01");
        proof {
            reveal_strlit("-01");
            assert forall|y: int, m: int| month_token(t@, y, m) implies s@ == date_canon(
                y,
                m,
                1,
                '-',
            ) by {
                lemma_dec_digits_len(y);
                assert(s@ =~= date_canon(y, m, 1, '-'));
            }
            if has_letter(t@) {
                lemma_has_letter_concat(t@, "-01"@);
            }
        }
        Date::parse(s.as_str())
    } else {
        Err(KoyomiError::InvalidFormat(t.to_owned()))
    }
}

/// Resolves a token to the last day of its span: `"Y"` to December 31,
/// `"Y-m"` to the end of the month.
fn resolve_end(t: &str) -> (r: KoyomiResult<Date>)
    ensures
        forall|y: int|
            #[trigger] year_token(t@, y) ==> r == Ok::<Date, KoyomiError>(date_at(y, 12, 31)),
        forall|y: int, m: int|
            #[trigger] month_token(t@, y, m) ==> r == Ok::<Date, KoyomiError>(
                date_at(y, m, days_in_month(y, m)),
            ),
        count_char(t@, '-') >= 2 ==> (r matches Err(e) && e matches KoyomiError::InvalidFormat(s)
            && s@ == t@),
        has_letter(t@) ==> (r matches Err(e) && e matches KoyomiError::InvalidFormat(_)),
        r matches Err(e) ==> e matches KoyomiError::InvalidFormat(_),
        r matches Ok(d) ==> d.wf(),
{
    proof {
        lemma_token_hyphens();
    }
    let hyphens = count_hyphens(t);
    if hyphens == 0 {
        let mut s = t.to_owned();
        s.append("-12-31");
        proof {
            reveal_strlit("-12-31");
            assert forall|y: int| year_token(t@, y) implies s@ == date_canon(y, 12, 31, '-') by {
                lemma_dec_digits_len(y);
                reveal_with_fuel(dec_digits, 3);
                assert(dec_digits(12) =~= seq!['1', '2']);
                assert(dec_digits(31) =~= seq!['3', '1']);
                assert(s@ =~= date_canon(y, 12, 31, '-'));
            }
            if has_letter(t@) {
                lemma_has_letter_concat(t@, "-12-31"@);
            }
        }
        Date::parse(s.as_str())
    } else if hyphens == 1 {
        let mut s = t.to_owned();
        s.append("-01");
        proof {
            reveal_strlit("-01");
            assert forall|y: int, m: int| month_token(t@, y, m) implies s@ == date_canon(
                y,
                m,
                1,
                '-',
            ) by {
                lemma_dec_digits_len(y);
                assert(s@ =~= date_canon(y, m, 1, '-'));
            }
            if has_letter(t@) {
                lemma_has_letter_concat(t@, "-01"@);
            }
        }
        end_of_month(s.as_str())
    } else {
        Err(KoyomiError::InvalidFormat(t.to_owned()))
    }
}

/// Resolves a full date string to the last day of its month.
fn end_of_month(fmt: &str) -> (r: KoyomiResult<Date>)
    ensures
        forall|y: int, m: int, d: int|
            (wf_ymd(y, m, d) && fmt@ == #[trigger] date_canon(y, m, d, '-')) ==> r
                == Ok::<Date, KoyomiError>(date_at(y, m, days_in_month(y, m))),
        forall|y: int, m: int, d: int|
            (wf_ymd(y, m, d) && fmt@ == #[trigger] date_canon(y, m, d, '/')) ==> r
                == Ok::<Date, KoyomiError>(date_at(y, m, days_in_month(y, m))),
        has_letter(fmt@) ==> r is Err,
        r matches Ok(d) ==> d.wf() && d.day as int == days_in_month(
            d.year as int,
            d.month as int,
        ),
        r matches Err(e) ==> e matches KoyomiError::InvalidFormat(_),
{
    let first = match Date::parse(fmt) {
        Ok(d) => d,
        Err(e) => {
            return Err(e);
        },
    };
    let y = first.year();
    let m = first.month();
    let last = num_days(y, m);
    match Date::from_ymd(y, m, last) {
        Ok(d) => Ok(d),
        Err(_) => {
            proof {
                assert(false);
            }
            Err(KoyomiError::NotEnough)
        },
    }
}

/// Canonical year and year-month tokens carry zero and one hyphen.
proof fn lemma_token_hyphens()
    ensures
        forall|y: int| 0 <= y ==> #[trigger] count_char(dec_digits(y), '-') == 0,
        forall|y: int, m: int|
            0 <= y && 0 <= m ==> #[trigger] count_char(dec_digits(y) + seq!['-'] + pad2(m), '-')
                == 1,
{
    assert forall|y: int| 0 <= y implies #[trigger] count_char(dec_digits(y), '-') == 0 by {
        lemma_digits_no_hyphen(y);
    }
    assert forall|y: int, m: int| 0 <= y && 0 <= m implies #[trigger] count_char(
        dec_digits(y) + seq!['-'] + pad2(m),
        '-',
    ) == 1 by {
        lemma_digits_no_hyphen(y);
        lemma_pad2_no_hyphen(m);
        lemma_count_char_concat(dec_digits(y), seq!['-'], '-');
        lemma_count_char_concat(dec_digits(y) + seq!['-'], pad2(m), '-');
        let h = seq!['-'];
        assert(h.take(h.len() - 1) =~= Seq::<char>::empty());
        assert(count_char(Seq::<char>::empty(), '-') == 0);
        assert(count_char(h, '-') == count_char(h.take(h.len() - 1), '-') + 1);
    }
}

} // verus!
