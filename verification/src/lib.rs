//! A Japanese civil-calendar library: era lookup, national-holiday
//! determination, and calendar-range generation over Gregorian dates.
use vstd::prelude::*;

mod calendar;
mod date;
mod daymath;
mod era;
mod holiday;
mod text;

pub use calendar::Calendar;
pub use calendar::CalendarBuilder;
pub use calendar::is_leap;
pub use calendar::num_days;

pub use date::Date;
pub use date::Weekday;

pub use era::{era, Era};

pub use holiday::holiday;

verus! {

/// Crate-wide result type; failures carry a [`KoyomiError`].
pub type KoyomiResult<T> = Result<T, KoyomiError>;

/// The error variants of the crate.
#[derive(Debug)]
pub enum KoyomiError {
    /// The text does not denote a valid date.
    InvalidFormat(String),
    /// The calendar range is inverted or empty.
    InvalidTerm(Date, Date),
    /// Not enough information to build a calendar.
    NotEnough,
    /// The day after the given (year, month, day) is not representable.
    NoTomorrow(i32, u32, u32),
    /// The day before the given (year, month, day) is not representable.
    NoYesterday(i32, u32, u32),
}

} // verus!
