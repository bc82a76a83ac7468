//! Checks of the fixed-date holiday table, entry by entry, including
//! the spans that ended and the day the name moved to another date.
use koyomi::{holiday, Date};

#[test]
fn new_year_day() {
    let name = "元日";

    let d = Date::parse("1948-01-01").unwrap();
    assert_eq!(holiday(&d), Some(name.into()));

    let d = Date::parse("1947-01-01").unwrap();
    assert_eq!(holiday(&d), None);
}

#[test]
fn coming_of_age() {
    let name = "成人の日";

    let d = Date::parse("1948-01-15").unwrap();
    assert_eq!(holiday(&d), Some(name.into()));

    let d = Date::parse("1999-01-15").unwrap();
    assert_eq!(holiday(&d), Some(name.into()));

    let d = Date::parse("1947-01-15").unwrap();
    assert_eq!(holiday(&d), None);

    let d = Date::parse("2000-01-15").unwrap();
    assert_eq!(holiday(&d), None);
}

#[test]
fn national_foundation() {
    let name = "建国記念日";

    let d = Date::parse("1967-02-11").unwrap();
    assert_eq!(holiday(&d), Some(name.into()));

    let d = Date::parse("1966-02-11").unwrap();
    assert_eq!(holiday(&d), None);
}

#[test]
fn emperor_birthday() {
    let name = "天皇誕生日";

    let d = Date::parse("1948-04-29").unwrap();
    assert_eq!(holiday(&d), Some(name.into()));

    let d = Date::parse("1988-04-29").unwrap();
    assert_eq!(holiday(&d), Some(name.into()));

    let d = Date::parse("1947-04-29").unwrap();
    assert_eq!(holiday(&d), None);

    let d = Date::parse("1989-04-29").unwrap();
    assert!(holiday(&d).unwrap() != name);

    let d = Date::parse("1989-12-23").unwrap();
    assert_eq!(holiday(&d), Some(name.into()));

    let d = Date::parse("2019-12-23").unwrap();
    assert_eq!(holiday(&d), None);

    let d = Date::parse("1988-12-23").unwrap();
    assert_eq!(holiday(&d), None);

    let d = Date::parse("2020-12-23").unwrap();
    assert_eq!(holiday(&d), None);
}

#[test]
fn definition_showa_day() {
    let name = "昭和の日";

    let d = Date::parse("2007-04-29").unwrap();
    assert_eq!(holiday(&d), Some(name.into()));

    let d = Date::parse("2006-04-29").unwrap();
    assert!(holiday(&d).unwrap() != name);
}

#[test]
fn definition_constitution_day() {
    let name = "憲法記念日";

    let d = Date::parse("1948-05-03").unwrap();
    assert_eq!(holiday(&d), Some(name.into()));

    let d = Date::parse("1947-05-03").unwrap();
    assert_eq!(holiday(&d), None);
}

#[test]
fn children_day() {
    let name = "こどもの日";

    let d = Date::parse("1948-05-05").unwrap();
    assert_eq!(holiday(&d), Some(name.into()));

    let d = Date::parse("1947-05-05").unwrap();
    assert_eq!(holiday(&d), None);
}

#[test]
fn definition_marine_day() {
    let name = "海の日";

    let d = Date::parse("1996-07-20").unwrap();
    assert_eq!(holiday(&d), Some(name.into()));

    let d = Date::parse("2002-07-20").unwrap();
    assert_eq!(holiday(&d), Some(name.into()));

    let d = Date::parse("1995-07-20").unwrap();
    assert_eq!(holiday(&d), None);

    let d = Date::parse("2003-07-20").unwrap();
    assert_eq!(holiday(&d), None);
}

#[test]
fn definition_mountain_day() {
    let name = "山の日";

    let d = Date::parse("2016-08-11").unwrap();
    assert_eq!(holiday(&d), Some(name.into()));

    let d = Date::parse("2015-08-11").unwrap();
    assert_eq!(holiday(&d), None);
}

#[test]
fn definition_sports_day() {
    let name = "体育の日";

    let d = Date::parse("1966-10-10").unwrap();
    assert_eq!(holiday(&d), Some(name.into()));

    let d = Date::parse("1999-10-10").unwrap();
    assert_eq!(holiday(&d), Some(name.into()));

    let d = Date::parse("1965-10-10").unwrap();
    assert_eq!(holiday(&d), None);

    let d = Date::parse("2000-10-10").unwrap();
    assert_eq!(holiday(&d), None);
}

#[test]
fn definition_culture_day() {
    let name = "文化の日";

    let d = Date::parse("1948-11-03").unwrap();
    assert_eq!(holiday(&d), Some(name.into()));

    let d = Date::parse("1947-11-03").unwrap();
    assert_eq!(holiday(&d), None);
}

#[test]
fn definition_labor_thanksgiving_day() {
    let name = "勤労感謝の日";

    let d = Date::parse("1948-11-23").unwrap();
    assert_eq!(holiday(&d), Some(name.into()));

    let d = Date::parse("1947-11-23").unwrap();
    assert_eq!(holiday(&d), None);
}

#[test]
fn substitude_holiday() {
    let d = Date::parse("2018-04-30").unwrap();
    assert_eq!(holiday(&d), Some("振替休日".into()));
}
