//! Checks of era lookup, era-relative years, and their rendering.
use koyomi::{era, Date};

#[test]
fn era_name_meiji() {
    let date = Date::parse("1868-01-25").unwrap();
    assert_eq!(era(&date).unwrap().name(), "明治");

    let date = Date::parse("1912-07-29").unwrap();
    assert_eq!(era(&date).unwrap().name(), "明治");
}

#[test]
fn era_year_meiji() {
    let date = Date::parse("1868-01-25").unwrap();
    assert_eq!(era(&date).unwrap().year(), 1);

    let date = Date::parse("1912-07-29").unwrap();
    assert_eq!(era(&date).unwrap().year(), 45);
}

#[test]
fn era_format_meiji() {
    let date = Date::parse("1868-01-25").unwrap();
    assert_eq!(era(&date).unwrap().format(), "明治元年");

    let date = Date::parse("1912-07-29").unwrap();
    assert_eq!(era(&date).unwrap().format(), "明治45年");
}

#[test]
fn era_name_taisho() {
    let date = Date::parse("1912-07-30").unwrap();
    assert_eq!(era(&date).unwrap().name(), "大正");

    let date = Date::parse("1926-12-24").unwrap();
    assert_eq!(era(&date).unwrap().name(), "大正");
}

#[test]
fn era_year_taisho() {
    let date = Date::parse("1912-07-30").unwrap();
    assert_eq!(era(&date).unwrap().year(), 1);

    let date = Date::parse("1926-12-24").unwrap();
    assert_eq!(era(&date).unwrap().year(), 15);
}

#[test]
fn era_format_taisho() {
    let date = Date::parse("1912-07-30").unwrap();
    assert_eq!(era(&date).unwrap().format(), "大正元年");

    let date = Date::parse("1926-12-24").unwrap();
    assert_eq!(era(&date).unwrap().format(), "大正15年");
}

#[test]
fn era_name_showa() {
    let date = Date::parse("1926-12-25").unwrap();
    assert_eq!(era(&date).unwrap().name(), "昭和");

    let date = Date::parse("1989-01-07").unwrap();
    assert_eq!(era(&date).unwrap().name(), "昭和");
}

#[test]
fn era_year_showa() {
    let date = Date::parse("1926-12-25").unwrap();
    assert_eq!(era(&date).unwrap().year(), 1);

    let date = Date::parse("1989-01-07").unwrap();
    assert_eq!(era(&date).unwrap().year(), 64);
}

#[test]
fn era_format_showa() {
    let date = Date::parse("1926-12-25").unwrap();
    assert_eq!(era(&date).unwrap().format(), "昭和元年");

    let date = Date::parse("1989-01-07").unwrap();
    assert_eq!(era(&date).unwrap().format(), "昭和64年");
}

#[test]
fn era_name_heisei() {
    let date = Date::parse("1989-01-08").unwrap();
    assert_eq!(era(&date).unwrap().name(), "平成");

    let date = Date::parse("2018-04-01").unwrap();
    assert_eq!(era(&date).unwrap().name(), "平成");
}

#[test]
fn era_year_heisei() {
    let date = Date::parse("1989-01-08").unwrap();
    assert_eq!(era(&date).unwrap().year(), 1);

    let date = Date::parse("2018-04-01").unwrap();
    assert_eq!(era(&date).unwrap().year(), 30);
}

#[test]
fn era_format_heisei() {
    let date = Date::parse("1989-01-08").unwrap();
    assert_eq!(era(&date).unwrap().format(), "平成元年");

    let date = Date::parse("2018-04-01").unwrap();
    assert_eq!(era(&date).unwrap().format(), "平成30年");
}

#[test]
fn era_unknonw() {
    let date = Date::parse("1868-01-24").unwrap();
    assert!(era(&date).is_none());
}

#[test]
fn era_boundary_showa_heisei() {
    let date = Date::from_ymd(1989, 1, 7).unwrap();
    assert_eq!(era(&date).unwrap().name(), "昭和");

    let date = Date::from_ymd(1989, 1, 8).unwrap();
    assert_eq!(era(&date).unwrap().name(), "平成");
}

#[test]
fn era_format_stable_across_calls() {
    let date = Date::from_ymd(2018, 6, 15).unwrap();
    let first = era(&date).unwrap().format();
    let second = era(&date).unwrap().format();
    assert_eq!(first, second);
    assert_eq!(first, "平成30年");
}
