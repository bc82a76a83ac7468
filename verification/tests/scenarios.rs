//! End-to-end scenarios: well-known holiday clusters, calendar
//! lengths, day spans, and each error variant.
use koyomi::{holiday, Calendar, Date, KoyomiError};

#[test]
fn new_years_day_across_years() {
    for y in [1948, 1960, 1989, 2000, 2019, 2100, 9999] {
        let d = Date::from_ymd(y, 1, 1).unwrap();
        assert_eq!(holiday(&d).unwrap(), "元日");
    }
    let d = Date::from_ymd(1947, 1, 1).unwrap();
    assert_eq!(holiday(&d), None);
}

#[test]
fn foundation_day_shifts_to_monday() {
    let d = Date::from_ymd(2018, 2, 11).unwrap();
    assert_eq!(holiday(&d).unwrap(), "建国記念日");

    let d = Date::from_ymd(2018, 2, 12).unwrap();
    assert_eq!(holiday(&d).unwrap(), "振替休日");
}

#[test]
fn gap_day_before_new_reign() {
    let d = Date::from_ymd(2019, 4, 30).unwrap();
    assert_eq!(holiday(&d).unwrap(), "国民の休日");
}

#[test]
fn silver_week_gap_day() {
    let d = Date::from_ymd(2015, 9, 21).unwrap();
    assert_eq!(holiday(&d).unwrap(), "敬老の日");

    let d = Date::from_ymd(2015, 9, 22).unwrap();
    assert_eq!(holiday(&d).unwrap(), "国民の休日");

    let d = Date::from_ymd(2015, 9, 23).unwrap();
    assert_eq!(holiday(&d).unwrap(), "秋分の日");
}

#[test]
fn fixed_rule_wins_over_substitute() {
    // May 3, 2009 was a Sunday; May 4 is still Greenery Day, not a
    // substitute holiday.
    let d = Date::from_ymd(2009, 5, 4).unwrap();
    assert_eq!(holiday(&d).unwrap(), "みどりの日");
}

#[test]
fn calendar_length_leap_year() {
    let cal = Calendar::build().single("2016").finalize().unwrap().make();
    assert_eq!(cal.len(), 366);
}

#[test]
fn calendar_length_common_year() {
    let cal = Calendar::build().single("2018").finalize().unwrap().make();
    assert_eq!(cal.len(), 365);
}

#[test]
fn calendar_of_single_month() {
    let cal = Calendar::build().single("2016-02").finalize().unwrap();
    assert_eq!(cal.from(), "2016-02-01");
    assert_eq!(cal.until(), "2016-02-29");
    assert_eq!(cal.make().len(), 29);
}

#[test]
fn builder_range_across_years() {
    let cal = Calendar::build().from("2017").until("2018-04").finalize().unwrap();
    assert_eq!(cal.from(), "2017-01-01");
    assert_eq!(cal.until(), "2018-04-30");
}

#[test]
fn num_days_over_a_year() {
    let from = Date::from_ymd(2018, 1, 1).unwrap();
    let until = Date::from_ymd(2018, 12, 31).unwrap();
    assert_eq!(until.num_days(&from), 364);

    let from = Date::from_ymd(2016, 1, 1).unwrap();
    let until = Date::from_ymd(2016, 12, 31).unwrap();
    assert_eq!(until.num_days(&from), 365);
}

#[test]
fn error_invalid_format_from_parse() {
    match Date::parse("abc") {
        Err(KoyomiError::InvalidFormat(text)) => assert_eq!(text, "abc"),
        other => panic!("unexpected result: {:?}", other),
    }
}

#[test]
fn error_invalid_format_from_ymd() {
    assert!(matches!(
        Date::from_ymd(2018, 2, 30),
        Err(KoyomiError::InvalidFormat(_))
    ));
    assert!(matches!(
        Date::from_ymd(10000, 1, 1),
        Err(KoyomiError::InvalidFormat(_))
    ));
}

#[test]
fn error_invalid_term_on_inverted_range() {
    let from = Date::from_ymd(2018, 12, 31).unwrap();
    let until = Date::from_ymd(2018, 1, 1).unwrap();
    assert!(matches!(
        Calendar::new(from, until),
        Err(KoyomiError::InvalidTerm(_, _))
    ));
}

#[test]
fn error_inverted_range_from_builder() {
    assert!(matches!(
        Calendar::build().from("2018").until("2017").finalize(),
        Err(KoyomiError::InvalidTerm(_, _))
    ));
    assert!(matches!(
        Calendar::build().from("2018-12-31").until("2018-01-01").finalize(),
        Err(KoyomiError::InvalidFormat(_))
    ));
}

#[test]
fn error_not_enough_without_bounds() {
    assert!(matches!(
        Calendar::build().finalize(),
        Err(KoyomiError::NotEnough)
    ));
    assert!(matches!(
        Calendar::build().from("2018").finalize(),
        Err(KoyomiError::NotEnough)
    ));
    assert!(matches!(
        Calendar::build().until("2018").finalize(),
        Err(KoyomiError::NotEnough)
    ));
}

#[test]
fn error_no_tomorrow_and_no_yesterday() {
    let last = Date::from_ymd(9999, 12, 31).unwrap();
    assert!(matches!(last.tomorrow(), Err(KoyomiError::NoTomorrow(9999, 12, 31))));

    let first = Date::from_ymd(1, 1, 1).unwrap();
    assert!(matches!(first.yesterday(), Err(KoyomiError::NoYesterday(1, 1, 1))));
}

#[test]
fn calendar_days_are_consecutive() {
    let cal = Calendar::build().single("2019-02").finalize().unwrap().make();
    assert_eq!(cal.len(), 28);
    for pair in cal.windows(2) {
        assert_eq!(pair[1].num_days(&pair[0]), 1);
    }
}
