//! Checks of each holiday rule on fixed dates.
use koyomi::{holiday, Date};

#[test]
fn holiday_new_years_day() {
    let name = "元日";

    let date = Date::from_ymd(1948, 1, 1).unwrap();
    assert_eq!(holiday(&date).unwrap(), name);

    let date = Date::from_ymd(1947, 1, 1).unwrap();
    assert!(holiday(&date).is_none());
}

#[test]
fn fixed_coming_of_age() {
    let name = "成人の日";

    let date = Date::from_ymd(1948, 1, 15).unwrap();
    assert_eq!(holiday(&date).unwrap(), name);

    let date = Date::from_ymd(1999, 1, 15).unwrap();
    assert_eq!(holiday(&date).unwrap(), name);

    let date = Date::from_ymd(1947, 1, 15).unwrap();
    assert!(holiday(&date).is_none());

    let date = Date::from_ymd(2000, 1, 15).unwrap();
    assert!(holiday(&date).is_none());
}

#[test]
fn variable_coming_of_age() {
    let name = "成人の日";

    let date = Date::from_ymd(2000, 1, 10).unwrap();
    assert_eq!(holiday(&date).unwrap(), name);

    let date = Date::from_ymd(1999, 1, 11).unwrap();
    assert!(holiday(&date).is_none());

    let date = Date::from_ymd(2018, 1, 9).unwrap();
    assert!(holiday(&date).is_none());

    let date = Date::from_ymd(2018, 3, 12).unwrap();
    assert!(holiday(&date).is_none());
}

#[test]
fn holiday_national_foundation_day() {
    let name = "建国記念日";

    let date = Date::from_ymd(1967, 2, 11).unwrap();
    assert_eq!(holiday(&date).unwrap(), name);

    let date = Date::from_ymd(1966, 2, 11).unwrap();
    assert!(holiday(&date).is_none());
}

#[test]
fn holiday_birthday_of_showa_emperor() {
    let name = "天皇誕生日";

    let date = Date::from_ymd(1948, 4, 29).unwrap();
    assert_eq!(holiday(&date).unwrap(), name);

    let date = Date::from_ymd(1988, 4, 29).unwrap();
    assert_eq!(holiday(&date).unwrap(), name);

    let date = Date::from_ymd(1947, 4, 29).unwrap();
    assert!(holiday(&date).is_none());
}

#[test]
fn holiday_green_day() {
    let name = "みどりの日";

    let date = Date::from_ymd(1989, 4, 29).unwrap();
    assert_eq!(holiday(&date).unwrap(), name);

    let date = Date::from_ymd(2006, 4, 29).unwrap();
    assert_eq!(holiday(&date).unwrap(), name);

    let date = Date::from_ymd(2007, 5, 4).unwrap();
    assert_eq!(holiday(&date).unwrap(), name);

    let date = Date::from_ymd(2006, 5, 4).unwrap();
    assert_ne!(holiday(&date).unwrap(), name);
}

#[test]
fn holiday_showa_day() {
    let name = "昭和の日";

    let date = Date::from_ymd(2007, 4, 29).unwrap();
    assert_eq!(holiday(&date).unwrap(), name);
}

#[test]
fn holiday_constitution_day() {
    let name = "憲法記念日";

    let date = Date::from_ymd(1948, 5, 3).unwrap();
    assert_eq!(holiday(&date).unwrap(), name);

    let date = Date::from_ymd(1947, 5, 3).unwrap();
    assert!(holiday(&date).is_none());
}

#[test]
fn holiday_childrens_day() {
    let name = "こどもの日";

    let date = Date::from_ymd(1948, 5, 5).unwrap();
    assert_eq!(holiday(&date).unwrap(), name);

    let date = Date::from_ymd(1947, 5, 5).unwrap();
    assert!(holiday(&date).is_none());
}

#[test]
fn fixed_marine_day() {
    let name = "海の日";

    let date = Date::from_ymd(1996, 7, 20).unwrap();
    assert_eq!(holiday(&date).unwrap(), name);

    let date = Date::from_ymd(2002, 7, 20).unwrap();
    assert_eq!(holiday(&date).unwrap(), name);

    let date = Date::from_ymd(1995, 7, 20).unwrap();
    assert!(holiday(&date).is_none());

    let date = Date::from_ymd(2003, 7, 20).unwrap();
    assert!(holiday(&date).is_none());
}

#[test]
fn variable_marine_day() {
    let name = "海の日";

    let date = Date::from_ymd(2003, 7, 21).unwrap();
    assert_eq!(holiday(&date).unwrap(), name);

    let date = Date::from_ymd(2002, 7, 15).unwrap();
    assert!(holiday(&date).is_none());

    let date = Date::from_ymd(2018, 7, 17).unwrap();
    assert!(holiday(&date).is_none());

    let date = Date::from_ymd(2018, 8, 20).unwrap();
    assert!(holiday(&date).is_none());
}

#[test]
fn holiday_mountain_day() {
    let name = "山の日";

    let date = Date::from_ymd(2016, 8, 11).unwrap();
    assert_eq!(holiday(&date).unwrap(), name);

    let date = Date::from_ymd(2015, 8, 11).unwrap();
    assert!(holiday(&date).is_none());
}

#[test]
fn fixed_respect_for_the_aged_day() {
    let name = "敬老の日";

    let date = Date::from_ymd(1966, 9, 15).unwrap();
    assert_eq!(holiday(&date).unwrap(), name);

    let date = Date::from_ymd(2002, 9, 15).unwrap();
    assert_eq!(holiday(&date).unwrap(), name);

    let date = Date::from_ymd(1965, 9, 15).unwrap();
    assert!(holiday(&date).is_none());

    let date = Date::from_ymd(2004, 9, 15).unwrap();
    assert!(holiday(&date).is_none());
}

#[test]
fn variable_respect_for_the_aged_day() {
    let name = "敬老の日";

    let date = Date::from_ymd(2003, 9, 15).unwrap();
    assert_eq!(holiday(&date).unwrap(), name);

    let date = Date::from_ymd(2002, 9, 16).unwrap();
    assert_ne!(holiday(&date).unwrap(), name);

    let date = Date::from_ymd(2018, 9, 18).unwrap();
    assert!(holiday(&date).is_none());

    let date = Date::from_ymd(2018, 6, 18).unwrap();
    assert!(holiday(&date).is_none());
}

#[test]
fn fixed_sports_day() {
    let name = "体育の日";

    let date = Date::from_ymd(1966, 10, 10).unwrap();
    assert_eq!(holiday(&date).unwrap(), name);

    let date = Date::from_ymd(1999, 10, 10).unwrap();
    assert_eq!(holiday(&date).unwrap(), name);

    let date = Date::from_ymd(1965, 10, 10).unwrap();
    assert!(holiday(&date).is_none());

    let date = Date::from_ymd(2000, 10, 10).unwrap();
    assert!(holiday(&date).is_none());
}

#[test]
fn variable_sports_day() {
    let name = "体育の日";

    let date = Date::from_ymd(2000, 10, 9).unwrap();
    assert_eq!(holiday(&date).unwrap(), name);

    let date = Date::from_ymd(1999, 10, 11).unwrap();
    assert_ne!(holiday(&date).unwrap(), name);

    let date = Date::from_ymd(2018, 10, 9).unwrap();
    assert!(holiday(&date).is_none());

    let date = Date::from_ymd(2018, 11, 12).unwrap();
    assert!(holiday(&date).is_none());
}

#[test]
fn holiday_culture_day() {
    let name = "文化の日";

    let date = Date::from_ymd(1948, 11, 3).unwrap();
    assert_eq!(holiday(&date).unwrap(), name);

    let date = Date::from_ymd(1947, 11, 3).unwrap();
    assert!(holiday(&date).is_none());
}

#[test]
fn holiday_labor_thanksgiving_day() {
    let name = "勤労感謝の日";

    let date = Date::from_ymd(1948, 11, 23).unwrap();
    assert_eq!(holiday(&date).unwrap(), name);

    let date = Date::from_ymd(1947, 11, 23).unwrap();
    assert!(holiday(&date).is_none());
}

#[test]
fn holiday_birthday_of_heisei_emperor() {
    let name = "天皇誕生日";

    let date = Date::from_ymd(1989, 12, 23).unwrap();
    assert_eq!(holiday(&date).unwrap(), name);

    let date = Date::from_ymd(1988, 12, 23).unwrap();
    assert!(holiday(&date).is_none());
}

#[test]
fn substitute_holiday() {
    let name = "振替休日";

    let date = Date::from_ymd(2018, 4, 30).unwrap();
    assert_eq!(holiday(&date).unwrap(), name);

    let date = Date::from_ymd(2018, 4, 23).unwrap();
    assert!(holiday(&date).is_none());
}

#[test]
fn vernal_equinox_day() {
    let name = "春分の日";

    let date = Date::from_ymd(2018, 3, 21).unwrap();
    assert_eq!(holiday(&date).unwrap(), name);

    let date = Date::from_ymd(2018, 2, 21).unwrap();
    assert!(holiday(&date).is_none());

    let date = Date::from_ymd(1899, 3, 20).unwrap();
    assert!(holiday(&date).is_none());

    let date = Date::from_ymd(2300, 3, 20).unwrap();
    assert!(holiday(&date).is_none());
}

#[test]
fn autumnal_equinox_day() {
    let name = "秋分の日";

    let date = Date::from_ymd(2018, 9, 23).unwrap();
    assert_eq!(holiday(&date).unwrap(), name);

    let date = Date::from_ymd(2018, 8, 23).unwrap();
    assert!(holiday(&date).is_none());

    let date = Date::from_ymd(1899, 9, 23).unwrap();
    assert!(holiday(&date).is_none());

    let date = Date::from_ymd(2300, 9, 23).unwrap();
    assert!(holiday(&date).is_none());
}

#[test]
fn national_holiday() {
    let name = "国民の休日";

    let date = Date::from_ymd(1988, 5, 4).unwrap();
    assert_eq!(holiday(&date).unwrap(), name);

    let date = Date::from_ymd(1986, 5, 4).unwrap();
    assert!(holiday(&date).is_none());

    let date = Date::from_ymd(1987, 5, 4).unwrap();
    assert_ne!(holiday(&date).unwrap(), name);
}
