use blog_engine::date::PublishedDate;
use blog_engine::text::dec_string;
use blog_engine::values::{Day, Language, Month, Year};

fn date(year: u16, month: Month, day: u8) -> PublishedDate {
    PublishedDate::new(Year::new(year), month, Day::new(day).unwrap()).unwrap()
}

#[test]
fn english_date_format() {
    let d = date(2021, Month::May, 1);
    assert_eq!("May 1, 2021", d.to_string(&Language::English));
}

#[test]
fn french_date_format_lower_cases_the_month() {
    let d = date(2021, Month::February, 14);
    assert_eq!("14 février 2021", d.to_string(&Language::French));
}

#[test]
fn month_names_per_language() {
    assert_eq!("January", Month::January.to_str(&Language::English));
    assert_eq!("Août", Month::August.to_str(&Language::French));
    assert_eq!("December", Month::December.to_str(&Language::English));
    assert_eq!("Décembre", Month::December.to_str(&Language::French));
}

#[test]
fn calendar_validity_is_checked() {
    // leap year: 2020 has February 29th, 2021 does not
    assert!(PublishedDate::new(Year::new(2020), Month::February, Day::new(29).unwrap()).is_some());
    assert!(PublishedDate::new(Year::new(2021), Month::February, Day::new(29).unwrap()).is_none());
    // a century year is a leap year only every fourth century
    assert!(PublishedDate::new(Year::new(2000), Month::February, Day::new(29).unwrap()).is_some());
    assert!(PublishedDate::new(Year::new(1900), Month::February, Day::new(29).unwrap()).is_none());
    // thirty-day months
    assert!(PublishedDate::new(Year::new(2021), Month::April, Day::new(31).unwrap()).is_none());
    assert!(PublishedDate::new(Year::new(2021), Month::April, Day::new(30).unwrap()).is_some());
}

#[test]
fn date_accessors_return_the_parts() {
    let d = date(1999, Month::November, 30);
    assert_eq!(1999, d.year().value());
    assert_eq!(&Month::November, d.month());
    assert_eq!(30, d.day().value());
}

#[test]
fn decimal_rendering() {
    assert_eq!("0", dec_string(0));
    assert_eq!("7", dec_string(7));
    assert_eq!("10", dec_string(10));
    assert_eq!("1234", dec_string(1234));
    assert_eq!("18446744073709551615", dec_string(u64::MAX));
}

#[test]
fn chronological_order_of_dates() {
    let early = date(2021, Month::January, 10);
    let late = date(2021, Month::May, 1);
    assert!(early.le(&late));
    assert!(!late.le(&early));
    assert!(early.le(&early));
}
