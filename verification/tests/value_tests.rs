use blog_engine::values::{Day, HtmlPageIndex, Year};

#[test]
fn test_html_page_index_creation() {
    assert_eq!(10, HtmlPageIndex::new(10).value());
    assert_eq!(0, HtmlPageIndex::new(0).value());
}

#[test]
fn test_html_page_index_value() {
    assert_eq!(210, HtmlPageIndex::new(210).value());
    assert_eq!(0, HtmlPageIndex::new(0).value());
}

#[test]
fn test_year_creation() {
    assert_eq!(2020, Year::new(2020).value());
    assert_eq!(0, Year::new(0).value());
}

#[test]
fn test_year_value() {
    assert_eq!(2010, Year::new(2010).value());
    assert_eq!(0, Year::new(0).value());
}

#[test]
fn test_day_creation() {
    assert_eq!(1, Day::new(1).unwrap().value());
    assert_eq!(31, Day::new(31).unwrap().value());
    assert!(Day::new(0).is_none());
    assert!(Day::new(32).is_none());
}

#[test]
fn test_day_value() {
    assert_eq!(4, Day::new(4).unwrap().value());
    assert_eq!(25, Day::new(25).unwrap().value());
}

#[test]
fn day_new_accepts_exactly_one_through_thirty_one() {
    for d in 0..=255u8 {
        let r = Day::new(d);
        if (1..=31).contains(&d) {
            assert_eq!(d, r.unwrap().value());
        } else {
            assert!(r.is_none());
        }
    }
}
