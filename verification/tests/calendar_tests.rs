use xphoto::calendar::{iso_date, leap_year, month_days};

#[test]
fn dates_are_checked_and_written_with_four_digit_years() {
    assert_eq!(iso_date(2020, 2, 29), Some("2020-02-29".to_string()));
    assert_eq!(iso_date(2021, 2, 29), None);
    assert_eq!(iso_date(2021, 13, 1), None);
    assert_eq!(iso_date(2021, 4, 31), None);
    assert_eq!(iso_date(7, 1, 2), Some("0007-01-02".to_string()));
    assert_eq!(iso_date(12345, 1, 2), Some("+12345-01-02".to_string()));
    assert_eq!(iso_date(-5, 1, 2), Some("-0005-01-02".to_string()));
}

#[test]
fn leap_years_follow_the_gregorian_rule() {
    assert!(leap_year(2024));
    assert!(!leap_year(2023));
    assert!(!leap_year(1900));
    assert!(leap_year(2000));
    assert_eq!(month_days(2024, 2), 29);
    assert_eq!(month_days(2023, 2), 28);
    assert_eq!(month_days(2023, 12), 31);
    assert_eq!(month_days(2023, 11), 30);
}
