use forg::dates::{date_folder, CalendarDate, DateFormat};

fn day(year: i32, month: u32, day: u32) -> CalendarDate {
    CalendarDate { year, month, day }
}

#[test]
fn a_date_falls_into_the_folder_of_its_day_month_or_year() {
    let d = day(2024, 3, 15);
    assert_eq!(date_folder(d, DateFormat::Day), Some("2024-03-15".to_string()));
    assert_eq!(date_folder(d, DateFormat::Month), Some("2024-03".to_string()));
    assert_eq!(date_folder(d, DateFormat::Year), Some("2024".to_string()));
}

#[test]
fn months_and_days_take_two_digits() {
    assert_eq!(date_folder(day(1999, 12, 31), DateFormat::Day), Some("1999-12-31".to_string()));
    assert_eq!(date_folder(day(2001, 1, 1), DateFormat::Day), Some("2001-01-01".to_string()));
    assert_eq!(date_folder(day(2001, 10, 9), DateFormat::Month), Some("2001-10".to_string()));
}

#[test]
fn years_take_four_digits_and_a_sign_beyond_them() {
    assert_eq!(date_folder(day(987, 6, 5), DateFormat::Day), Some("0987-06-05".to_string()));
    assert_eq!(date_folder(day(0, 1, 1), DateFormat::Year), Some("0000".to_string()));
    assert_eq!(date_folder(day(9999, 1, 1), DateFormat::Year), Some("9999".to_string()));
    assert_eq!(date_folder(day(10000, 1, 1), DateFormat::Year), Some("+10000".to_string()));
    assert_eq!(date_folder(day(-1, 1, 1), DateFormat::Year), Some("-0001".to_string()));
    assert_eq!(date_folder(day(-12345, 2, 3), DateFormat::Day), Some("-12345-02-03".to_string()));
    assert_eq!(date_folder(day(262142, 12, 31), DateFormat::Month), Some("+262142-12".to_string()));
    assert_eq!(date_folder(day(-262143, 1, 1), DateFormat::Year), Some("-262143".to_string()));
}

#[test]
fn days_that_the_calendar_lacks_have_no_folder() {
    assert_eq!(date_folder(day(2023, 2, 29), DateFormat::Day), None);
    assert_eq!(date_folder(day(2023, 4, 31), DateFormat::Day), None);
    assert_eq!(date_folder(day(2023, 0, 1), DateFormat::Year), None);
    assert_eq!(date_folder(day(2023, 13, 1), DateFormat::Year), None);
    assert_eq!(date_folder(day(2023, 1, 0), DateFormat::Month), None);
    assert_eq!(date_folder(day(2023, 1, 32), DateFormat::Month), None);
    assert_eq!(date_folder(day(262143, 1, 1), DateFormat::Year), None);
    assert_eq!(date_folder(day(-262144, 1, 1), DateFormat::Year), None);
}

#[test]
fn leap_years_follow_the_gregorian_rule() {
    assert!(date_folder(day(2024, 2, 29), DateFormat::Day).is_some());
    assert!(date_folder(day(2000, 2, 29), DateFormat::Day).is_some());
    assert!(date_folder(day(1900, 2, 29), DateFormat::Day).is_none());
    assert!(date_folder(day(2100, 2, 29), DateFormat::Day).is_none());
    assert!(date_folder(day(-4, 2, 29), DateFormat::Day).is_some());
    assert!(date_folder(day(-100, 2, 29), DateFormat::Day).is_none());
    assert!(date_folder(day(-400, 2, 29), DateFormat::Day).is_some());
    assert!(date_folder(day(2023, 2, 28), DateFormat::Day).is_some());
}

#[test]
fn every_month_has_its_number_of_days() {
    let lengths = [31, 28, 31, 30, 31, 30, 31, 31, 30, 31, 30, 31];
    for (index, length) in lengths.iter().enumerate() {
        let month = index as u32 + 1;
        assert!(date_folder(day(2023, month, *length), DateFormat::Day).is_some());
        assert!(date_folder(day(2023, month, *length + 1), DateFormat::Day).is_none());
    }
}

#[test]
fn selectors_are_read_exactly() {
    assert_eq!(DateFormat::parse("year"), Some(DateFormat::Year));
    assert_eq!(DateFormat::parse("month"), Some(DateFormat::Month));
    assert_eq!(DateFormat::parse("day"), Some(DateFormat::Day));
    assert_eq!(DateFormat::parse("Day"), None);
    assert_eq!(DateFormat::parse("week"), None);
    assert_eq!(DateFormat::parse(""), None);
    assert_eq!(DateFormat::parse("days"), None);
    assert_eq!(DateFormat::parse("%Y"), None);
}

#[test]
fn each_format_has_its_pattern() {
    assert_eq!(DateFormat::Year.pattern(), "%Y");
    assert_eq!(DateFormat::Month.pattern(), "%Y-%m");
    assert_eq!(DateFormat::Day.pattern(), "%Y-%m-%d");
}
