use hub::date::parse_date;
use hub::date::today;
use hub::date::CalendarDate;
use hub::date::BING_DATE_FORMAT;
use hub::date::DATE_FILE_FMT;
use hub::date::NASA_DATE_FORMAT;

fn day(year: i32, month: u32, day: u32) -> CalendarDate {
    CalendarDate { year, month, day }
}

#[test]
fn bing_date_is_read_and_written_back() {
    let date = parse_date("20240229", BING_DATE_FORMAT).unwrap();
    assert_eq!(date, day(2024, 2, 29));
    assert_eq!(date.iso_string(), "2024-02-29");
}

#[test]
fn nasa_date_is_read() {
    assert_eq!(parse_date("05 Sep 2015", NASA_DATE_FORMAT), Some(day(2015, 9, 5)));
}

#[test]
fn file_date_is_read() {
    assert_eq!(parse_date("2023-12-31", DATE_FILE_FMT), Some(day(2023, 12, 31)));
}

#[test]
fn a_day_that_does_not_exist_is_no_date() {
    assert_eq!(parse_date("20230230", BING_DATE_FORMAT), None);
    assert_eq!(parse_date("2023-13-01", DATE_FILE_FMT), None);
    assert_eq!(parse_date("", BING_DATE_FORMAT), None);
    assert_eq!(parse_date("not a date", NASA_DATE_FORMAT), None);
}

#[test]
fn iso_string_pads_month_and_day() {
    assert_eq!(day(2024, 1, 5).iso_string(), "2024-01-05");
    assert_eq!(day(987, 10, 31).iso_string(), "0987-10-31");
    assert_eq!(day(0, 1, 1).iso_string(), "0000-01-01");
}

#[test]
fn iso_string_signs_years_out_of_four_digits() {
    assert_eq!(day(12345, 6, 7).iso_string(), "+12345-06-07");
    assert_eq!(day(-5, 6, 7).iso_string(), "-0005-06-07");
    assert_eq!(day(-262143, 1, 1).iso_string(), "-262143-01-01");
}

#[test]
fn iso_string_is_what_chrono_writes() {
    for (y, m, d) in [(2024, 2, 29), (1, 1, 1), (0, 12, 31), (9999, 12, 31), (10000, 1, 1), (-1, 3, 4), (-12345, 11, 30)] {
        let written = chrono::NaiveDate::from_ymd_opt(y, m, d).unwrap().format("%F").to_string();
        assert_eq!(day(y, m, d).iso_string(), written);
    }
}

#[test]
fn is_before_orders_by_year_then_month_then_day() {
    assert!(day(2023, 12, 31).is_before(&day(2024, 1, 1)));
    assert!(day(2024, 1, 31).is_before(&day(2024, 2, 1)));
    assert!(day(2024, 2, 1).is_before(&day(2024, 2, 2)));
    assert!(!day(2024, 2, 2).is_before(&day(2024, 2, 2)));
    assert!(!day(2024, 2, 3).is_before(&day(2024, 2, 2)));
    assert!(!day(2025, 1, 1).is_before(&day(2024, 12, 31)));
}

#[test]
fn same_day_compares_all_fields() {
    assert!(day(2024, 2, 2).same_day(&day(2024, 2, 2)));
    assert!(!day(2024, 2, 2).same_day(&day(2024, 2, 3)));
    assert!(!day(2024, 2, 2).same_day(&day(2024, 3, 2)));
    assert!(!day(2024, 2, 2).same_day(&day(2023, 2, 2)));
}

#[test]
fn today_is_a_day_of_the_calendar() {
    let now = today();
    assert!(1 <= now.month && now.month <= 12);
    assert!(1 <= now.day && now.day <= 31);
    assert_eq!(parse_date(&now.iso_string(), DATE_FILE_FMT), Some(now));
}

#[test]
fn a_date_reads_back_from_its_iso_string() {
    for date in [day(2024, 2, 29), day(1, 1, 1), day(0, 12, 31), day(9999, 12, 31), day(10000, 1, 1), day(-1, 3, 4), day(262142, 12, 31), day(-262143, 1, 1)] {
        assert_eq!(parse_date(&date.iso_string(), DATE_FILE_FMT), Some(date));
    }
}
