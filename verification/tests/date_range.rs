use automated_invoice_uploader::date_range::{days_in_month, is_leap_year, Date, DateRange, DateRangeError};

#[test]
fn parses_valid_date_range() {
    let range = DateRange::parse("2026-05-01", "2026-05-31").unwrap();

    assert_eq!(range.initial_date(), "2026-05-01");
    assert_eq!(range.final_date(), "2026-05-31");
    assert_eq!(range.gmail_after_date(), "2026/05/01");
    assert_eq!(range.gmail_before_date(), "2026/06/01");
}

#[test]
fn rejects_invalid_dates() {
    assert_eq!(DateRange::parse("2026-02-30", "2026-03-01"), Err(DateRangeError::InvalidInitialDate));
    assert_eq!(DateRange::parse("2026-02-01", "2026-02-30"), Err(DateRangeError::InvalidFinalDate));
}

#[test]
fn supports_leap_years() {
    let range = DateRange::parse("2024-02-01", "2024-02-29").unwrap();

    assert_eq!(range.gmail_before_date(), "2024/03/01");
}

#[test]
fn rejects_reversed_range() {
    assert_eq!(DateRange::parse("2026-05-31", "2026-05-01"), Err(DateRangeError::InitialAfterFinal));
}

#[test]
fn a_single_day_range_ends_the_next_day() {
    let range = DateRange::parse("2025-12-31", "2025-12-31").unwrap();
    assert_eq!(range.gmail_after_date(), "2025/12/31");
    assert_eq!(range.gmail_before_date(), "2026/01/01");
}

#[test]
fn rejects_badly_written_dates() {
    assert_eq!(DateRange::parse("2026-5-01", "2026-05-31"), Err(DateRangeError::InvalidInitialDate));
    assert_eq!(DateRange::parse("2026-05-01", "2026/05/31"), Err(DateRangeError::InvalidFinalDate));
    assert_eq!(DateRange::parse("0000-05-01", "2026-05-31"), Err(DateRangeError::InvalidInitialDate));
    assert_eq!(DateRange::parse("2026-13-01", "2026-05-31"), Err(DateRangeError::InvalidInitialDate));
    assert_eq!(DateRange::parse("2023-02-29", "2023-03-01"), Err(DateRangeError::InvalidInitialDate));
}

#[test]
fn the_initial_date_is_checked_first() {
    assert_eq!(DateRange::parse("bad", "also bad"), Err(DateRangeError::InvalidInitialDate));
}

#[test]
fn leap_years_follow_the_gregorian_rule() {
    assert!(is_leap_year(2024));
    assert!(!is_leap_year(2023));
    assert!(!is_leap_year(1900));
    assert!(is_leap_year(2000));
    assert_eq!(days_in_month(2024, 2), Some(29));
    assert_eq!(days_in_month(2023, 2), Some(28));
    assert_eq!(days_in_month(2023, 4), Some(30));
    assert_eq!(days_in_month(2023, 13), None);
}

#[test]
fn the_day_after_rolls_over_months_and_years() {
    let d = Date::parse("2024-02-29").unwrap();
    assert_eq!(d.next_day(), Date { year: 2024, month: 3, day: 1 });
    let d = Date::parse("2025-12-31").unwrap();
    assert_eq!(d.next_day(), Date { year: 2026, month: 1, day: 1 });
    assert_eq!(d.next_day().to_iso_string(), "2026-01-01");
    assert_eq!(d.to_gmail_string(), "2025/12/31");
}

#[test]
fn range_error_messages() {
    assert_eq!(DateRangeError::InvalidInitialDate.message(), "Initial date must use a valid YYYY-MM-DD value.");
    assert_eq!(DateRangeError::InvalidFinalDate.message(), "Final date must use a valid YYYY-MM-DD value.");
    assert_eq!(DateRangeError::InitialAfterFinal.message(), "Initial date must be before or equal to final date.");
}

#[test]
fn a_sign_in_any_date_field_is_refused() {
    assert_eq!(DateRange::parse("2026-+5-01", "2026-05-31"), Err(DateRangeError::InvalidInitialDate));
    assert_eq!(DateRange::parse("+026-05-01", "2026-05-31"), Err(DateRangeError::InvalidInitialDate));
    assert_eq!(DateRange::parse("2026-05-+1", "2026-05-31"), Err(DateRangeError::InvalidInitialDate));
    assert_eq!(DateRange::parse("2026-05-01", "2026-05-+3"), Err(DateRangeError::InvalidFinalDate));
    assert_eq!(Date::parse("2026-+5-01"), None);
}

#[test]
fn a_parsed_date_prints_back_as_its_text() {
    for text in ["2026-05-01", "0001-01-01", "2024-02-29", "9999-12-31"] {
        assert_eq!(Date::parse(text).unwrap().to_iso_string(), text);
    }
}
