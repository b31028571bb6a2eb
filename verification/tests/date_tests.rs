use gradebook::date::{parse_date, Date};
use gradebook::models::DbError;

#[test]
fn parses_a_plain_date() {
    assert_eq!(parse_date("2024-09-01"), Ok(Date { year: 2024, month: 9, day: 1 }));
}

#[test]
fn parses_the_last_day_of_a_year() {
    assert_eq!(parse_date("2024-12-31"), Ok(Date { year: 2024, month: 12, day: 31 }));
}

#[test]
fn rejects_slash_separated_dates() {
    assert_eq!(parse_date("13/02/2024"), Err(DbError::ValidationError));
}

#[test]
fn accepts_leap_day_in_a_leap_year() {
    assert_eq!(parse_date("2024-02-29"), Ok(Date { year: 2024, month: 2, day: 29 }));
}

#[test]
fn rejects_leap_day_in_a_common_year() {
    assert_eq!(parse_date("2023-02-29"), Err(DbError::ValidationError));
}

#[test]
fn rejects_leap_day_in_a_century_year() {
    assert_eq!(parse_date("1900-02-29"), Err(DbError::ValidationError));
}

#[test]
fn accepts_leap_day_in_a_quadricentennial_year() {
    assert_eq!(parse_date("2000-02-29"), Ok(Date { year: 2000, month: 2, day: 29 }));
}

#[test]
fn rejects_day_beyond_month_end() {
    assert_eq!(parse_date("2024-04-31"), Err(DbError::ValidationError));
}

#[test]
fn rejects_month_thirteen() {
    assert_eq!(parse_date("2024-13-01"), Err(DbError::ValidationError));
}

#[test]
fn rejects_month_zero() {
    assert_eq!(parse_date("2024-00-10"), Err(DbError::ValidationError));
}

#[test]
fn rejects_day_zero() {
    assert_eq!(parse_date("2024-05-00"), Err(DbError::ValidationError));
}

#[test]
fn rejects_unpadded_fields() {
    assert_eq!(parse_date("2024-9-1"), Err(DbError::ValidationError));
}

#[test]
fn rejects_the_empty_string() {
    assert_eq!(parse_date(""), Err(DbError::ValidationError));
}

#[test]
fn rejects_trailing_characters() {
    assert_eq!(parse_date("2024-09-011"), Err(DbError::ValidationError));
}

#[test]
fn rejects_non_digit_year() {
    assert_eq!(parse_date("20x4-09-01"), Err(DbError::ValidationError));
}

#[test]
fn accepts_year_zero() {
    assert_eq!(parse_date("0000-01-01"), Ok(Date { year: 0, month: 1, day: 1 }));
}
