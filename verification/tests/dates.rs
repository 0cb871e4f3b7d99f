use lims_ingest::dates::{
    normalize_flexible_date, normalize_numeric_date, normalize_text_date, DateValue,
};

fn milli(days: i64) -> i64 {
    days * 1000
}

#[test]
fn numeric_epoch_day_is_unix_epoch() {
    assert_eq!(
        normalize_numeric_date(milli(25569)),
        Some("1970-01-01T00:00:00".to_string())
    );
}

#[test]
fn numeric_day_after_epoch() {
    assert_eq!(
        normalize_numeric_date(milli(25570)),
        Some("1970-01-02T00:00:00".to_string())
    );
}

#[test]
fn numeric_before_epoch_is_none() {
    assert_eq!(normalize_numeric_date(milli(25568)), None);
    assert_eq!(normalize_numeric_date(milli(0)), None);
    assert_eq!(normalize_numeric_date(-5), None);
}

#[test]
fn numeric_known_day() {
    assert_eq!(
        normalize_numeric_date(milli(45000)),
        Some("2023-03-15T00:00:00".to_string())
    );
}

#[test]
fn numeric_fractional_day_keeps_time() {
    assert_eq!(
        normalize_numeric_date(45_000_500),
        Some("2023-03-15T12:00:00".to_string())
    );
}

#[test]
fn numeric_leap_day() {
    assert_eq!(
        normalize_numeric_date(milli(45351)),
        Some("2024-02-29T00:00:00".to_string())
    );
}

#[test]
fn numeric_last_supported_day() {
    assert_eq!(
        normalize_numeric_date(milli(2_958_465)),
        Some("9999-12-31T00:00:00".to_string())
    );
    assert_eq!(normalize_numeric_date(milli(2_958_466)), None);
}

#[test]
fn text_iso_date_normalizes_to_midnight() {
    assert_eq!(
        normalize_text_date("2024-02-29"),
        Some("2024-02-29T00:00:00".to_string())
    );
}

#[test]
fn text_iso_datetime_is_kept() {
    assert_eq!(
        normalize_text_date("2024-02-29T13:45:10"),
        Some("2024-02-29T13:45:10".to_string())
    );
}

#[test]
fn text_iso_datetime_with_designator() {
    assert_eq!(
        normalize_text_date("2024-02-29T13:45:10Z"),
        Some("2024-02-29T13:45:10".to_string())
    );
}

#[test]
fn text_dotted_day_first() {
    assert_eq!(
        normalize_text_date("15.03.2023"),
        Some("2023-03-15T00:00:00".to_string())
    );
}

#[test]
fn text_single_digit_day_and_month() {
    assert_eq!(
        normalize_text_date("1.2.2024"),
        Some("2024-02-01T00:00:00".to_string())
    );
    assert_eq!(
        normalize_text_date("1/2/2024"),
        Some("2024-02-01T00:00:00".to_string())
    );
    assert_eq!(
        normalize_text_date("15.3.2023"),
        Some("2023-03-15T00:00:00".to_string())
    );
    assert_eq!(
        normalize_text_date("2024-1-2"),
        Some("2024-01-02T00:00:00".to_string())
    );
    assert_eq!(
        normalize_text_date("2023/3/15"),
        Some("2023-03-15T00:00:00".to_string())
    );
}

#[test]
fn text_single_digit_datetime_components() {
    assert_eq!(
        normalize_text_date("2024-1-2T3:4:5"),
        Some("2024-01-02T03:04:05".to_string())
    );
    assert_eq!(
        normalize_text_date("2024-1-2T3:4:5Z"),
        Some("2024-01-02T03:04:05".to_string())
    );
}

#[test]
fn text_trims_unicode_whitespace() {
    assert_eq!(
        normalize_text_date("\u{a0}2024-02-29\u{2009}"),
        Some("2024-02-29T00:00:00".to_string())
    );
}

#[test]
fn text_slashed_day_first() {
    assert_eq!(
        normalize_text_date("15/03/2023"),
        Some("2023-03-15T00:00:00".to_string())
    );
}

#[test]
fn text_slashed_year_first() {
    assert_eq!(
        normalize_text_date("2023/03/15"),
        Some("2023-03-15T00:00:00".to_string())
    );
}

#[test]
fn text_ambiguous_day_first_wins() {
    // day/month before month/day: 01/02/2024 is the first of February
    assert_eq!(
        normalize_text_date("01/02/2024"),
        Some("2024-02-01T00:00:00".to_string())
    );
}

#[test]
fn text_blank_is_none() {
    assert_eq!(normalize_text_date(""), None);
    assert_eq!(normalize_text_date("   "), None);
    assert_eq!(normalize_text_date(" \t\n "), None);
}

#[test]
fn text_invalid_date_falls_through_verbatim() {
    // February the 30th exists in no year: not a recognized layout
    assert_eq!(
        normalize_text_date("2024-02-30"),
        Some("2024-02-30".to_string())
    );
}

#[test]
fn text_unrecognized_is_preserved_trimmed() {
    assert_eq!(
        normalize_text_date("  best before end  "),
        Some("best before end".to_string())
    );
}

#[test]
fn text_normalization_is_idempotent() {
    for input in [
        "2024-02-29",
        "15.03.2023",
        "1.2.2024",
        "2024-1-2",
        "2024-02-29T13:45:10Z",
        "  not a date  ",
        "31/12/1999",
    ] {
        let once = normalize_text_date(input).unwrap();
        let twice = normalize_text_date(&once).unwrap();
        assert_eq!(once, twice);
    }
}

#[test]
fn flexible_dispatches_by_shape() {
    assert_eq!(normalize_flexible_date(None), None);
    assert_eq!(
        normalize_flexible_date(Some(&DateValue::Numeric(milli(45000)))),
        Some("2023-03-15T00:00:00".to_string())
    );
    assert_eq!(
        normalize_flexible_date(Some(&DateValue::Text("15.03.2023".to_string()))),
        Some("2023-03-15T00:00:00".to_string())
    );
}
