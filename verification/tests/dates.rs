use chrono::Datelike;
use intent_router::dates::{resolve_date_range, resolve_relative_date, today_date};

fn format_date(date: chrono::NaiveDate) -> String {
    date.format("%Y-%m-%d").to_string()
}

#[test]
fn test_resolve_date_today() {
    let resolved = resolve_relative_date("today");
    let expected = chrono::Local::now().date_naive().format("%Y-%m-%d").to_string();
    assert_eq!(resolved, expected);
}

#[test]
fn test_resolve_date_tomorrow() {
    let resolved = resolve_relative_date("tomorrow");
    let expected = (chrono::Local::now().date_naive() + chrono::Days::new(1))
        .format("%Y-%m-%d")
        .to_string();
    assert_eq!(resolved, expected);
}

#[test]
fn test_resolve_date_yesterday() {
    let resolved = resolve_relative_date("yesterday");
    let expected = (chrono::Local::now().date_naive() - chrono::Days::new(1))
        .format("%Y-%m-%d")
        .to_string();
    assert_eq!(resolved, expected);
}

#[test]
fn test_resolve_date_weekday() {
    let resolved = resolve_relative_date("friday");
    assert!(resolved.len() == 10);
    assert!(resolved.starts_with("20"));
}

#[test]
fn test_resolve_date_next_weekday() {
    let resolved = resolve_relative_date("next monday");
    assert!(resolved.len() == 10);
    let parsed = chrono::NaiveDate::parse_from_str(&resolved, "%Y-%m-%d").unwrap();
    assert_eq!(parsed.weekday(), chrono::Weekday::Mon);
}

#[test]
fn test_resolve_date_passthrough() {
    assert_eq!(resolve_relative_date("2026-01-25"), "2026-01-25");
    assert_eq!(resolve_relative_date("January 15"), "January 15");
}

#[test]
fn test_resolve_date_case_insensitive() {
    let lower = resolve_relative_date("today");
    let upper = resolve_relative_date("TODAY");
    let mixed = resolve_relative_date("ToDay");
    assert_eq!(lower, upper);
    assert_eq!(lower, mixed);
}

#[test]
fn test_resolve_date_range_next_week() {
    let (start, end) = resolve_date_range("next week");
    let today = chrono::Local::now().date_naive();
    let expected_start = format_date(today);
    let expected_end = format_date(today + chrono::Days::new(6));
    assert_eq!(start, expected_start);
    assert_eq!(end, Some(expected_end));
}

#[test]
fn test_resolve_date_range_next_n_days() {
    let (start, end) = resolve_date_range("next 5 days");
    let today = chrono::Local::now().date_naive();
    let expected_start = format_date(today);
    let expected_end = format_date(today + chrono::Days::new(4));
    assert_eq!(start, expected_start);
    assert_eq!(end, Some(expected_end));
}

#[test]
fn test_resolve_date_range_this_weekend() {
    let (start, end) = resolve_date_range("this weekend");
    assert!(start.len() == 10);
    assert!(end.is_some());
    let end = end.unwrap();
    assert!(end.len() == 10);
    let start_date = chrono::NaiveDate::parse_from_str(&start, "%Y-%m-%d").unwrap();
    let end_date = chrono::NaiveDate::parse_from_str(&end, "%Y-%m-%d").unwrap();
    assert_eq!(start_date.weekday(), chrono::Weekday::Sat);
    assert_eq!(end_date.weekday(), chrono::Weekday::Sun);
}

#[test]
fn test_resolve_date_range_single_date() {
    let (start, end) = resolve_date_range("tomorrow");
    let expected = resolve_relative_date("tomorrow");
    assert_eq!(start, expected);
    assert_eq!(end, None);
}

#[test]
fn test_today_date_matches_clock() {
    let expected = chrono::Local::now().date_naive().format("%Y-%m-%d").to_string();
    assert_eq!(today_date(), expected);
}

#[test]
fn test_resolve_range_forecast_default() {
    let (start, end) = resolve_date_range("forecast");
    let today = chrono::Local::now().date_naive();
    assert_eq!(start, format_date(today));
    assert_eq!(end, Some(format_date(today + chrono::Days::new(6))));
}

#[test]
fn test_resolve_range_forecast_not_bare_is_single() {
    let (start, end) = resolve_date_range("forecast for Seattle");
    assert_eq!(start, "forecast for Seattle");
    assert_eq!(end, None);
}
