use suzaku::time::UtcTime;
use suzaku::timefilter::{filter_by_time, parse_offset, OffsetBound, TimeBound, TimeOption, TimeWindow};

fn value(text: &str) -> serde_json::Value {
    serde_json::from_str(text).unwrap()
}

fn range(start: &str, end: &str) -> TimeOption {
    TimeOption {
        timeline_start: Some(start.to_string()),
        timeline_end: Some(end.to_string()),
        time_offset: None,
    }
}

#[test]
fn test_filter_by_time_within_range() {
    let opt = range("2024-08-18T12:00:00Z", "2024-08-18T14:00:00Z");
    let value = value(r#"{ "eventTime": "2024-08-18T13:00:00Z" }"#);
    assert!(filter_by_time(&opt, &value, "eventTime"));
}

#[test]
fn test_filter_by_time_outside_range() {
    let opt = range("2024-08-18T12:00:00Z", "2024-08-18T14:00:00Z");
    let value = value(r#"{ "eventTime": "2024-08-18T15:00:00Z" }"#);
    assert!(!filter_by_time(&opt, &value, "eventTime"));
}

#[test]
fn test_filter_by_time_with_offset() {
    let opt = TimeOption {
        timeline_start: None,
        timeline_end: None,
        time_offset: Some("1h".to_string()),
    };
    let t = (chrono::Utc::now() - chrono::Duration::minutes(30)).to_rfc3339();
    let value = value(&format!(r#"{{ "eventTime": "{t}" }}"#));
    assert!(filter_by_time(&opt, &value, "eventTime"));
}

#[test]
fn test_filter_by_time_with_invalid_event_time() {
    let opt = range("2024-08-18T12:00:00Z", "2024-08-18T14:00:00Z");
    let value = value(r#"{ "eventTime": "invalid-date" }"#);
    assert!(!filter_by_time(&opt, &value, "eventTime"));
}

#[test]
fn boundaries_are_inclusive() {
    let opt = range("2024-08-18T12:00:00Z", "2024-08-18T14:00:00Z");
    assert!(filter_by_time(&opt, &value(r#"{ "eventTime": "2024-08-18T12:00:00Z" }"#), "eventTime"));
    assert!(filter_by_time(&opt, &value(r#"{ "eventTime": "2024-08-18T14:00:00Z" }"#), "eventTime"));
    assert!(!filter_by_time(&opt, &value(r#"{ "eventTime": "2024-08-18T14:00:00.001Z" }"#), "eventTime"));
    assert!(!filter_by_time(&opt, &value(r#"{ "eventTime": "2024-08-18T11:59:59Z" }"#), "eventTime"));
}

#[test]
fn no_filter_passes_everything() {
    let opt = TimeOption { timeline_start: None, timeline_end: None, time_offset: None };
    assert!(filter_by_time(&opt, &value(r#"{ "other": 1 }"#), "eventTime"));
    assert!(filter_by_time(&opt, &value(r#"{ "eventTime": "garbage" }"#), "eventTime"));
}

#[test]
fn unparsable_bound_rejects_every_record() {
    let opt = range("yesterday", "2024-08-18T14:00:00Z");
    assert!(!filter_by_time(&opt, &value(r#"{ "eventTime": "2024-08-18T13:00:00Z" }"#), "eventTime"));
    let w = TimeWindow::from_option(&opt);
    assert_eq!(w.start, TimeBound::Invalid);
}

#[test]
fn azure_time_field_is_read() {
    let opt = range("2024-08-18T12:00:00Z", "2024-08-18T14:00:00Z");
    assert!(filter_by_time(&opt, &value(r#"{ "time": "2024-08-18T13:30:00Z" }"#), "time"));
    assert!(!filter_by_time(&opt, &value(r#"{ "time": "2024-08-18T13:30:00Z" }"#), "eventTime"));
}

#[test]
fn offsets_parse_to_seconds() {
    assert_eq!(parse_offset("1y"), Some(365 * 86400));
    assert_eq!(parse_offset("3M"), Some(3 * 30 * 86400));
    assert_eq!(parse_offset("30d"), Some(30 * 86400));
    assert_eq!(parse_offset(" 24h "), Some(24 * 3600));
    assert_eq!(parse_offset("30m"), Some(1800));
    assert_eq!(parse_offset("30x"), None);
    assert_eq!(parse_offset("h"), None);
    assert_eq!(parse_offset(""), None);
    assert_eq!(parse_offset("99999999999999999y"), None);
}

#[test]
fn offset_window_uses_given_now() {
    let w = TimeWindow {
        start: TimeBound::Unset,
        end: TimeBound::Unset,
        offset: OffsetBound::Secs(3600),
    };
    let now = UtcTime { secs: 10_000, nanos: 0 };
    assert!(w.passes(Some(UtcTime { secs: 6_400, nanos: 0 }), now));
    assert!(!w.passes(Some(UtcTime { secs: 6_399, nanos: 999_999_999 }), now));
    assert!(!w.passes(None, now));
}
