use suzaku::correlation::{CorrelationEvent, CorrelationOutcome, CorrelationRows};
use suzaku::json::{chunk_end, is_log_file, load_json_from_file, log_contents_to_events, IntakeError};
use suzaku::pipeline::{prepare_record, ScanSettings};
use suzaku::report::{data_reduction, group_counts, histogram_plan, HistogramPlan, Reduction};
use suzaku::rule::RuleMeta;
use suzaku::rules::LoadedRule;
use suzaku::summary::{check_outcomes, DetectionSummary, EventOutcome};
use suzaku::time::UtcTime;
use suzaku::timefilter::{OffsetBound, TimeBound, TimeWindow};

const HIGH_RULE: &str = r#"
title: Console login without MFA
id: r-1
author: Alice
level: high
logsource:
  product: aws
  service: cloudtrail
detection:
  selection:
    eventName: ConsoleLogin
  condition: selection
"#;

const THREE_EVENTS: &str = r#"{"Records": [
  {"eventName": "ConsoleLogin", "eventTime": "2024-08-18T13:00:00Z"},
  {"eventName": "DescribeInstances", "eventTime": "2024-08-18T14:00:00Z"},
  {"eventName": "ConsoleLogin", "eventTime": "2024-08-19T09:30:00Z"}
]}"#;

fn open_settings() -> ScanSettings {
    ScanSettings {
        window: TimeWindow { start: TimeBound::Unset, end: TimeBound::Unset, offset: OffsetBound::Unset },
        ts_key: "eventTime".to_string(),
        now: UtcTime { secs: 0, nanos: 0 },
    }
}

fn scan(summary: &mut DetectionSummary, rules: &Vec<LoadedRule>, settings: &ScanSettings, text: &str) {
    let records = log_contents_to_events(text);
    let outcomes: Vec<EventOutcome> =
        records.iter().filter_map(|r| prepare_record(settings, rules, r)).map(|p| p.outcome).collect();
    assert!(check_outcomes(&outcomes, rules.len()));
    summary.reduce_chunk(rules, &outcomes);
}

fn meta(title: &str, author: Option<&str>, level: Option<&str>) -> RuleMeta {
    RuleMeta {
        title: title.to_string(),
        id: None,
        status: None,
        author: author.map(|a| a.to_string()),
        description: None,
        references: None,
        date: None,
        modified: None,
        tags: None,
        falsepositives: None,
        level: level.map(|l| l.to_string()),
    }
}

#[test]
fn high_rule_on_two_dates() {
    let rules = vec![LoadedRule::from_rule(sigma_rust::rule_from_yaml(HIGH_RULE).unwrap())];
    let mut summary = DetectionSummary::new();
    scan(&mut summary, &rules, &open_settings(), THREE_EVENTS);
    assert_eq!(summary.level_with_hits.get("high", "Console login without MFA"), 2);
    let dates = group_counts(&summary.dates_with_hits, "high");
    assert_eq!(dates, vec![("2024-08-18".to_string(), 1), ("2024-08-19".to_string(), 1)]);
    assert_eq!(summary.event_with_hits, 2);
    assert_eq!(summary.total_events, 3);
    assert_eq!(summary.author_titles.get("Alice", "Console login without MFA"), 2);
    assert_eq!(summary.timestamps.len(), 2);
    assert_eq!(summary.first_event_time.unwrap().secs, 1723986000);
    assert_eq!(summary.last_event_time.unwrap().secs, 1724059800);
}

#[test]
fn malformed_file_contributes_nothing() {
    let rules = vec![LoadedRule::from_rule(sigma_rust::rule_from_yaml(HIGH_RULE).unwrap())];
    let mut summary = DetectionSummary::new();
    scan(&mut summary, &rules, &open_settings(), THREE_EVENTS);
    scan(&mut summary, &rules, &open_settings(), "{ this is not json");
    assert_eq!(summary.total_events, 3);
    assert_eq!(summary.event_with_hits, 2);
    assert_eq!(load_json_from_file("{ nope").unwrap_err(), IntakeError::InvalidJson);
}

#[test]
fn document_shapes() {
    assert_eq!(log_contents_to_events(r#"[{"a": 1}, {"a": 2}]"#).len(), 2);
    assert_eq!(log_contents_to_events(r#"{"Records": [{"a": 1}]}"#).len(), 1);
    assert_eq!(log_contents_to_events(r#"{"Other": [{"a": 1}]}"#).len(), 0);
    assert_eq!(log_contents_to_events(r#"{"Records": 5}"#).len(), 0);
    assert_eq!(log_contents_to_events("42").len(), 0);
    assert_eq!(load_json_from_file("[]").unwrap().len(), 0);
}

#[test]
fn time_filtered_records_are_not_counted() {
    let rules = vec![LoadedRule::from_rule(sigma_rust::rule_from_yaml(HIGH_RULE).unwrap())];
    let mut settings = open_settings();
    settings.window.end = TimeBound::At(UtcTime { secs: 1723993200, nanos: 0 });
    let mut summary = DetectionSummary::new();
    scan(&mut summary, &rules, &settings, THREE_EVENTS);
    assert_eq!(summary.total_events, 2);
    assert_eq!(summary.event_with_hits, 1);
    assert!(summary.event_with_hits <= summary.total_events);
}

fn corr_event(d: &str, secs: i64, ordinal: usize, already_hit: bool) -> CorrelationEvent {
    CorrelationEvent {
        time: Some(UtcTime { secs, nanos: 0 }),
        date: Some(d.to_string()),
        base_rule: meta("base A", Some("Bob"), Some("low")),
        ordinal,
        already_hit,
    }
}

#[test]
fn correlation_without_generate_keeps_hits() {
    let mut summary = DetectionSummary::new();
    summary.total_events = 3;
    summary.event_with_hits = 1;
    let outcome = CorrelationOutcome {
        rule: meta("burst", Some("Carol"), Some("critical")),
        generate: false,
        matched: true,
        events: vec![corr_event("2024-01-01", 100, 0, true), corr_event("2024-01-02", 90000, 1, false)],
    };
    let rows = summary.apply_correlation(&outcome);
    assert_eq!(rows, CorrelationRows { event_rows: 0, aggregate_rows: 1 });
    assert_eq!(summary.event_with_hits, 1);
    assert_eq!(summary.level_with_hits.get("critical", "burst"), 1);
    assert_eq!(summary.level_with_hits.get("low", "base A"), 0);
    assert_eq!(summary.dates_with_hits.get("critical", "2024-01-02"), 1);
    assert_eq!(summary.author_titles.get("Carol", "burst"), 1);
    assert_eq!(summary.timestamps, vec![100, 90000]);

    let unmatched = CorrelationOutcome { matched: false, ..outcome };
    assert_eq!(summary.apply_correlation(&unmatched), CorrelationRows { event_rows: 0, aggregate_rows: 0 });
    assert_eq!(summary.event_with_hits, 1);
}

#[test]
fn generating_correlation_counts_each_event_once() {
    let mut summary = DetectionSummary::new();
    summary.total_events = 3;
    summary.event_with_hits = 1;
    let group = || CorrelationOutcome {
        rule: meta("burst", None, Some("critical")),
        generate: true,
        matched: true,
        events: vec![
            corr_event("2024-01-01", 100, 0, true),
            corr_event("2024-01-01", 200, 1, false),
            corr_event("2024-01-01", 200, 1, false),
            corr_event("2024-01-02", 90000, 2, false),
        ],
    };
    let rows = summary.apply_correlation(&group());
    assert_eq!(rows, CorrelationRows { event_rows: 4, aggregate_rows: 1 });
    assert_eq!(summary.event_with_hits, 3);
    assert_eq!(summary.level_with_hits.get("low", "base A"), 4);
    summary.apply_correlation(&group());
    assert_eq!(summary.event_with_hits, 3);
    assert!(summary.event_with_hits <= summary.total_events);

    let mut small = DetectionSummary::new();
    small.total_events = 1;
    let two = CorrelationOutcome {
        rule: meta("pair", None, None),
        generate: true,
        matched: true,
        events: vec![corr_event("2024-01-01", 1, 0, false), corr_event("2024-01-01", 2, 1, false)],
    };
    small.apply_correlation(&two);
    assert_eq!(small.event_with_hits, 1);
}

#[test]
fn data_reduction_percentages() {
    assert_eq!(data_reduction(0, 0), Reduction { reduced: 0, percent_x100: None });
    assert_eq!(data_reduction(3, 2), Reduction { reduced: 1, percent_x100: Some(3333) });
    assert_eq!(data_reduction(3, 1), Reduction { reduced: 2, percent_x100: Some(6667) });
    assert_eq!(data_reduction(10, 0), Reduction { reduced: 10, percent_x100: Some(10000) });
}

#[test]
fn histogram_needs_five_points() {
    assert_eq!(histogram_plan(0, 100, 3), HistogramPlan::InsufficientData);
    assert_eq!(histogram_plan(4, 100, 3), HistogramPlan::InsufficientData);
    assert_eq!(histogram_plan(5, 100, 3), HistogramPlan::Chart { marker_count: 3, width: 94 });
    assert_eq!(histogram_plan(500, 4, 3), HistogramPlan::Chart { marker_count: 18, width: 0 });
}

#[test]
fn chunks_and_file_names() {
    assert_eq!(chunk_end(0, 2500), 1000);
    assert_eq!(chunk_end(2000, 2500), 2500);
    assert!(is_log_file("a/b/trail.json"));
    assert!(is_log_file("trail.json.gz"));
    assert!(!is_log_file("trail.jsonl"));
}

#[test]
fn output_rows_follow_discovery_order() {
    let o = |m: Vec<usize>| EventOutcome { time: None, date: None, matched: m };
    let outcomes = vec![o(vec![0, 2]), o(vec![]), o(vec![1])];
    assert_eq!(suzaku::pipeline::output_pairs(&outcomes), vec![(0, 0), (0, 2), (2, 1)]);
}
