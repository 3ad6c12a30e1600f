use suzaku::aggregate::{aggregate_values, correlation_record, dedup_strings};
use suzaku::counter::PairCounter;
use suzaku::ct_summary::{classify_api_call, skips_access_key, AccountEvent, CTSummary};
use suzaku::profile::{join, load_profile, parse_profile_line, render_column, rule_field, sigma_columns, GeoLookup};
use suzaku::report::{group_counts, group_sizes, top_group_hits, top_hits};
use suzaku::rule::RuleMeta;
use suzaku::rules::contains_correlation_key;

fn s(x: &str) -> String {
    x.to_string()
}

fn meta() -> RuleMeta {
    RuleMeta {
        title: s("Root login"),
        id: Some(s("r-9")),
        status: Some(s("Stable")),
        author: Some(s("Ann")),
        description: None,
        references: Some(vec![s("https://a"), s("https://b")]),
        date: Some(s("2024-01-01")),
        modified: None,
        tags: Some(vec![]),
        falsepositives: None,
        level: Some(s("critical")),
    }
}

#[test]
fn top_hits_orders_by_count_then_first_seen() {
    let entries = vec![(s("a"), 2), (s("b"), 5), (s("c"), 2), (s("d"), 7), (s("e"), 5)];
    assert_eq!(top_hits(&entries, 3), vec![(s("d"), 7), (s("b"), 5), (s("e"), 5)]);
    assert_eq!(top_hits(&entries, 10).len(), 5);
    assert_eq!(top_hits(&entries, 10)[3], (s("a"), 2));
    assert_eq!(top_hits(&entries, 0), vec![]);
}

#[test]
fn counters_group_and_rank() {
    let mut c = PairCounter::new();
    c.increment("high", "r1");
    c.increment("low", "r2");
    c.increment("high", "r3");
    c.increment("high", "r3");
    assert_eq!(c.get("high", "r3"), 2);
    assert_eq!(c.get("low", "r3"), 0);
    assert_eq!(group_counts(&c, "high"), vec![(s("r1"), 1), (s("r3"), 2)]);
    assert_eq!(top_group_hits(&c, "high", 1), vec![(s("r3"), 2)]);
    assert_eq!(top_group_hits(&c, "medium", 5), vec![]);
    assert_eq!(group_sizes(&c), vec![(s("high"), 2), (s("low"), 1)]);
}

#[test]
fn profile_lines_parse() {
    assert_eq!(parse_profile_line("Timestamp: '.eventTime'"), Some((s("Timestamp"), s(".eventTime"))));
    assert_eq!(parse_profile_line("  RuleTitle :  'sigma.title' "), Some((s("RuleTitle"), s("sigma.title"))));
    assert_eq!(parse_profile_line("Url: 'http://x'"), Some((s("Url"), s("http://x"))));
    assert_eq!(parse_profile_line("no colon here"), None);
    let lines = vec![s("Timestamp: '.eventTime'"), s("SrcIP: '.sourceIPAddress'"), s("junk")];
    let with_geo = load_profile(&lines, true);
    assert_eq!(with_geo.len(), 5);
    assert_eq!(with_geo[2], (s("SrcASN"), s("SrcASN")));
    assert_eq!(with_geo[4], (s("SrcCountry"), s("SrcCountry")));
    assert_eq!(load_profile(&lines, false).len(), 2);
    let profile = vec![(s("A"), s(".x")), (s("B"), s("sigma.level")), (s("C"), s("sigma.id"))];
    assert_eq!(sigma_columns(&profile), vec![(s("B"), s("sigma.level")), (s("C"), s("sigma.id"))]);
}

#[test]
fn columns_render() {
    let m = meta();
    let off = GeoLookup::Off;
    assert_eq!(render_column(".eventTime", &Some(s("2024-08-18T13:00:00Z")), &m, &off), "2024-08-18 13:00:00");
    assert_eq!(render_column(".eventName", &Some(s("ConsoleLogin")), &m, &off), "ConsoleLogin");
    assert_eq!(render_column(".eventName", &None, &m, &off), "-");
    assert_eq!(render_column("sigma.title", &None, &m, &off), "Root login");
    assert_eq!(render_column("sigma.references", &None, &m, &off), "https://a, https://b");
    assert_eq!(render_column("sigma.tags", &None, &m, &off), "");
    assert_eq!(render_column("sigma.description", &None, &m, &off), "-");
    assert_eq!(render_column("sigma.unknown", &None, &m, &off), "-");
    assert_eq!(render_column("SrcASN", &None, &m, &off), "-");
    let found = GeoLookup::Found { asn: s("Amazon"), city: s("Tokyo"), country: s("Japan") };
    assert_eq!(render_column("SrcCity", &None, &m, &found), "Tokyo");
    assert_eq!(render_column("sigma.level", &None, &m, &found), "critical");
    let bad = GeoLookup::Unresolved(s("ec2.amazonaws.com"));
    assert_eq!(render_column("sigma.level", &None, &m, &bad), "critical");
    assert_eq!(render_column(".eventName", &Some(s("RunInstances")), &m, &bad), "RunInstances");
    assert_eq!(render_column("SrcASN", &None, &m, &bad), "ec2.amazonaws.com");
    assert_eq!(rule_field(&m, "status"), "Stable");
    assert_eq!(join(&vec![s("a"), s("b"), s("c")], "-"), "a-b-c");
}

#[test]
fn correlation_rows_aggregate() {
    assert_eq!(aggregate_values(&vec![s("b"), s("a"), s("b")]), "a ¦ b");
    assert_eq!(aggregate_values(&vec![]), "");
    assert_eq!(dedup_strings(&vec![s("x"), s("y"), s("x")]), vec![s("x"), s("y")]);
    let profile = vec![(s("Timestamp"), s(".eventTime")), (s("User"), s(".userName"))];
    let rows = vec![vec![s("t1"), s("bob")], vec![s("t2"), s("alice")], vec![s("t3"), s("bob")]];
    assert_eq!(correlation_record(&profile, &rows, "eventTime"), vec![s("t3"), s("alice ¦ bob")]);
    let azure = vec![(s("Timestamp"), s(".time")), (s("User"), s(".userName"))];
    assert_eq!(correlation_record(&azure, &rows, "time"), vec![s("t3"), s("alice ¦ bob")]);
    assert_eq!(correlation_record(&azure, &rows, "eventTime")[0], s("t1 ¦ t2 ¦ t3"));
}

#[test]
fn correlation_documents_are_recognised() {
    assert!(contains_correlation_key("title: x\ncorrelation:\n  type: event_count\n"));
    assert!(contains_correlation_key("    correlation: {}"));
    assert!(!contains_correlation_key("title: plain rule\ndetection: {}\n"));
}

fn event(time: &str, region: &str, abused: &str) -> AccountEvent {
    AccountEvent {
        event_time: s(time),
        aws_region: s(region),
        source_ip: s("1.2.3.4"),
        user_type: s("IAMUser"),
        access_key_id: s("AKIA1"),
        user_agent: s("cli"),
        abused_api_success: s(abused),
        abused_api_failed: s(""),
        other_api_success: s(""),
        other_api_failed: s(""),
    }
}

#[test]
fn account_summary_accumulates() {
    let mut sum = CTSummary::new();
    sum.add_event(event("2024-01-02T00:00:00Z", "us-east-1", "StopLogging (cloudtrail) - stops logs"));
    sum.add_event(event("2024-01-01T00:00:00Z", "us-east-1", ""));
    sum.add_event(event("2024-01-03T00:00:00Z", "eu-west-1", ""));
    assert_eq!(sum.num_of_events, 3);
    assert_eq!(sum.first_timestamp, "2024-01-01T00:00:00Z");
    assert_eq!(sum.last_timestamp, "2024-01-03T00:00:00Z");
    assert_eq!(sum.aws_regions.len(), 2);
    let us = sum.aws_regions.entry(0);
    assert_eq!((us.key.as_str(), us.count), ("us-east-1", 2));
    assert_eq!(us.first, "2024-01-02T00:00:00Z");
    let eu = sum.aws_regions.entry(1);
    assert_eq!((eu.first.as_str(), eu.last.as_str()), ("2024-01-01T00:00:00Z", "2024-01-03T00:00:00Z"));
    assert_eq!(sum.abused_api_success.len(), 1);
    assert_eq!(sum.other_api_success.len(), 0);
    assert_eq!(sum.user_types, "IAMUser");
}

#[test]
fn api_calls_classify() {
    let d = Some(s("stops logs"));
    assert_eq!(
        classify_api_call("StopLogging", "cloudtrail", "-", &d),
        (s("StopLogging (cloudtrail) - stops logs"), s(""), s(""), s(""))
    );
    assert_eq!(
        classify_api_call("StopLogging", "cloudtrail", "AccessDenied", &d),
        (s(""), s("StopLogging (cloudtrail) - stops logs"), s(""), s(""))
    );
    assert_eq!(classify_api_call("ListBuckets", "s3", "-", &None), (s(""), s(""), s("ListBuckets (s3)"), s("")));
    assert_eq!(classify_api_call("ListBuckets", "s3", "AccessDenied", &None), (s(""), s(""), s(""), s("ListBuckets (s3)")));
    assert!(skips_access_key("ASIAXYZ", false));
    assert!(!skips_access_key("ASIAXYZ", true));
    assert!(!skips_access_key("AKIAXYZ", false));
}
