use suzaku::color::{Rgb, SuzakuColor};
use suzaku::level::{abbreviate_level, get_level_color, level_to_int, validate_min_level};
use suzaku::log_source::{service_matches, LogSource};
use suzaku::output::{s, sinks_for_code, OutputConfig, OutputType, Sinks};
use suzaku::rules::{filter_rules_by_level, LoadedRule};

fn make_rule_with_level(level: Option<&str>) -> LoadedRule {
    let yaml = format!(
        r#"
            title: Test Rule
            id: test_rule
            description: A test rule for filtering by level
            level: {}
            logsource:
              product: test
            detection:
              selection:
                field: value
              condition: selection
            "#,
        level.unwrap_or("informational")
    );
    LoadedRule::from_rule(sigma_rust::rule_from_yaml(&yaml).unwrap())
}

fn five_rules() -> Vec<LoadedRule> {
    vec![
        make_rule_with_level(Some("informational")),
        make_rule_with_level(Some("low")),
        make_rule_with_level(Some("medium")),
        make_rule_with_level(Some("high")),
        make_rule_with_level(Some("critical")),
    ]
}

#[test]
fn test_filter_rules_by_level() {
    let filtered = filter_rules_by_level(five_rules(), "informational");
    assert_eq!(filtered.len(), 5);

    let filtered = filter_rules_by_level(five_rules(), "medium");
    assert_eq!(filtered.len(), 3);

    let filtered = filter_rules_by_level(five_rules(), "critical");
    assert_eq!(filtered.len(), 1);
}

#[test]
fn rule_metadata_is_read() {
    let r = make_rule_with_level(Some("high"));
    assert_eq!(r.meta.title, "Test Rule");
    assert_eq!(r.meta.id.as_deref(), Some("test_rule"));
    assert_eq!(r.meta.level.as_deref(), Some("high"));
}

#[test]
fn level_names_rank() {
    assert_eq!(level_to_int("Informational"), 1);
    assert_eq!(level_to_int("info"), 1);
    assert_eq!(level_to_int("LOW"), 2);
    assert_eq!(level_to_int("med"), 3);
    assert_eq!(level_to_int("High"), 4);
    assert_eq!(level_to_int("crit"), 5);
    assert_eq!(level_to_int("severe"), 0);
    assert!(validate_min_level("crit"));
    assert!(!validate_min_level("Critical"));
    assert!(!validate_min_level("urgent"));
}

#[test]
fn levels_abbreviate_and_color() {
    assert_eq!(abbreviate_level("critical"), "crit");
    assert_eq!(abbreviate_level("medium"), "med");
    assert_eq!(abbreviate_level("informational"), "info");
    assert_eq!(abbreviate_level("high"), "high");
    assert_eq!(get_level_color("crit"), SuzakuColor::Red);
    assert_eq!(get_level_color("med"), SuzakuColor::Yellow);
    assert_eq!(get_level_color("info"), SuzakuColor::White);
    assert_eq!(SuzakuColor::Orange.rdg(false), Some(Rgb { r: 255, g: 175, b: 0 }));
    assert_eq!(SuzakuColor::Orange.rdg(true), None);
}

#[test]
fn log_sources() {
    assert_eq!(LogSource::Aws.profile_path(), "config/aws_profile.yaml");
    assert_eq!(LogSource::All.profile_path(), "");
    assert_eq!(LogSource::Azure.supported_services(), vec!["activitylogs", "auditlogs", "signinlogs"]);
    assert!(LogSource::All.supports_service("cloudtrail"));
    assert!(!LogSource::Azure.supports_service("cloudtrail"));
    assert_eq!(LogSource::Azure.timestamp_field(), "time");
    let cat = Some("AuditLogs".to_string());
    assert!(service_matches(&Some("auditlogs".to_string()), &cat));
    assert!(!service_matches(&Some("signinlogs".to_string()), &cat));
    assert!(service_matches(&Some("cloudtrail".to_string()), &None));
    assert!(!service_matches(&None, &cat));
}

#[test]
fn output_types() {
    assert_eq!(OutputType::from_u8(1), Some(OutputType::Csv));
    assert_eq!(OutputType::from_u8(5), Some(OutputType::CsvAndJsonl));
    assert_eq!(OutputType::from_u8(0), None);
    assert_eq!(OutputType::from_u8(6), None);
    assert_eq!(sinks_for_code(4), Sinks { csv: true, json: true, jsonl: false });
    assert_eq!(sinks_for_code(9), Sinks { csv: true, json: false, jsonl: false });
    let c = OutputConfig::new(true, false);
    assert!(c.no_color && !c.raw_output);
}

#[test]
fn debug_value_text_is_unwrapped() {
    assert_eq!(s("Value(String(\"ConsoleLogin\"))".to_string()), "ConsoleLogin");
    assert_eq!(s("plain".to_string()), "plain");
}
