use command_gate::finding::{Finding, ValidationResult};
use command_gate::threat::ThreatLevel;

const LEVELS: [ThreatLevel; 5] = [
    ThreatLevel::Safe,
    ThreatLevel::Low,
    ThreatLevel::Medium,
    ThreatLevel::High,
    ThreatLevel::Critical,
];

#[test]
fn levels_are_totally_ordered() {
    for (i, a) in LEVELS.iter().enumerate() {
        for (j, b) in LEVELS.iter().enumerate() {
            assert_eq!(a < b, i < j);
            assert_eq!(a <= b, i <= j);
            assert_eq!(a > b, i > j);
            assert_eq!(a == b, i == j);
            assert_eq!(a.at_most(*b), i <= j);
            assert_eq!(a.escalate(*b), LEVELS[i.max(j)]);
        }
        assert_eq!(a.severity() as usize, i);
    }
}

#[test]
fn levels_have_two_names() {
    let names = ["safe", "low", "medium", "high", "critical"];
    let titles = ["Safe", "Low", "Medium", "High", "Critical"];
    for (i, level) in LEVELS.iter().enumerate() {
        assert_eq!(level.as_str(), names[i]);
        assert_eq!(level.as_title(), titles[i]);
        assert_eq!(format!("{:?}", level), titles[i]);
    }
}

fn finding(level: ThreatLevel, label: &str, warning: &str) -> Finding {
    Finding { level, label: label.to_string(), warning: warning.to_string() }
}

#[test]
fn no_findings_give_the_safe_verdict() {
    let result = ValidationResult::from_findings(&Vec::new());
    assert!(result.is_safe);
    assert_eq!(result.threat_level, ThreatLevel::Safe);
    assert!(result.warnings.is_empty());
    assert!(result.blocked_patterns.is_empty());
}

#[test]
fn findings_add_up_to_the_worst_level() {
    let findings = vec![
        finding(ThreatLevel::Low, "a", "first"),
        finding(ThreatLevel::High, "b", "second"),
        finding(ThreatLevel::Medium, "c", "third"),
    ];
    let result = ValidationResult::from_findings(&findings);
    assert!(!result.is_safe);
    assert_eq!(result.threat_level, ThreatLevel::High);
    assert_eq!(result.warnings, vec!["first", "second", "third"]);
    assert_eq!(result.blocked_patterns, vec!["a", "b", "c"]);
}

#[test]
fn levels_sort_by_severity() {
    let mut levels = vec![
        ThreatLevel::High,
        ThreatLevel::Safe,
        ThreatLevel::Critical,
        ThreatLevel::Low,
        ThreatLevel::Medium,
    ];
    levels.sort();
    assert_eq!(levels, LEVELS.to_vec());
    assert_eq!(ThreatLevel::Low.max(ThreatLevel::High), ThreatLevel::High);
    assert_eq!(ThreatLevel::Critical.min(ThreatLevel::Medium), ThreatLevel::Medium);
}
