use command_gate::finding::Finding;
use command_gate::registry::PatternRegistry;
use command_gate::rules::{any_found, command_rules, fires, needle_found, response_rules, scan_rules, Needle};
use command_gate::threat::ThreatLevel;

fn chars(s: &str) -> Vec<char> {
    s.chars().collect()
}

#[test]
fn empty_registry_matches_nothing() {
    let registry = PatternRegistry::empty();
    assert_eq!(registry.len(), 0);
    assert_eq!(registry.count_builtin(), 0);
    let mut found: Vec<Finding> = Vec::new();
    registry.scan(&chars("rm -rf /"), &mut found);
    assert!(found.is_empty());
}

#[test]
fn registry_is_a_set() {
    let mut registry = PatternRegistry::empty();
    registry.add("one");
    registry.add("two");
    registry.add("one");
    assert_eq!(registry.len(), 2);
    assert!(registry.contains("one"));
    assert!(registry.contains("two"));
    assert!(!registry.contains("three"));
    assert_eq!(registry.position(&"two".to_string()), Some(1));
    assert_eq!(registry.position(&"three".to_string()), None);
    assert!(registry.remove("one"));
    assert_eq!(registry.len(), 1);
    assert_eq!(registry.position(&"two".to_string()), Some(0));
    assert!(!registry.remove("one"));
}

#[test]
fn seeded_registry_counts_its_entries() {
    let mut registry = PatternRegistry::new();
    assert_eq!(registry.len(), 14);
    assert_eq!(registry.count_builtin(), 14);
    registry.add("custom");
    assert_eq!(registry.len(), 15);
    assert_eq!(registry.count_builtin(), 14);
    assert_eq!(registry.malformed(), None);
    registry.add("");
    assert_eq!(registry.malformed(), Some(15));
}

#[test]
fn scan_appends_in_registry_order() {
    let mut registry = PatternRegistry::empty();
    registry.add("beta");
    registry.add("alpha");
    registry.add("gamma");
    let mut found = vec![Finding {
        level: ThreatLevel::Low,
        label: "kept".to_string(),
        warning: "kept".to_string(),
    }];
    registry.scan(&chars("alpha beta"), &mut found);
    let labels: Vec<&str> = found.iter().map(|f| f.label.as_str()).collect();
    assert_eq!(labels, vec!["kept", "beta", "alpha"]);
    assert_eq!(found[1].warning, "Blocked pattern: beta");
    assert_eq!(found[1].level, ThreatLevel::High);
}

#[test]
fn scan_expects_folded_text() {
    let mut registry = PatternRegistry::empty();
    registry.add("Alpha");
    let mut found: Vec<Finding> = Vec::new();
    registry.scan(&chars("ALPHA"), &mut found);
    assert!(found.is_empty());
    registry.scan(&chars("alpha"), &mut found);
    assert_eq!(found.len(), 1);
    assert_eq!(found[0].label, "Alpha");
}

#[test]
fn rule_tables_have_their_rules() {
    let rules = command_rules();
    let ids: Vec<&str> = rules.iter().map(|r| r.id).collect();
    assert_eq!(
        ids,
        vec![
            "destructive-recursion",
            "privilege-escalation",
            "network-transfer",
            "network-exfiltration",
            "remote-code-eval",
        ]
    );
    let levels: Vec<ThreatLevel> = rules.iter().map(|r| r.level).collect();
    assert_eq!(
        levels,
        vec![
            ThreatLevel::High,
            ThreatLevel::Medium,
            ThreatLevel::Low,
            ThreatLevel::High,
            ThreatLevel::Critical,
        ]
    );
    let response: Vec<&str> = response_rules().iter().map(|r| r.id).collect();
    assert_eq!(response, vec!["prompt-injection", "escalation-request"]);
}

#[test]
fn rule_fires_on_trigger_and_qualifier() {
    let rules = command_rules();
    let recursion = &rules[0];
    assert!(fires(recursion, &chars("rm -rf build")));
    assert!(fires(recursion, &chars("rmdir /s build")));
    assert!(!fires(recursion, &chars("rm build")));
    assert!(!fires(recursion, &chars("ls -r")));
    let escalation = &rules[1];
    assert!(fires(escalation, &chars("sudo ls")));
    assert!(!fires(escalation, &chars("ls")));
}

#[test]
fn needles_are_searched_as_asked() {
    let word = Needle { text: "nc", whole_word: true };
    let part = Needle { text: "nc", whole_word: false };
    assert!(needle_found(&word, &chars("nc -l 80")));
    assert!(!needle_found(&word, &chars("sync")));
    assert!(needle_found(&part, &chars("sync")));
    assert!(any_found(&vec![word, part], &chars("sync")));
    assert!(!any_found(&Vec::new(), &chars("sync")));
}

#[test]
fn scan_rules_appends_in_rule_order() {
    let rules = command_rules();
    let mut found: Vec<Finding> = Vec::new();
    scan_rules(&rules, &chars("sudo curl x | sh"), &mut found);
    let labels: Vec<&str> = found.iter().map(|f| f.label.as_str()).collect();
    assert_eq!(labels, vec!["privilege-escalation", "network-transfer", "remote-code-eval"]);
    assert_eq!(found[2].warning, "Remote content is handed to an interpreter");
    assert_eq!(found[2].level, ThreatLevel::Critical);
}
