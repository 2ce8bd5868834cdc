use command_gate::executor::{Action, AutomationResponse, CommandStep, StepOutcome};
use command_gate::threat::ThreatLevel;
use command_gate::validator::SecurityValidator;
use command_gate::{
    conclude, execute_automation, execute_validated_command, AppState, CommandDecision,
};

#[test]
fn destructive_command_is_critical() {
    let validator = SecurityValidator::new();
    let result = validator.validate_command("rm -rf /").unwrap();
    assert!(!result.is_safe);
    assert_eq!(result.threat_level, ThreatLevel::Critical);
    assert!(result.blocked_patterns.contains(&"rm -rf /".to_string()));
}

#[test]
fn harmless_command_is_safe_and_runs() {
    let validator = SecurityValidator::new();
    let result = validator.validate_command("echo hello").unwrap();
    assert!(result.is_safe);
    assert_eq!(result.threat_level, ThreatLevel::Safe);
    assert!(result.warnings.is_empty());
    assert!(result.blocked_patterns.is_empty());

    let state = AppState::new();
    let decision = execute_validated_command("echo hello".to_string(), false, &state).unwrap();
    let (mut run, validation) = match decision {
        CommandDecision::Approved { run, validation } => (run, validation),
        CommandDecision::Denied(_) => panic!("an approval was expected"),
    };
    match run.next_action() {
        Action::Run { step, command, timeout_secs } => {
            assert_eq!(step, 0);
            assert_eq!(command, "echo hello");
            assert_eq!(timeout_secs, 30);
        }
        Action::Finish => panic!("a command was expected"),
    }
    let accepted = run.record(StepOutcome::Exited {
        code: 0,
        stdout: "hello\n".to_string(),
        stderr: String::new(),
    });
    assert!(accepted);
    assert!(run.is_finished());
    let response = conclude(validation, run.finish());
    assert!(response.success);
    assert!(response.output.as_ref().unwrap().contains("hello"));
    assert_eq!(response.error, None);
    assert!(response.validation.is_safe);
}

#[test]
fn automation_with_destructive_step_is_denied() {
    let state = AppState::new();
    let automation = AutomationResponse {
        script: None,
        commands: Some(vec![
            CommandStep { command: "echo a".to_string(), description: None },
            CommandStep { command: "rm -rf /".to_string(), description: None },
            CommandStep { command: "echo b".to_string(), description: None },
        ]),
    };
    let denied = execute_automation(automation, &state);
    let message = match denied {
        Ok(_) => panic!("the automation must not be planned"),
        Err(message) => message,
    };
    assert!(message.starts_with("Automation blocked - Threat level: Critical. Warnings: "));
    assert!(message.contains("Blocked patterns: rm -rf /"));
}

#[test]
fn added_pattern_is_matched() {
    let mut validator = SecurityValidator::new();
    validator.add_blacklist_pattern("curl http");
    let result = validator.validate_command("curl http://example.com").unwrap();
    assert!(!result.is_safe);
    assert!(result.blocked_patterns.contains(&"curl http".to_string()));
}
