use command_gate::executor::{
    commands_of_steps, units_of_script, Action, AutomationResponse, AutomationRun, CommandExecutor,
    CommandStep, ExecutionError, ExecutionResult, Halt, SpawnFailure, StepOutcome,
    DEFAULT_TIMEOUT_SECS,
};

fn step(command: &str) -> CommandStep {
    CommandStep { command: command.to_string(), description: None }
}

fn exited(code: i32, stdout: &str, stderr: &str) -> StepOutcome {
    StepOutcome::Exited { code, stdout: stdout.to_string(), stderr: stderr.to_string() }
}

#[test]
fn script_is_split_into_trimmed_commands() {
    assert_eq!(
        units_of_script("  cd /tmp \n\n\tls -la\r\n   \necho done"),
        vec!["cd /tmp", "ls -la", "echo done"]
    );
    assert_eq!(units_of_script(""), Vec::<String>::new());
    assert_eq!(units_of_script(" \n\t\n"), Vec::<String>::new());
    assert_eq!(units_of_script("écho ñ  "), vec!["écho ñ"]);
}

#[test]
fn command_list_is_used_as_given() {
    let steps = vec![step(" a "), step(""), step("b")];
    assert_eq!(commands_of_steps(&steps), vec![" a ", "", "b"]);
    let automation = AutomationResponse { script: None, commands: Some(steps) };
    assert_eq!(automation.units(), vec![" a ", "", "b"]);
    assert_eq!(automation.text_to_validate(), Some(" a \n\nb".to_string()));
}

#[test]
fn script_takes_precedence_over_commands() {
    let automation = AutomationResponse {
        script: Some("echo one\necho two".to_string()),
        commands: Some(vec![step("echo three")]),
    };
    assert_eq!(automation.units(), vec!["echo one", "echo two"]);
    assert_eq!(automation.text_to_validate(), Some("echo one\necho two".to_string()));
}

#[test]
fn automation_without_content_has_nothing_to_validate() {
    let automation = AutomationResponse { script: None, commands: None };
    assert_eq!(automation.text_to_validate(), None);
    assert!(automation.units().is_empty());
}

#[test]
fn automation_without_commands_cannot_start() {
    let executor = CommandExecutor::new();
    for automation in [
        AutomationResponse { script: None, commands: None },
        AutomationResponse { script: None, commands: Some(Vec::new()) },
        AutomationResponse { script: Some("  \n\n".to_string()), commands: None },
        AutomationResponse { script: Some(String::new()), commands: Some(vec![step("echo a")]) },
    ] {
        match executor.start_automation(&automation) {
            Ok(_) => panic!("nothing to run was expected"),
            Err(e) => {
                assert_eq!(e, ExecutionError::NothingToRun);
                assert_eq!(e.message(), "Automation holds no command to run");
            }
        }
    }
}

#[test]
fn every_step_is_reported_in_order_despite_failures() {
    let executor = CommandExecutor::with_timeout(5);
    let automation = AutomationResponse {
        script: None,
        commands: Some(vec![step("echo a"), step("false"), step("sleep 60"), step("nope"), step("echo b")]),
    };
    let mut run = executor.start_automation(&automation).ok().unwrap();
    assert_eq!(run.len(), 5);
    let outcomes = vec![
        exited(0, "a\n", ""),
        exited(1, "", ""),
        StepOutcome::TimedOut,
        StepOutcome::SpawnFailed { reason: "No such file or directory".to_string() },
        exited(0, "b\n", "note"),
    ];
    let mut handed_out = Vec::new();
    for outcome in outcomes {
        match run.next_action() {
            Action::Run { step, command, timeout_secs } => {
                assert_eq!(step, run.completed());
                assert_eq!(timeout_secs, 5);
                handed_out.push(command);
            }
            Action::Finish => panic!("a command was expected"),
        }
        assert!(!run.is_finished());
        assert!(run.record(outcome));
    }
    assert!(run.is_finished());
    assert!(matches!(run.next_action(), Action::Finish));
    assert_eq!(handed_out, vec!["echo a", "false", "sleep 60", "nope", "echo b"]);

    let results = run.into_results();
    assert_eq!(results.len(), 5);
    for (i, result) in results.iter().enumerate() {
        assert_eq!(result.step, i);
        assert_eq!(result.command, handed_out[i]);
    }
    let success: Vec<bool> = results.iter().map(|r| r.success).collect();
    assert_eq!(success, vec![true, false, false, false, true]);
    assert_eq!(results[0].output, Some("a\n".to_string()));
    assert_eq!(results[0].error, None);
    assert_eq!(results[1].output, Some(String::new()));
    assert_eq!(results[1].error, Some("Command exited with a failure status".to_string()));
    assert_eq!(results[2].output, None);
    assert_eq!(results[2].error, Some("Command timed out after 5 seconds".to_string()));
    assert_eq!(results[3].output, None);
    assert_eq!(
        results[3].error,
        Some("Failed to start command: No such file or directory".to_string())
    );
    assert_eq!(results[4].output, Some("b\n".to_string()));
    assert_eq!(results[4].error, None);
}

#[test]
fn failure_reports_the_error_stream() {
    let result =
        ExecutionResult::from_outcome(3, "ls /nope".to_string(), exited(2, "", "ls: cannot access"), 30);
    assert_eq!(result.step, 3);
    assert_eq!(result.command, "ls /nope");
    assert!(!result.success);
    assert_eq!(result.output, Some(String::new()));
    assert_eq!(result.error, Some("ls: cannot access".to_string()));
    let negative = ExecutionResult::from_outcome(0, "x".to_string(), exited(-1, "out", ""), 30);
    assert!(!negative.success);
    assert_eq!(negative.output, Some("out".to_string()));
}

#[test]
fn timeout_is_a_failure_that_names_the_limit() {
    let result = ExecutionResult::from_outcome(0, "sleep 99".to_string(), StepOutcome::TimedOut, 120);
    assert!(!result.success);
    assert_eq!(result.output, None);
    assert_eq!(result.error, Some("Command timed out after 120 seconds".to_string()));
}

#[test]
fn report_without_a_waiting_command_is_ignored() {
    let mut run = AutomationRun::new(vec!["echo a".to_string()], 30);
    assert!(run.record(exited(0, "a", "")));
    assert!(run.is_finished());
    assert!(!run.record(exited(0, "again", "")));
    assert_eq!(run.completed(), 1);
    assert_eq!(run.results().len(), 1);
    assert_eq!(run.results()[0].output, Some("a".to_string()));

    let mut empty = AutomationRun::new(Vec::new(), 30);
    assert!(empty.is_finished());
    assert!(matches!(empty.next_action(), Action::Finish));
    assert!(!empty.record(StepOutcome::TimedOut));
    assert!(empty.into_results().is_empty());
}

#[test]
fn output_events_carry_the_running_step() {
    let mut run = AutomationRun::new(vec!["a".to_string(), "b".to_string()], 30);
    let first = run.output_event("partial".to_string()).unwrap();
    assert_eq!(first.step, 0);
    assert_eq!(first.chunk, "partial");
    run.record(exited(0, "", ""));
    let second = run.output_event("more".to_string()).unwrap();
    assert_eq!(second.step, 1);
    run.record(exited(0, "", ""));
    assert!(run.output_event("late".to_string()).is_none());
}

#[test]
fn single_command_is_run_as_it_is() {
    let executor = CommandExecutor::new();
    assert_eq!(executor.timeout_secs, DEFAULT_TIMEOUT_SECS);
    assert_eq!(DEFAULT_TIMEOUT_SECS, 30);
    let run = executor.start("  Get-ChildItem\nGet-Date ");
    assert_eq!(run.len(), 1);
    match run.next_action() {
        Action::Run { step, command, timeout_secs } => {
            assert_eq!(step, 0);
            assert_eq!(command, "  Get-ChildItem\nGet-Date ");
            assert_eq!(timeout_secs, 30);
        }
        Action::Finish => panic!("a command was expected"),
    }
}

#[test]
fn finished_run_hands_over_all_reports() {
    let mut run = AutomationRun::new(vec!["a".to_string(), "b".to_string()], 30);
    run.record(exited(1, "", "bad"));
    run.record(exited(0, "fine", ""));
    assert_eq!(run.halted(), None);
    let results = run.finish().ok().unwrap();
    assert_eq!(results.len(), 2);
    assert_eq!(results[0].command, "a");
    assert!(!results[0].success);
    assert_eq!(results[1].command, "b");
    assert!(results[1].success);
}

#[test]
fn run_given_up_fails_as_a_whole() {
    let mut run = AutomationRun::new(vec!["a".to_string(), "b".to_string()], 30);
    run.record(exited(0, "", ""));
    assert!(run.halt(Halt::HostExhausted));
    assert!(run.is_finished());
    assert_eq!(run.halted(), Some(Halt::HostExhausted));
    assert!(matches!(run.next_action(), Action::Finish));
    assert!(!run.record(exited(0, "", "")));
    assert!(!run.halt(Halt::Cancelled));
    assert_eq!(run.halted(), Some(Halt::HostExhausted));
    assert_eq!(run.results().len(), 1);
    let error = run.finish().err().unwrap();
    assert_eq!(error, ExecutionError::HostExhausted);
    assert_eq!(error.message(), "The host cannot start any process");
}

#[test]
fn cancelled_run_stops_handing_out_commands() {
    let mut run = AutomationRun::new(vec!["a".to_string(), "b".to_string()], 30);
    assert!(run.halt(Halt::Cancelled));
    assert!(matches!(run.next_action(), Action::Finish));
    assert!(run.output_event("x".to_string()).is_none());
    let error = run.finish().err().unwrap();
    assert_eq!(error, ExecutionError::Cancelled);
    assert_eq!(error.message(), "Execution was cancelled");
}

#[test]
fn run_left_early_counts_as_cancelled() {
    let mut run = AutomationRun::new(vec!["a".to_string(), "b".to_string()], 30);
    run.record(exited(0, "", ""));
    assert_eq!(run.finish().err(), Some(ExecutionError::Cancelled));
}

#[test]
fn complete_run_cannot_be_given_up() {
    let mut run = AutomationRun::new(vec!["a".to_string()], 30);
    run.record(StepOutcome::TimedOut);
    assert!(!run.halt(Halt::Cancelled));
    assert_eq!(run.halted(), None);
    assert_eq!(run.finish().ok().unwrap().len(), 1);
}

#[test]
fn command_that_cannot_start_is_reported_and_the_run_goes_on() {
    for failure in [SpawnFailure::NotFound, SpawnFailure::PermissionDenied, SpawnFailure::Other] {
        assert!(!failure.is_host_exhaustion());
        let mut run = AutomationRun::new(vec!["nope".to_string(), "echo b".to_string()], 30);
        assert!(run.spawn_failed(failure, "No such file or directory".to_string()));
        assert_eq!(run.halted(), None);
        assert_eq!(run.completed(), 1);
        assert!(!run.results()[0].success);
        assert_eq!(
            run.results()[0].error,
            Some("Failed to start command: No such file or directory".to_string())
        );
        assert!(matches!(run.next_action(), Action::Run { step: 1, .. }));
    }
}

#[test]
fn exhausted_host_ends_the_run() {
    for failure in [SpawnFailure::OutOfMemory, SpawnFailure::WouldBlock] {
        assert!(failure.is_host_exhaustion());
        let mut run = AutomationRun::new(vec!["a".to_string(), "b".to_string()], 30);
        assert!(run.spawn_failed(failure, "Cannot allocate memory".to_string()));
        assert_eq!(run.halted(), Some(Halt::HostExhausted));
        assert_eq!(run.completed(), 0);
        assert!(matches!(run.next_action(), Action::Finish));
        assert!(!run.spawn_failed(failure, "again".to_string()));
        assert_eq!(run.finish().err(), Some(ExecutionError::HostExhausted));
    }
}
