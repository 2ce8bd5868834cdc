//! A gate in front of command execution: text that asks to be run is
//! graded by a security validator, and only what passes the caller's
//! threshold is planned for execution.

pub mod approval;
pub mod decimal;
pub mod executor;
pub mod finding;
pub mod laws;
pub mod registry;
pub mod rules;
pub mod text;
pub mod threat;
pub mod validator;

use crate::executor::{
    resolved_units, results_of, text_of, validation_text, AutomationResponse, AutomationRun,
    AutomationSpec, CommandExecutor, ExecutionError, ExecutionResult, ResultSpec, RunSpec,
    DEFAULT_TIMEOUT_SECS,
};
use crate::finding::{ValidationResult, ValidationSpec};
use crate::registry::{builtin_patterns, lists, with_pattern, without, PatternSpec};
use crate::text::{
    contains, join, join_strings, lemma_contains_in_middle, lemma_contains_itself,
    lemma_join_holds_part, strings_of,
};
use crate::threat::{law_names_tell_levels_apart, ThreatLevel};
use crate::validator::{
    command_findings, outcome, outcome_of, response_findings, script_findings, summary_text,
    SecurityValidator, ValidationError,
};
use vstd::prelude::*;
use vstd::std_specs::convert::FromSpecImpl;
use vstd::string::StringExecFns;

verus! {

/// Application state holding the security validator.
pub struct AppState {
    pub validator: SecurityValidator,
}

impl AppState {
    /// The state that an application starts with: a validator whose
    /// blacklist holds the seeded patterns.
    pub fn new() -> (state: AppState)
        ensures
            state.validator@ == builtin_patterns(),
    {
        AppState { validator: SecurityValidator::new() }
    }
}

impl Default for AppState {
    fn default() -> (state: AppState)
        ensures
            state.validator@ == builtin_patterns(),
    {
        AppState::new()
    }
}

/// A validation result in the shape that a front end reads: the level is
/// given by its lowercase name.
#[derive(Debug)]
pub struct ValidationResponse {
    pub is_safe: bool,
    pub threat_level: String,
    pub warnings: Vec<String>,
    pub blocked_patterns: Vec<String>,
}

/// A validation response, as the contracts speak of it.
pub struct ResponseSpec {
    pub is_safe: bool,
    pub threat_level: Seq<char>,
    pub warnings: Seq<Seq<char>>,
    pub blocked_patterns: Seq<Seq<char>>,
}

impl View for ValidationResponse {
    type V = ResponseSpec;

    open spec fn view(&self) -> ResponseSpec {
        ResponseSpec {
            is_safe: self.is_safe,
            threat_level: self.threat_level@,
            warnings: strings_of(self.warnings@),
            blocked_patterns: strings_of(self.blocked_patterns@),
        }
    }
}

/// The response for a verdict.
pub open spec fn response_of(v: ValidationSpec) -> ResponseSpec {
    ResponseSpec {
        is_safe: v.is_safe,
        threat_level: v.threat_level.name(),
        warnings: v.warnings,
        blocked_patterns: v.blocked_patterns,
    }
}

impl From<ValidationResult> for ValidationResponse {
    fn from(result: ValidationResult) -> (r: ValidationResponse)
        ensures
            r@ == response_of(result@),
    {
        ValidationResponse {
            is_safe: result.is_safe,
            threat_level: result.threat_level.as_str().to_owned(),
            warnings: result.warnings,
            blocked_patterns: result.blocked_patterns,
        }
    }
}

/// The conversion is stated on `from` itself, over views: ghost code
/// cannot build the strings of a `ValidationResponse`.
impl FromSpecImpl<ValidationResult> for ValidationResponse {
    open spec fn obeys_from_spec() -> bool {
        false
    }

    open spec fn from_spec(v: ValidationResult) -> ValidationResponse {
        arbitrary()
    }
}

/// The response for a validation that failed: the most severe verdict,
/// with the error as its only warning and its only blocked entry.
pub open spec fn fail_closed(e: ValidationError) -> ResponseSpec {
    ResponseSpec {
        is_safe: false,
        threat_level: ThreatLevel::Critical.name(),
        warnings: seq![e.message_text()],
        blocked_patterns: seq![e.message_text()],
    }
}

/// The response for the outcome of a validation.
pub open spec fn response_for(o: Result<ValidationSpec, ValidationError>) -> ResponseSpec {
    match o {
        Ok(v) => response_of(v),
        Err(e) => fail_closed(e),
    }
}

/// Response for command execution.
#[derive(Debug)]
pub struct ExecutionResponse {
    pub success: bool,
    pub output: Option<String>,
    pub error: Option<String>,
    pub validation: ValidationResponse,
}

/// An execution response, as the contracts speak of it.
pub struct ExecutionResponseSpec {
    pub success: bool,
    pub output: Option<Seq<char>>,
    pub error: Option<Seq<char>>,
    pub validation: ResponseSpec,
}

impl View for ExecutionResponse {
    type V = ExecutionResponseSpec;

    open spec fn view(&self) -> ExecutionResponseSpec {
        ExecutionResponseSpec {
            success: self.success,
            output: text_of(self.output),
            error: text_of(self.error),
            validation: self.validation@,
        }
    }
}

/// Whether a verdict passes a call site's threshold: it is safe, or no
/// more severe than `limit`.
pub open spec fn passes(v: ValidationSpec, limit: ThreatLevel) -> bool {
    v.is_safe || v.threat_level.rank() <= limit.rank()
}

/// Whether a single command may go ahead: only on a verdict that is safe
/// or, when the caller forces it, no more severe than `Medium`.
pub open spec fn may_proceed(o: Result<ValidationSpec, ValidationError>, force_execute: bool) -> bool {
    match o {
        Ok(v) => v.is_safe || (force_execute && v.threat_level.rank() <= ThreatLevel::Medium.rank()),
        Err(_) => false,
    }
}

/// The answer that denies a request to execute a single command. It
/// carries the whole validation.
pub open spec fn denial_for(validation: ResponseSpec) -> ExecutionResponseSpec {
    ExecutionResponseSpec {
        success: false,
        output: None,
        error: Some("Command blocked by security validator"@),
        validation,
    }
}

/// What was decided on a request to execute a single command.
pub enum CommandDecision {
    /// The command may not run. The answer is final.
    Denied(ExecutionResponse),
    /// The command may run. `run` is its planned run; `validation` goes
    /// into the answer that `conclude` builds once the run has ended.
    Approved { run: AutomationRun, validation: ValidationResponse },
}

/// A decision, as the contracts speak of it.
pub enum CommandDecisionSpec {
    Denied(ExecutionResponseSpec),
    Approved { run: RunSpec, validation: ResponseSpec },
}

impl View for CommandDecision {
    type V = CommandDecisionSpec;

    open spec fn view(&self) -> CommandDecisionSpec {
        match self {
            CommandDecision::Denied(response) => CommandDecisionSpec::Denied(response@),
            CommandDecision::Approved { run, validation } => CommandDecisionSpec::Approved {
                run: run@,
                validation: validation@,
            },
        }
    }
}

/// The decision on a request to execute a single command: where it may
/// proceed, its run is planned with the default time limit; else it is
/// denied. Either way the validation is handed on.
pub open spec fn command_decision(
    command: Seq<char>,
    force_execute: bool,
    o: Result<ValidationSpec, ValidationError>,
) -> CommandDecisionSpec {
    if may_proceed(o, force_execute) {
        CommandDecisionSpec::Approved {
            run: RunSpec::start(seq![command], DEFAULT_TIMEOUT_SECS),
            validation: response_for(o),
        }
    } else {
        CommandDecisionSpec::Denied(denial_for(response_for(o)))
    }
}

/// How a run ended, as the contracts speak of it.
pub open spec fn ended_of(ended: Result<Vec<ExecutionResult>, ExecutionError>) -> Result<
    Seq<ResultSpec>,
    ExecutionError,
> {
    match ended {
        Ok(results) => Ok(results_of(results@)),
        Err(e) => Err(e),
    }
}

/// The answer for an approved command whose run has ended: what the
/// report on the command says, or, where the run gave no report, why.
pub open spec fn concluded(
    validation: ResponseSpec,
    ended: Result<Seq<ResultSpec>, ExecutionError>,
) -> ExecutionResponseSpec {
    match ended {
        Ok(results) => if results.len() > 0 {
            ExecutionResponseSpec {
                success: results[0].success,
                output: results[0].output,
                error: results[0].error,
                validation,
            }
        } else {
            ExecutionResponseSpec {
                success: false,
                output: None,
                error: Some(ExecutionError::NothingToRun.message_text()),
                validation,
            }
        },
        Err(e) => ExecutionResponseSpec {
            success: false,
            output: None,
            error: Some(e.message_text()),
            validation,
        },
    }
}

/// The message that denies a request of the given kind on a verdict. It
/// names the level, every warning and every blocked entry.
pub open spec fn blocked_text(kind: Seq<char>, v: ValidationSpec) -> Seq<char> {
    kind + " blocked - Threat level: "@ + v.threat_level.title() + ". Warnings: "@ + join(
        v.warnings,
        ", "@,
    ) + ". Blocked patterns: "@ + join(v.blocked_patterns, ", "@)
}

/// A denial names what it rests on: its message holds the level, each
/// warning and each blocked entry of the verdict.
pub proof fn law_denial_names_the_verdict(kind: Seq<char>, v: ValidationSpec)
    ensures
        contains(blocked_text(kind, v), v.threat_level.title()),
        forall|i: int|
            0 <= i < v.warnings.len() ==> contains(blocked_text(kind, v), #[trigger] v.warnings[i]),
        forall|i: int|
            0 <= i < v.blocked_patterns.len() ==> contains(
                blocked_text(kind, v),
                #[trigger] v.blocked_patterns[i],
            ),
{
    let all = blocked_text(kind, v);
    let head = kind + " blocked - Threat level: "@;
    let title = v.threat_level.title();
    let warnings = join(v.warnings, ", "@);
    let patterns = join(v.blocked_patterns, ", "@);
    let none = Seq::<char>::empty();
    assert(contains(all, title)) by {
        let after = ". Warnings: "@ + warnings + ". Blocked patterns: "@ + patterns;
        lemma_contains_itself(title);
        lemma_contains_in_middle(head, title, after, title);
        assert(head + title + after =~= all);
    }
    assert forall|i: int| 0 <= i < v.warnings.len() implies contains(
        all,
        #[trigger] v.warnings[i],
    ) by {
        let before = head + title + ". Warnings: "@;
        let after = ". Blocked patterns: "@ + patterns;
        lemma_join_holds_part(v.warnings, ", "@, i);
        lemma_contains_in_middle(before, warnings, after, v.warnings[i]);
        assert(before + warnings + after =~= all);
    }
    assert forall|i: int| 0 <= i < v.blocked_patterns.len() implies contains(
        all,
        #[trigger] v.blocked_patterns[i],
    ) by {
        let before = head + title + ". Warnings: "@ + warnings + ". Blocked patterns: "@;
        lemma_join_holds_part(v.blocked_patterns, ", "@, i);
        lemma_contains_in_middle(before, patterns, none, v.blocked_patterns[i]);
        assert(before + patterns + none =~= all);
    }
}

/// The message that reports a validation that failed.
pub open spec fn validation_failed_text(e: ValidationError) -> Seq<char> {
    "Validation failed: "@ + e.message_text()
}

/// What a gate decided, as the contracts speak of it: the run that was
/// planned, or the message that denies it.
pub open spec fn plan_of(r: Result<AutomationRun, String>) -> Result<RunSpec, Seq<char>> {
    match r {
        Ok(run) => Ok(run@),
        Err(message) => Err(message@),
    }
}

/// The decision on a script that is to run as one command: planned only
/// on a verdict that passes `Low`; denied, with the verdict spelled out,
/// on any other; denied on a validation that failed.
pub open spec fn powershell_plan(entries: Seq<PatternSpec>, script: Seq<char>) -> Result<
    RunSpec,
    Seq<char>,
> {
    match outcome(entries, command_findings(entries, script)) {
        Ok(v) => if passes(v, ThreatLevel::Low) {
            Ok(RunSpec::start(seq![script], DEFAULT_TIMEOUT_SECS))
        } else {
            Err(blocked_text("Command"@, v))
        },
        Err(e) => Err(validation_failed_text(e)),
    }
}

/// The decision on an automation: denied where it holds neither script
/// nor commands; else validated as a script and planned only on a verdict
/// that passes `Low`, and only where it resolves to a command.
pub open spec fn automation_plan(entries: Seq<PatternSpec>, automation: AutomationSpec) -> Result<
    RunSpec,
    Seq<char>,
> {
    match validation_text(automation) {
        None => Err("No script or commands provided"@),
        Some(text) => match outcome(entries, script_findings(entries, text)) {
            Ok(v) => if passes(v, ThreatLevel::Low) {
                if resolved_units(automation).len() > 0 {
                    Ok(RunSpec::start(resolved_units(automation), DEFAULT_TIMEOUT_SECS))
                } else {
                    Err(ExecutionError::NothingToRun.message_text())
                }
            } else {
                Err(blocked_text("Automation"@, v))
            },
            Err(e) => Err(validation_failed_text(e)),
        },
    }
}

/// Turns the outcome of a validation into a response, failing closed: an
/// error becomes the most severe verdict.
pub fn respond(result: Result<ValidationResult, ValidationError>) -> (r: ValidationResponse)
    ensures
        r@ == response_for(outcome_of(result)),
        (result matches Ok(v) ==> (v.is_safe <==> v.threat_level == ThreatLevel::Safe)) ==> (r.is_safe
            <==> r.threat_level@ == "safe"@),
{
    proof {
        match &result {
            Ok(v) => law_names_tell_levels_apart(v.threat_level, ThreatLevel::Safe),
            Err(_) => law_names_tell_levels_apart(ThreatLevel::Critical, ThreatLevel::Safe),
        }
    }
    match result {
        Ok(result) => ValidationResponse::from(result),
        Err(e) => {
            let warnings = vec![e.message()];
            let blocked_patterns = vec![e.message()];
            proof {
                assert(strings_of(warnings@) =~= seq![e.message_text()]);
                assert(strings_of(blocked_patterns@) =~= seq![e.message_text()]);
            }
            ValidationResponse {
                is_safe: false,
                threat_level: ThreatLevel::Critical.as_str().to_owned(),
                warnings,
                blocked_patterns,
            }
        },
    }
}

/// Builds the message that denies a request of the given kind.
fn blocked_message(kind: &str, result: &ValidationResult) -> (m: String)
    ensures
        m@ == blocked_text(kind@, result@),
{
    let mut m = kind.to_owned();
    m.append(" blocked - Threat level: ");
    m.append(result.threat_level.as_title());
    m.append(". Warnings: ");
    m.append(join_strings(&result.warnings, ", ").as_str());
    m.append(". Blocked patterns: ");
    m.append(join_strings(&result.blocked_patterns, ", ").as_str());
    m
}

/// Builds the message that reports a validation that failed.
fn validation_failed_message(e: &ValidationError) -> (m: String)
    ensures
        m@ == validation_failed_text(*e),
{
    let mut m = "Validation failed: ".to_owned();
    m.append(e.message().as_str());
    m
}

/// Answers with the command it was given, without running anything.
pub fn exec_xx(command: String) -> (r: String)
    ensures
        r@ == "Executed command: "@ + command@,
{
    let mut r = "Executed command: ".to_owned();
    r.append(command.as_str());
    r
}

/// Validates a single command.
pub fn validate_command(command: String, state: &AppState) -> (r: Result<ValidationResponse, String>)
    ensures
        r matches Ok(response) && response@ == response_for(
            outcome(state.validator@, command_findings(state.validator@, command@)),
        ) && (response.is_safe <==> response.threat_level@ == "safe"@),
{
    Ok(respond(state.validator.validate_command(command.as_str())))
}

/// Validates a multi-line script.
pub fn validate_script(script: String, state: &AppState) -> (r: Result<ValidationResponse, String>)
    ensures
        r matches Ok(response) && response@ == response_for(
            outcome(state.validator@, script_findings(state.validator@, script@)),
        ) && (response.is_safe <==> response.threat_level@ == "safe"@),
{
    Ok(respond(state.validator.validate_script(script.as_str())))
}

/// Validates an AI-generated response before execution.
pub fn validate_ai_response(response: String, state: &AppState) -> (r: Result<
    ValidationResponse,
    String,
>)
    ensures
        r matches Ok(answer) && answer@ == response_for(
            outcome(state.validator@, response_findings(state.validator@, response@)),
        ) && (answer.is_safe <==> answer.threat_level@ == "safe"@),
{
    Ok(respond(state.validator.validate_ai_response(response.as_str())))
}

/// Validates a command and decides whether it may be executed: on a safe
/// verdict, or, when `force_execute` is set, on one no more severe than
/// `Medium`. An approved command comes with its planned run; a denial
/// carries the whole validation.
pub fn execute_validated_command(command: String, force_execute: bool, state: &AppState) -> (r:
    Result<CommandDecision, String>)
    ensures
        r matches Ok(decision) && decision@ == command_decision(
            command@,
            force_execute,
            outcome(state.validator@, command_findings(state.validator@, command@)),
        ),
        r matches Ok(CommandDecision::Denied(response)) ==> (response.validation.is_safe
            <==> response.validation.threat_level@ == "safe"@),
        r matches Ok(CommandDecision::Approved { validation, .. }) ==> (validation.is_safe
            <==> validation.threat_level@ == "safe"@),
{
    let validation_result = state.validator.validate_command(command.as_str());
    let should_execute = match &validation_result {
        Ok(result) => result.is_safe || (force_execute && result.threat_level.at_most(
            ThreatLevel::Medium,
        )),
        Err(_) => false,
    };
    let validation = respond(validation_result);
    if !should_execute {
        return Ok(
            CommandDecision::Denied(
                ExecutionResponse {
                    success: false,
                    output: None,
                    error: Some("Command blocked by security validator".to_owned()),
                    validation,
                },
            ),
        );
    }
    let executor = CommandExecutor::new();
    Ok(CommandDecision::Approved { run: executor.start(command.as_str()), validation })
}

/// Builds the answer for an approved command once its run has ended: what
/// the report on the command says, or, where the run gave no report, why.
pub fn conclude(
    validation: ValidationResponse,
    ended: Result<Vec<ExecutionResult>, ExecutionError>,
) -> (r: ExecutionResponse)
    ensures
        r@ == concluded(validation@, ended_of(ended)),
{
    match ended {
        Ok(results) => {
            let mut results = results;
            if results.len() > 0 {
                let first = results.remove(0);
                ExecutionResponse {
                    success: first.success,
                    output: first.output,
                    error: first.error,
                    validation,
                }
            } else {
                ExecutionResponse {
                    success: false,
                    output: None,
                    error: Some(ExecutionError::NothingToRun.message()),
                    validation,
                }
            }
        },
        Err(e) => ExecutionResponse {
            success: false,
            output: None,
            error: Some(e.message()),
            validation,
        },
    }
}

/// Adds a pattern to the blacklist.
pub fn add_blacklist_pattern(pattern: String, state: &mut AppState) -> (r: Result<String, String>)
    ensures
        final(state).validator@ == with_pattern(old(state).validator@, pattern@),
        r matches Ok(message) && message@ == "Pattern '"@ + pattern@ + "' added to blacklist"@,
{
    state.validator.add_blacklist_pattern(pattern.as_str());
    let mut message = "Pattern '".to_owned();
    message.append(pattern.as_str());
    message.append("' added to blacklist");
    Ok(message)
}

/// Removes a pattern from the blacklist. Answers whether it was listed.
pub fn remove_blacklist_pattern(pattern: String, state: &mut AppState) -> (r: Result<bool, String>)
    ensures
        final(state).validator@ == without(old(state).validator@, pattern@),
        r matches Ok(removed) && removed == lists(old(state).validator@, pattern@),
{
    Ok(state.validator.remove_blacklist_pattern(pattern.as_str()))
}

/// The current security configuration, summed up in a line.
pub fn get_security_config(state: &AppState) -> (r: Result<String, String>)
    ensures
        r matches Ok(summary) && summary@ == summary_text(state.validator@),
{
    Ok(state.validator.get_config_summary())
}

/// Validates a PowerShell script as one command and, when the verdict
/// passes `Low`, plans its run.
pub fn execute_powershell(script: String, state: &AppState) -> (r: Result<AutomationRun, String>)
    ensures
        plan_of(r) == powershell_plan(state.validator@, script@),
{
    match state.validator.validate_command(script.as_str()) {
        Ok(result) => {
            if result.is_safe || result.threat_level.at_most(ThreatLevel::Low) {
                let executor = CommandExecutor::new();
                Ok(executor.start(script.as_str()))
            } else {
                Err(blocked_message("Command", &result))
            }
        },
        Err(e) => Err(validation_failed_message(&e)),
    }
}

/// Validates an automation and, when the verdict passes `Low`, plans the
/// run of its commands.
pub fn execute_automation(automation: AutomationResponse, state: &AppState) -> (r: Result<
    AutomationRun,
    String,
>)
    ensures
        plan_of(r) == automation_plan(state.validator@, automation@),
{
    let script_to_validate = match automation.text_to_validate() {
        Some(text) => text,
        None => {
            return Err("No script or commands provided".to_owned());
        },
    };
    match state.validator.validate_script(script_to_validate.as_str()) {
        Ok(result) => {
            if result.is_safe || result.threat_level.at_most(ThreatLevel::Low) {
                let executor = CommandExecutor::new();
                match executor.start_automation(&automation) {
                    Ok(run) => Ok(run),
                    Err(e) => Err(e.message()),
                }
            } else {
                Err(blocked_message("Automation", &result))
            }
        },
        Err(e) => Err(validation_failed_message(&e)),
    }
}

} // verus!
