//! The command executor's decisions: which commands an automation holds,
//! which one runs next, and what is reported for each. Running a command
//! is left to the caller, who hands back what became of it.

use crate::decimal::{decimal, decimal_string};
use crate::text::{
    chars_of, join, join_strings, line_spans, pieces, spans_fit, split_lines, strings_of, trim,
    trim_span,
};
use vstd::prelude::*;
use vstd::string::{StrSliceExecFns, StringExecFns};

verus! {

/// Seconds that a command may run when nothing else is asked for.
pub const DEFAULT_TIMEOUT_SECS: u64 = 30;

/// One command of an automation, with an optional note on its purpose.
#[derive(Debug, Clone)]
pub struct CommandStep {
    pub command: String,
    pub description: Option<String>,
}

/// A request to run a script or a list of commands. Where both are given,
/// the script is what counts.
#[derive(Debug, Clone)]
pub struct AutomationResponse {
    pub script: Option<String>,
    pub commands: Option<Vec<CommandStep>>,
}

/// What an automation asks for, as the contracts speak of it.
pub struct AutomationSpec {
    pub script: Option<Seq<char>>,
    pub commands: Option<Seq<Seq<char>>>,
}

/// The command texts of a list of steps.
pub open spec fn commands_of(steps: Seq<CommandStep>) -> Seq<Seq<char>> {
    steps.map_values(|s: CommandStep| s.command@)
}

impl View for AutomationResponse {
    type V = AutomationSpec;

    open spec fn view(&self) -> AutomationSpec {
        AutomationSpec {
            script: match self.script {
                Some(s) => Some(s@),
                None => None,
            },
            commands: match self.commands {
                Some(c) => Some(commands_of(c@)),
                None => None,
            },
        }
    }
}

/// What became of a command that was handed out.
#[derive(Debug, Clone)]
pub enum StepOutcome {
    /// The process ran to its end.
    Exited { code: i32, stdout: String, stderr: String },
    /// The process could not be started.
    SpawnFailed { reason: String },
    /// The process was stopped because it ran longer than allowed.
    TimedOut,
}

/// A step's outcome, as the contracts speak of it.
pub enum OutcomeSpec {
    Exited { code: i32, stdout: Seq<char>, stderr: Seq<char> },
    SpawnFailed { reason: Seq<char> },
    TimedOut,
}

impl View for StepOutcome {
    type V = OutcomeSpec;

    open spec fn view(&self) -> OutcomeSpec {
        match self {
            StepOutcome::Exited { code, stdout, stderr } => OutcomeSpec::Exited {
                code: *code,
                stdout: stdout@,
                stderr: stderr@,
            },
            StepOutcome::SpawnFailed { reason } => OutcomeSpec::SpawnFailed { reason: reason@ },
            StepOutcome::TimedOut => OutcomeSpec::TimedOut,
        }
    }
}

/// The report on one step.
#[derive(Debug, Clone)]
pub struct ExecutionResult {
    /// Position of the step in its automation, from 0.
    pub step: usize,
    /// The command that was run.
    pub command: String,
    pub success: bool,
    pub output: Option<String>,
    pub error: Option<String>,
}

/// A report, as the contracts speak of it.
pub struct ResultSpec {
    pub step: nat,
    pub command: Seq<char>,
    pub success: bool,
    pub output: Option<Seq<char>>,
    pub error: Option<Seq<char>>,
}

/// The text of an optional string.
pub open spec fn text_of(s: Option<String>) -> Option<Seq<char>> {
    match s {
        Some(s) => Some(s@),
        None => None,
    }
}

impl View for ExecutionResult {
    type V = ResultSpec;

    open spec fn view(&self) -> ResultSpec {
        ResultSpec {
            step: self.step as nat,
            command: self.command@,
            success: self.success,
            output: text_of(self.output),
            error: text_of(self.error),
        }
    }
}

/// The reports held by a vector, in order.
pub open spec fn results_of(v: Seq<ExecutionResult>) -> Seq<ResultSpec> {
    v.map_values(|r: ExecutionResult| r@)
}

/// A piece of output that a running step has produced so far.
#[derive(Debug, Clone)]
pub struct ExecutionOutput {
    pub step: usize,
    pub chunk: String,
}

/// Why the host could not start a process, as it tells the caller.
#[derive(Debug, Clone, Copy, PartialEq, Eq, Structural)]
pub enum SpawnFailure {
    /// The program was not found.
    NotFound,
    /// The caller may not run the program.
    PermissionDenied,
    /// The host is out of memory.
    OutOfMemory,
    /// The host has no room for another process at this time.
    WouldBlock,
    /// Anything else.
    Other,
}

impl SpawnFailure {
    /// Whether the failure says that the host can start no process at all,
    /// rather than that this one command cannot be started.
    pub open spec fn exhausts_host(self) -> bool {
        self is OutOfMemory || self is WouldBlock
    }

    /// Whether the failure says that the host can start no process at all.
    pub fn is_host_exhaustion(&self) -> (r: bool)
        ensures
            r == self.exhausts_host(),
    {
        match self {
            SpawnFailure::OutOfMemory => true,
            SpawnFailure::WouldBlock => true,
            _ => false,
        }
    }
}

/// Why a run was given up before every command was reported on.
#[derive(Debug, Clone, Copy, PartialEq, Eq, Structural)]
pub enum Halt {
    /// The caller or the observer went away.
    Cancelled,
    /// The host could not start any process at all.
    HostExhausted,
}

/// Why a call as a whole failed.
#[derive(Debug, Clone, Copy, PartialEq, Eq, Structural)]
pub enum ExecutionError {
    /// The automation holds no command: neither a script with a line that
    /// is not blank nor, without a script, a command list with an entry.
    NothingToRun,
    /// The run was cancelled before every command was reported on.
    Cancelled,
    /// The host could not start any process at all.
    HostExhausted,
}

impl ExecutionError {
    /// The text that `message` returns.
    pub open spec fn message_text(self) -> Seq<char> {
        match self {
            ExecutionError::NothingToRun => "Automation holds no command to run"@,
            ExecutionError::Cancelled => "Execution was cancelled"@,
            ExecutionError::HostExhausted => "The host cannot start any process"@,
        }
    }

    /// A description for a person.
    pub fn message(&self) -> (s: String)
        ensures
            s@ == self.message_text(),
    {
        match self {
            ExecutionError::NothingToRun => "Automation holds no command to run".to_owned(),
            ExecutionError::Cancelled => "Execution was cancelled".to_owned(),
            ExecutionError::HostExhausted => "The host cannot start any process".to_owned(),
        }
    }
}

/// The commands of a script given by its lines: each line without the
/// white space at its ends, blank lines left out.
pub open spec fn units_of_lines(lines: Seq<Seq<char>>) -> Seq<Seq<char>>
    decreases lines.len(),
{
    if lines.len() == 0 {
        Seq::<Seq<char>>::empty()
    } else {
        let earlier = units_of_lines(lines.drop_last());
        if trim(lines.last()).len() > 0 {
            earlier.push(trim(lines.last()))
        } else {
            earlier
        }
    }
}

/// The commands of a script.
pub open spec fn script_units(script: Seq<char>) -> Seq<Seq<char>> {
    units_of_lines(split_lines(script))
}

/// The commands that an automation resolves to: those of its script where
/// it has one, else its command list as given, else none.
pub open spec fn resolved_units(automation: AutomationSpec) -> Seq<Seq<char>> {
    match automation.script {
        Some(script) => script_units(script),
        None => match automation.commands {
            Some(commands) => commands,
            None => Seq::<Seq<char>>::empty(),
        },
    }
}

/// The text that stands for an automation when it is validated: its
/// script, else its commands one per line; nothing where it has neither.
pub open spec fn validation_text(automation: AutomationSpec) -> Option<Seq<char>> {
    match automation.script {
        Some(script) => Some(script),
        None => match automation.commands {
            Some(commands) => Some(join(commands, "\n"@)),
            None => None,
        },
    }
}

/// What is reported when a process ends with a failure status and says
/// nothing on its error stream.
pub open spec fn failure_text() -> Seq<char> {
    "Command exited with a failure status"@
}

/// What is reported when a process could not be started.
pub open spec fn spawn_failure_text(reason: Seq<char>) -> Seq<char> {
    "Failed to start command: "@ + reason
}

/// What is reported when a process ran out of time.
pub open spec fn timeout_text(timeout_secs: u64) -> Seq<char> {
    "Command timed out after "@ + decimal(timeout_secs as nat) + " seconds"@
}

/// The report for a step and what became of it. Only a process that ran
/// to its end with status 0 counts as a success.
pub open spec fn result_of(
    step: nat,
    command: Seq<char>,
    outcome: OutcomeSpec,
    timeout_secs: u64,
) -> ResultSpec {
    match outcome {
        OutcomeSpec::Exited { code, stdout, stderr } => ResultSpec {
            step,
            command,
            success: code == 0,
            output: Some(stdout),
            error: if code == 0 {
                None
            } else if stderr.len() > 0 {
                Some(stderr)
            } else {
                Some(failure_text())
            },
        },
        OutcomeSpec::SpawnFailed { reason } => ResultSpec {
            step,
            command,
            success: false,
            output: None,
            error: Some(spawn_failure_text(reason)),
        },
        OutcomeSpec::TimedOut => ResultSpec {
            step,
            command,
            success: false,
            output: None,
            error: Some(timeout_text(timeout_secs)),
        },
    }
}

impl ExecutionResult {
    /// Builds the report for a step from what became of it.
    pub fn from_outcome(step: usize, command: String, outcome: StepOutcome, timeout_secs: u64) -> (r:
        ExecutionResult)
        ensures
            r@ == result_of(step as nat, command@, outcome@, timeout_secs),
    {
        match outcome {
            StepOutcome::Exited { code, stdout, stderr } => {
                let error = if code == 0 {
                    None
                } else if !stderr.as_str().is_empty() {
                    Some(stderr)
                } else {
                    Some("Command exited with a failure status".to_owned())
                };
                ExecutionResult { step, command, success: code == 0, output: Some(stdout), error }
            },
            StepOutcome::SpawnFailed { reason } => {
                let mut text = "Failed to start command: ".to_owned();
                text.append(reason.as_str());
                ExecutionResult { step, command, success: false, output: None, error: Some(text) }
            },
            StepOutcome::TimedOut => {
                let mut text = "Command timed out after ".to_owned();
                text.append(decimal_string(timeout_secs).as_str());
                text.append(" seconds");
                ExecutionResult { step, command, success: false, output: None, error: Some(text) }
            },
        }
    }
}

/// Splits a script into its commands.
pub fn units_of_script(script: &str) -> (units: Vec<String>)
    ensures
        strings_of(units@) == script_units(script@),
{
    let chars = chars_of(script);
    let spans = line_spans(&chars);
    let ghost lines = split_lines(script@);
    let mut units: Vec<String> = Vec::new();
    let mut n: usize = 0;
    assert(strings_of(units@) =~= units_of_lines(lines.take(0)));
    while n < spans.len()
        invariant
            n <= spans.len(),
            chars@ == script@,
            lines == split_lines(script@),
            spans_fit(spans@, chars@.len()),
            pieces(chars@, spans@) == lines,
            strings_of(units@) == units_of_lines(lines.take(n as int)),
        decreases spans.len() - n,
    {
        let (from, to) = spans[n];
        proof {
            assert(pieces(chars@, spans@)[n as int] == chars@.subrange(from as int, to as int));
            assert(lines.take(n + 1).drop_last() =~= lines.take(n as int));
            assert(lines.take(n + 1).last() == lines[n as int]);
        }
        let (a, b) = trim_span(&chars, from, to);
        if a < b {
            let ghost before = units@;
            let unit = script.substring_char(a, b).to_owned();
            units.push(unit);
            assert(strings_of(units@) =~= strings_of(before).push(trim(lines[n as int])));
        }
        n += 1;
    }
    assert(lines.take(spans.len() as int) =~= lines);
    units
}

/// The command texts of a list of steps.
pub fn commands_of_steps(steps: &Vec<CommandStep>) -> (commands: Vec<String>)
    ensures
        strings_of(commands@) == commands_of(steps@),
{
    let mut commands: Vec<String> = Vec::new();
    let mut i: usize = 0;
    while i < steps.len()
        invariant
            i <= steps.len(),
            strings_of(commands@) == commands_of(steps@).take(i as int),
        decreases steps.len() - i,
    {
        let ghost before = commands@;
        commands.push(steps[i].command.clone());
        assert(strings_of(commands@) =~= strings_of(before).push(steps@[i as int].command@));
        i += 1;
        assert(strings_of(commands@) =~= commands_of(steps@).take(i as int));
    }
    assert(commands_of(steps@).take(steps.len() as int) =~= commands_of(steps@));
    commands
}

impl AutomationResponse {
    /// The commands that the automation resolves to.
    pub fn units(&self) -> (units: Vec<String>)
        ensures
            strings_of(units@) == resolved_units(self@),
    {
        match &self.script {
            Some(script) => units_of_script(script.as_str()),
            None => match &self.commands {
                Some(steps) => commands_of_steps(steps),
                None => {
                    let units: Vec<String> = Vec::new();
                    assert(strings_of(units@) =~= Seq::<Seq<char>>::empty());
                    units
                },
            },
        }
    }

    /// The text to validate before the automation may run.
    pub fn text_to_validate(&self) -> (text: Option<String>)
        ensures
            text_of(text) == validation_text(self@),
    {
        match &self.script {
            Some(script) => Some(script.clone()),
            None => match &self.commands {
                Some(steps) => {
                    let commands = commands_of_steps(steps);
                    Some(join_strings(&commands, "\n"))
                },
                None => None,
            },
        }
    }
}

/// What the caller is to do next.
#[derive(Debug, Clone)]
pub enum Action {
    /// Run `command`, stop it after `timeout_secs` seconds, and record
    /// what became of it.
    Run { step: usize, command: String, timeout_secs: u64 },
    /// Every command has been reported on.
    Finish,
}

/// An action, as the contracts speak of it.
pub enum ActionSpec {
    Run { step: nat, command: Seq<char>, timeout_secs: u64 },
    Finish,
}

impl View for Action {
    type V = ActionSpec;

    open spec fn view(&self) -> ActionSpec {
        match self {
            Action::Run { step, command, timeout_secs } => ActionSpec::Run {
                step: *step as nat,
                command: command@,
                timeout_secs: *timeout_secs,
            },
            Action::Finish => ActionSpec::Finish,
        }
    }
}

/// The state of a run, as the contracts speak of it: the commands, in the
/// order in which they run, the reports on those that have run, and why
/// the run was given up, if it was.
pub struct RunSpec {
    pub units: Seq<Seq<char>>,
    pub results: Seq<ResultSpec>,
    pub timeout_secs: u64,
    pub halted: Option<Halt>,
}

impl RunSpec {
    /// A run before its first step.
    pub open spec fn start(units: Seq<Seq<char>>, timeout_secs: u64) -> RunSpec {
        RunSpec { units, results: Seq::<ResultSpec>::empty(), timeout_secs, halted: None }
    }

    /// Whether a command is still to run.
    pub open spec fn pending(self) -> bool {
        self.halted is None && self.results.len() < self.units.len()
    }

    /// Whether every command has been reported on.
    pub open spec fn complete(self) -> bool {
        self.results.len() == self.units.len()
    }

    /// What the caller is to do in this state.
    pub open spec fn next_action(self) -> ActionSpec {
        if self.pending() {
            ActionSpec::Run {
                step: self.results.len(),
                command: self.units[self.results.len() as int],
                timeout_secs: self.timeout_secs,
            }
        } else {
            ActionSpec::Finish
        }
    }

    /// The state after the caller reported what became of the command it
    /// was handed. A report that nothing waits for is ignored.
    pub open spec fn record(self, outcome: OutcomeSpec) -> RunSpec {
        if self.pending() {
            RunSpec {
                units: self.units,
                results: self.results.push(
                    result_of(
                        self.results.len(),
                        self.units[self.results.len() as int],
                        outcome,
                        self.timeout_secs,
                    ),
                ),
                timeout_secs: self.timeout_secs,
                halted: self.halted,
            }
        } else {
            self
        }
    }

    /// The state after the run was given up. Where no command is still to
    /// run there is nothing to give up.
    pub open spec fn halt(self, cause: Halt) -> RunSpec {
        if self.pending() {
            RunSpec {
                units: self.units,
                results: self.results,
                timeout_secs: self.timeout_secs,
                halted: Some(cause),
            }
        } else {
            self
        }
    }

    /// The state after the command that was handed out could not be
    /// started: where the host can start no process at all the run is
    /// given up, else the command is reported as failed and the run goes
    /// on.
    pub open spec fn spawn_failed(self, failure: SpawnFailure, reason: Seq<char>) -> RunSpec {
        if failure.exhausts_host() {
            self.halt(Halt::HostExhausted)
        } else {
            self.record(OutcomeSpec::SpawnFailed { reason })
        }
    }

    /// The state after a series of reports.
    pub open spec fn record_all(self, outcomes: Seq<OutcomeSpec>) -> RunSpec
        decreases outcomes.len(),
    {
        if outcomes.len() == 0 {
            self
        } else {
            self.record_all(outcomes.drop_last()).record(outcomes.last())
        }
    }

    /// Each report stands at the position of its step and names the
    /// command of that step; no report is there without a command; and a
    /// run that was given up had a command still to run.
    pub open spec fn in_step(self) -> bool {
        &&& self.results.len() <= self.units.len()
        &&& forall|i: int|
            0 <= i < self.results.len() ==> (#[trigger] self.results[i]).step == i && self.results[i].command
                == self.units[i]
        &&& self.halted is Some ==> self.results.len() < self.units.len()
    }

    /// How the run ends for its caller: with all reports where every
    /// command was reported on; else with the reason for which it was
    /// given up, which is cancellation where none was named.
    pub open spec fn end(self) -> Result<Seq<ResultSpec>, ExecutionError> {
        match self.halted {
            Some(Halt::HostExhausted) => Err(ExecutionError::HostExhausted),
            Some(Halt::Cancelled) => Err(ExecutionError::Cancelled),
            None => if self.complete() {
                Ok(self.results)
            } else {
                Err(ExecutionError::Cancelled)
            },
        }
    }
}

/// A run of `n` commands that was handed `n` outcomes ends with `n`
/// reports, the one at position `i` being the report on command `i` and
/// its outcome, whichever steps failed.
pub proof fn law_every_step_reported_in_order(
    units: Seq<Seq<char>>,
    timeout_secs: u64,
    outcomes: Seq<OutcomeSpec>,
)
    requires
        outcomes.len() == units.len(),
    ensures
        !RunSpec::start(units, timeout_secs).record_all(outcomes).pending(),
        RunSpec::start(units, timeout_secs).record_all(outcomes).end() matches Ok(results)
            && results.len() == units.len() && forall|i: int|
            0 <= i < units.len() ==> #[trigger] results[i] == result_of(
                i as nat,
                units[i],
                outcomes[i],
                timeout_secs,
            ),
{
    lemma_record_all(units, timeout_secs, outcomes);
}

/// Of the outcomes of a step, only a process that ran to its end with
/// status 0 is reported as a success; a step that ran out of time is
/// reported as a failure that names the limit.
pub proof fn law_only_clean_exit_succeeds(
    step: nat,
    command: Seq<char>,
    outcome: OutcomeSpec,
    timeout_secs: u64,
)
    ensures
        result_of(step, command, outcome, timeout_secs).success <==> (outcome matches OutcomeSpec::Exited {
            code,
            ..
        } && code == 0),
        result_of(step, command, outcome, timeout_secs).success <==> result_of(
            step,
            command,
            outcome,
            timeout_secs,
        ).error is None,
        outcome is TimedOut ==> result_of(step, command, outcome, timeout_secs).error == Some(
            timeout_text(timeout_secs),
        ),
        result_of(step, command, outcome, timeout_secs).step == step,
        result_of(step, command, outcome, timeout_secs).command == command,
{
}

/// After `k` outcomes, where `k` is at most the number of commands, a run
/// holds the reports on its first `k` commands.
pub proof fn lemma_record_all(units: Seq<Seq<char>>, timeout_secs: u64, outcomes: Seq<OutcomeSpec>)
    requires
        outcomes.len() <= units.len(),
    ensures
        RunSpec::start(units, timeout_secs).record_all(outcomes).units == units,
        RunSpec::start(units, timeout_secs).record_all(outcomes).timeout_secs == timeout_secs,
        RunSpec::start(units, timeout_secs).record_all(outcomes).halted is None,
        RunSpec::start(units, timeout_secs).record_all(outcomes).results.len() == outcomes.len(),
        forall|i: int|
            0 <= i < outcomes.len() ==> #[trigger] RunSpec::start(units, timeout_secs).record_all(
                outcomes,
            ).results[i] == result_of(i as nat, units[i], outcomes[i], timeout_secs),
    decreases outcomes.len(),
{
    if outcomes.len() > 0 {
        let init = outcomes.drop_last();
        lemma_record_all(units, timeout_secs, init);
        let before = RunSpec::start(units, timeout_secs).record_all(init);
        let after = before.record(outcomes.last());
        assert forall|i: int| 0 <= i < outcomes.len() implies #[trigger] after.results[i] == result_of(
            i as nat,
            units[i],
            outcomes[i],
            timeout_secs,
        ) by {
            if i < init.len() {
                assert(after.results[i] == before.results[i]);
                assert(init[i] == outcomes[i]);
            }
        }
    }
}

/// A run of commands, one after the other. It hands out the next command
/// and takes back what became of it; a failed step does not stop the run.
pub struct AutomationRun {
    units: Vec<String>,
    results: Vec<ExecutionResult>,
    timeout_secs: u64,
    halted: Option<Halt>,
}

impl View for AutomationRun {
    type V = RunSpec;

    closed spec fn view(&self) -> RunSpec {
        RunSpec {
            units: strings_of(self.units@),
            results: results_of(self.results@),
            timeout_secs: self.timeout_secs,
            halted: self.halted,
        }
    }
}

impl AutomationRun {
    #[verifier::type_invariant]
    spec fn sound(&self) -> bool {
        self@.in_step()
    }

    /// A run of the given commands that has not started.
    pub fn new(units: Vec<String>, timeout_secs: u64) -> (run: AutomationRun)
        ensures
            run@ == RunSpec::start(strings_of(units@), timeout_secs),
    {
        let run = AutomationRun { units, results: Vec::new(), timeout_secs, halted: None };
        assert(run@.results =~= Seq::<ResultSpec>::empty());
        run
    }

    /// Number of commands in the run.
    pub fn len(&self) -> (n: usize)
        ensures
            n == self@.units.len(),
    {
        self.units.len()
    }

    /// Number of commands reported on.
    pub fn completed(&self) -> (n: usize)
        ensures
            n == self@.results.len(),
            n <= self@.units.len(),
    {
        proof {
            use_type_invariant(self);
        }
        self.results.len()
    }

    /// Whether no command is still to run: every command was reported on,
    /// or the run was given up.
    pub fn is_finished(&self) -> (r: bool)
        ensures
            r == !self@.pending(),
    {
        proof {
            use_type_invariant(self);
        }
        self.halted.is_some() || self.results.len() >= self.units.len()
    }

    /// Why the run was given up, if it was.
    pub fn halted(&self) -> (r: Option<Halt>)
        ensures
            r == self@.halted,
    {
        self.halted
    }

    /// What the caller is to do next.
    pub fn next_action(&self) -> (action: Action)
        ensures
            action@ == self@.next_action(),
    {
        let step = self.results.len();
        if self.halted.is_none() && step < self.units.len() {
            Action::Run { step, command: self.units[step].clone(), timeout_secs: self.timeout_secs }
        } else {
            Action::Finish
        }
    }

    /// The event for a piece of output of the command that is running;
    /// nothing when no command is.
    pub fn output_event(&self, chunk: String) -> (event: Option<ExecutionOutput>)
        ensures
            match event {
                Some(e) => self@.pending() && e.step == self@.results.len() && e.chunk@ == chunk@,
                None => !self@.pending(),
            },
    {
        let step = self.results.len();
        if self.halted.is_none() && step < self.units.len() {
            Some(ExecutionOutput { step, chunk })
        } else {
            None
        }
    }

    /// Takes what became of the command that was handed out and files the
    /// report on it. Returns whether a command was waiting for it.
    pub fn record(&mut self, outcome: StepOutcome) -> (accepted: bool)
        ensures
            accepted == old(self)@.pending(),
            final(self)@ == old(self)@.record(outcome@),
    {
        proof {
            use_type_invariant(&*self);
        }
        let step = self.results.len();
        if self.halted.is_none() && step < self.units.len() {
            let report = ExecutionResult::from_outcome(
                step,
                self.units[step].clone(),
                outcome,
                self.timeout_secs,
            );
            let mut results: Vec<ExecutionResult> = Vec::new();
            core::mem::swap(&mut self.results, &mut results);
            results.push(report);
            proof {
                assert(results_of(results@) =~= old(self)@.record(outcome@).results);
            }
            self.results = results;
            true
        } else {
            false
        }
    }

    /// Gives the run up: no further command is handed out. Returns
    /// whether a command was still to run.
    pub fn halt(&mut self, cause: Halt) -> (accepted: bool)
        ensures
            accepted == old(self)@.pending(),
            final(self)@ == old(self)@.halt(cause),
    {
        proof {
            use_type_invariant(&*self);
        }
        if self.halted.is_none() && self.results.len() < self.units.len() {
            self.halted = Some(cause);
            true
        } else {
            false
        }
    }

    /// Takes note that the command that was handed out could not be
    /// started. Where the host can start no process at all, the run is
    /// given up; else the command is reported as failed, with the reason,
    /// and the run goes on. Returns whether a command was waiting.
    pub fn spawn_failed(&mut self, failure: SpawnFailure, reason: String) -> (accepted: bool)
        ensures
            accepted == old(self)@.pending(),
            final(self)@ == old(self)@.spawn_failed(failure, reason@),
    {
        if failure.is_host_exhaustion() {
            self.halt(Halt::HostExhausted)
        } else {
            self.record(StepOutcome::SpawnFailed { reason })
        }
    }

    /// The reports filed so far: one for each of the first commands, in
    /// their order.
    pub fn results(&self) -> (results: &Vec<ExecutionResult>)
        ensures
            results_of(results@) == self@.results,
            self@.in_step(),
    {
        proof {
            use_type_invariant(self);
        }
        &self.results
    }

    /// Ends the run and hands over the reports filed so far, in step
    /// order.
    pub fn into_results(self) -> (results: Vec<ExecutionResult>)
        ensures
            results_of(results@) == self@.results,
            self@.in_step(),
    {
        proof {
            use_type_invariant(&self);
        }
        self.results
    }

    /// Ends the run. Where every command was reported on, hands over the
    /// reports: as many as there are commands, the one on command `i` at
    /// position `i`. Else fails with the reason for which the run was
    /// given up.
    pub fn finish(self) -> (r: Result<Vec<ExecutionResult>, ExecutionError>)
        ensures
            match r {
                Ok(results) => self@.end() == Ok::<Seq<ResultSpec>, ExecutionError>(results_of(results@)),
                Err(e) => self@.end() == Err::<Seq<ResultSpec>, ExecutionError>(e),
            },
            self@.in_step(),
    {
        proof {
            use_type_invariant(&self);
        }
        match self.halted {
            Some(Halt::HostExhausted) => Err(ExecutionError::HostExhausted),
            Some(Halt::Cancelled) => Err(ExecutionError::Cancelled),
            None => {
                if self.results.len() == self.units.len() {
                    Ok(self.results)
                } else {
                    Err(ExecutionError::Cancelled)
                }
            },
        }
    }
}

/// Plans the runs of approved commands.
#[derive(Debug, Clone, Copy)]
pub struct CommandExecutor {
    /// Seconds that each command may run.
    pub timeout_secs: u64,
}

impl Default for CommandExecutor {
    fn default() -> (e: CommandExecutor)
        ensures
            e.timeout_secs == DEFAULT_TIMEOUT_SECS,
    {
        CommandExecutor::new()
    }
}

impl CommandExecutor {
    /// An executor with the default time limit.
    pub fn new() -> (e: CommandExecutor)
        ensures
            e.timeout_secs == DEFAULT_TIMEOUT_SECS,
    {
        CommandExecutor { timeout_secs: DEFAULT_TIMEOUT_SECS }
    }

    /// An executor with a time limit of its own.
    pub fn with_timeout(timeout_secs: u64) -> (e: CommandExecutor)
        ensures
            e.timeout_secs == timeout_secs,
    {
        CommandExecutor { timeout_secs }
    }

    /// The run of a single command, taken as it is.
    pub fn start(&self, command: &str) -> (run: AutomationRun)
        ensures
            run@ == RunSpec::start(seq![command@], self.timeout_secs),
    {
        let units = vec![command.to_owned()];
        assert(strings_of(units@) =~= seq![command@]);
        AutomationRun::new(units, self.timeout_secs)
    }

    /// The run of an automation: of the commands it resolves to, in their
    /// order. Fails when it resolves to none.
    pub fn start_automation(&self, automation: &AutomationResponse) -> (r: Result<
        AutomationRun,
        ExecutionError,
    >)
        ensures
            match r {
                Ok(run) => resolved_units(automation@).len() > 0 && run@ == RunSpec::start(
                    resolved_units(automation@),
                    self.timeout_secs,
                ),
                Err(e) => resolved_units(automation@).len() == 0 && e == ExecutionError::NothingToRun,
            },
    {
        let units = automation.units();
        if units.len() == 0 {
            Err(ExecutionError::NothingToRun)
        } else {
            Ok(AutomationRun::new(units, self.timeout_secs))
        }
    }
}

} // verus!
