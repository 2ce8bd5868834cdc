//! The security validator: grades a command, a script or a whole response
//! against the blacklist and the structural heuristics.

use crate::decimal::{decimal, decimal_string};
use crate::finding::{
    findings_of, lemma_safe_iff_level_safe, verdict, Finding, FindingSpec, ValidationResult,
    ValidationSpec,
};
use crate::registry::{
    blacklist_finding, blacklist_findings, builtin_count, builtin_patterns, each_listed_once,
    first_malformed, lists, never_safe, pattern_hits, with_pattern, without, PatternRegistry, PatternSpec,
};
use crate::rules::{
    command_rule_specs, command_rules, lemma_rule_findings_not_safe, response_rule_specs,
    response_rules, rule_findings, rules_of, scan_rules, Rule,
};
use crate::text::{chars_of, lines_of, lower, lower_vec, split_lines, texts_of};
use crate::threat::ThreatLevel;
use vstd::prelude::*;
use vstd::string::StringExecFns;

verus! {

/// Why a validation could not be carried out.
#[derive(Debug, Clone, Copy, PartialEq, Eq, Structural)]
pub enum ValidationError {
    /// The registry holds a malformed pattern; `index` is the position of
    /// the first one.
    MalformedPattern { index: usize },
}

impl ValidationError {
    /// The text that `message` returns.
    pub open spec fn message_text(self) -> Seq<char> {
        match self {
            ValidationError::MalformedPattern { index } => "Malformed blacklist pattern at position "@
                + decimal(index as nat),
        }
    }

    /// A description for a person.
    pub fn message(&self) -> (s: String)
        ensures
            s@ == self.message_text(),
    {
        match self {
            ValidationError::MalformedPattern { index } => {
                let mut s = "Malformed blacklist pattern at position ".to_owned();
                let position = decimal_string(*index as u64);
                s.append(position.as_str());
                s
            },
        }
    }
}

/// The findings for one command: blacklist matches in registry order, then
/// the heuristics that fire in rule order, all judged on the case-folded
/// text.
pub open spec fn command_findings(entries: Seq<PatternSpec>, text: Seq<char>) -> Seq<FindingSpec> {
    blacklist_findings(entries, lower(text)) + rule_findings(command_rule_specs(), lower(text))
}

/// What is put before the warnings of line `n` of a script.
pub open spec fn line_prefix(n: nat) -> Seq<char> {
    "Line "@ + decimal(n) + ": "@
}

/// A finding as it is reported for line `n` of a script.
pub open spec fn at_line(finding: FindingSpec, n: nat) -> FindingSpec {
    FindingSpec { level: finding.level, label: finding.label, warning: line_prefix(n) + finding.warning }
}

/// The findings for line `n` of a script.
pub open spec fn line_findings(entries: Seq<PatternSpec>, line: Seq<char>, n: nat) -> Seq<FindingSpec> {
    command_findings(entries, line).map_values(|f: FindingSpec| at_line(f, n))
}

/// The findings for a script given by its lines: those of each line, in
/// line order, lines counted from 1.
pub open spec fn lines_findings(entries: Seq<PatternSpec>, lines: Seq<Seq<char>>) -> Seq<FindingSpec>
    decreases lines.len(),
{
    if lines.len() == 0 {
        Seq::<FindingSpec>::empty()
    } else {
        lines_findings(entries, lines.drop_last()) + line_findings(entries, lines.last(), lines.len())
    }
}

/// The findings for a script.
pub open spec fn script_findings(entries: Seq<PatternSpec>, text: Seq<char>) -> Seq<FindingSpec> {
    lines_findings(entries, split_lines(text))
}

/// The findings for a response: those of the response read as a script,
/// then the response heuristics that fire on the whole case-folded text.
pub open spec fn response_findings(entries: Seq<PatternSpec>, text: Seq<char>) -> Seq<FindingSpec> {
    script_findings(entries, text) + rule_findings(response_rule_specs(), lower(text))
}

/// The outcome owed for a registry and the findings of a text: an error
/// that names the first malformed pattern where there is one, else the
/// verdict for the findings.
pub open spec fn outcome(entries: Seq<PatternSpec>, findings: Seq<FindingSpec>) -> Result<
    ValidationSpec,
    ValidationError,
> {
    match first_malformed(entries) {
        Some(i) => Err(ValidationError::MalformedPattern { index: i as usize }),
        None => Ok(verdict(findings)),
    }
}

/// What a validation returned, as the contracts speak of it.
pub open spec fn outcome_of(r: Result<ValidationResult, ValidationError>) -> Result<
    ValidationSpec,
    ValidationError,
> {
    match r {
        Ok(v) => Ok(v@),
        Err(e) => Err(e),
    }
}

/// No finding is graded `Safe`.
pub open spec fn all_graded(findings: Seq<FindingSpec>) -> bool {
    forall|i: int| 0 <= i < findings.len() ==> (#[trigger] findings[i]).level != ThreatLevel::Safe
}

/// The summary of a registry: how many patterns it holds, and how many of
/// them were seeded and added.
pub open spec fn summary_text(entries: Seq<PatternSpec>) -> Seq<char> {
    "Blacklist patterns: "@ + decimal(entries.len()) + " (built-in: "@ + decimal(
        builtin_count(entries),
    ) + ", custom: "@ + decimal((entries.len() - builtin_count(entries)) as nat) + ")"@
}

/// Each blacklist finding stems from an entry that matches.
pub proof fn lemma_blacklist_findings_stem(entries: Seq<PatternSpec>, text: Seq<char>)
    ensures
        forall|i: int|
            0 <= i < blacklist_findings(entries, text).len() ==> exists|k: int|
                0 <= k < entries.len() && pattern_hits(entries[k].pattern, text) && blacklist_finding(
                    entries[k],
                ) == #[trigger] blacklist_findings(entries, text)[i],
    decreases entries.len(),
{
    if entries.len() > 0 {
        let init = entries.drop_last();
        lemma_blacklist_findings_stem(init, text);
        let all = blacklist_findings(entries, text);
        assert forall|i: int| 0 <= i < all.len() implies exists|k: int|
            0 <= k < entries.len() && pattern_hits(entries[k].pattern, text) && blacklist_finding(
                entries[k],
            ) == #[trigger] all[i] by {
            if i < blacklist_findings(init, text).len() {
                let k = choose|k: int|
                    0 <= k < init.len() && pattern_hits(init[k].pattern, text) && blacklist_finding(
                        init[k],
                    ) == blacklist_findings(init, text)[i];
                assert(entries[k] == init[k]);
            } else {
                let k = entries.len() - 1;
                assert(pattern_hits(entries[k].pattern, text) && blacklist_finding(entries[k]) == all[i]);
            }
        }
    }
}

/// Each entry that matches is among the blacklist findings.
pub proof fn lemma_blacklist_findings_hold(entries: Seq<PatternSpec>, text: Seq<char>, k: int)
    requires
        0 <= k < entries.len(),
        pattern_hits(entries[k].pattern, text),
    ensures
        blacklist_findings(entries, text).contains(blacklist_finding(entries[k])),
    decreases entries.len(),
{
    let init = entries.drop_last();
    let all = blacklist_findings(entries, text);
    if k == entries.len() - 1 {
        assert(all[all.len() - 1] == blacklist_finding(entries[k]));
    } else {
        assert(init[k] == entries[k]);
        lemma_blacklist_findings_hold(init, text, k);
        let earlier = blacklist_findings(init, text);
        let i = choose|i: int| 0 <= i < earlier.len() && earlier[i] == blacklist_finding(entries[k]);
        assert(all[i] == earlier[i]);
    }
}

/// The findings of a command on a registry without `Safe` entries are
/// never graded `Safe`.
pub proof fn lemma_command_findings_graded(entries: Seq<PatternSpec>, text: Seq<char>)
    requires
        never_safe(entries),
    ensures
        all_graded(command_findings(entries, text)),
{
    let folded = lower(text);
    lemma_blacklist_findings_stem(entries, folded);
    lemma_rule_findings_not_safe(folded);
    let a = blacklist_findings(entries, folded);
    let b = rule_findings(command_rule_specs(), folded);
    assert forall|i: int| 0 <= i < (a + b).len() implies (#[trigger] (a + b)[i]).level
        != ThreatLevel::Safe by {
        if i < a.len() {
            assert((a + b)[i] == a[i]);
            let k = choose|k: int|
                0 <= k < entries.len() && pattern_hits(entries[k].pattern, folded) && blacklist_finding(
                    entries[k],
                ) == a[i];
            assert(entries[k].level != ThreatLevel::Safe);
        } else {
            assert((a + b)[i] == b[i - a.len()]);
        }
    }
}

/// The findings of a script on a registry without `Safe` entries are
/// never graded `Safe`.
pub proof fn lemma_lines_findings_graded(entries: Seq<PatternSpec>, lines: Seq<Seq<char>>)
    requires
        never_safe(entries),
    ensures
        all_graded(lines_findings(entries, lines)),
    decreases lines.len(),
{
    if lines.len() > 0 {
        lemma_lines_findings_graded(entries, lines.drop_last());
        lemma_command_findings_graded(entries, lines.last());
        let a = lines_findings(entries, lines.drop_last());
        let b = line_findings(entries, lines.last(), lines.len());
        assert forall|i: int| 0 <= i < (a + b).len() implies (#[trigger] (a + b)[i]).level
            != ThreatLevel::Safe by {
            if i < a.len() {
                assert((a + b)[i] == a[i]);
            } else {
                assert((a + b)[i] == b[i - a.len()]);
                assert(b[i - a.len()].level == command_findings(entries, lines.last())[i - a.len()].level);
            }
        }
    }
}

/// The findings of a response on a registry without `Safe` entries are
/// never graded `Safe`.
pub proof fn lemma_response_findings_graded(entries: Seq<PatternSpec>, text: Seq<char>)
    requires
        never_safe(entries),
    ensures
        all_graded(response_findings(entries, text)),
{
    lemma_lines_findings_graded(entries, split_lines(text));
    lemma_rule_findings_not_safe(lower(text));
    let a = script_findings(entries, text);
    let b = rule_findings(response_rule_specs(), lower(text));
    assert forall|i: int| 0 <= i < (a + b).len() implies (#[trigger] (a + b)[i]).level
        != ThreatLevel::Safe by {
        if i < a.len() {
            assert((a + b)[i] == a[i]);
        } else {
            assert((a + b)[i] == b[i - a.len()]);
        }
    }
}

/// The validator. It owns the blacklist; the heuristics are fixed.
pub struct SecurityValidator {
    registry: PatternRegistry,
}

impl View for SecurityValidator {
    type V = Seq<PatternSpec>;

    closed spec fn view(&self) -> Seq<PatternSpec> {
        self.registry@
    }
}

impl Default for SecurityValidator {
    fn default() -> (v: SecurityValidator)
        ensures
            v@ == builtin_patterns(),
    {
        SecurityValidator::new()
    }
}

impl SecurityValidator {
    /// A validator whose blacklist holds the seeded patterns.
    pub fn new() -> (v: SecurityValidator)
        ensures
            v@ == builtin_patterns(),
    {
        SecurityValidator { registry: PatternRegistry::new() }
    }

    /// Recalls what holds of every validator's blacklist: each pattern is
    /// listed once and no entry is graded `Safe`.
    pub fn recall_soundness(&self)
        ensures
            each_listed_once(self@),
            never_safe(self@),
    {
        self.registry.recall_soundness();
    }

    /// Appends the findings for one command to `out`.
    fn scan_command(&self, rules: &Vec<Rule>, text: &Vec<char>, out: &mut Vec<Finding>)
        requires
            rules_of(rules@) == command_rule_specs(),
        ensures
            findings_of(final(out)@) == findings_of(old(out)@) + command_findings(self@, text@),
    {
        let folded = lower_vec(text);
        self.registry.scan(&folded, out);
        scan_rules(rules, &folded, out);
        assert(findings_of(out@) =~= findings_of(old(out)@) + command_findings(self@, text@));
    }

    /// Appends the findings for the lines of a script to `out`.
    fn scan_lines(&self, lines: &Vec<Vec<char>>, out: &mut Vec<Finding>)
        ensures
            findings_of(final(out)@) == findings_of(old(out)@) + lines_findings(self@, texts_of(lines@)),
    {
        let rules = command_rules();
        let ghost all = texts_of(lines@);
        let mut n: usize = 0;
        assert(findings_of(out@) + lines_findings(self@, all.take(0)) =~= findings_of(out@));
        while n < lines.len()
            invariant
                n <= lines.len(),
                all == texts_of(lines@),
                rules_of(rules@) == command_rule_specs(),
                findings_of(out@) == findings_of(old(out)@) + lines_findings(self@, all.take(n as int)),
            decreases lines.len() - n,
        {
            let mut found: Vec<Finding> = Vec::new();
            self.scan_command(&rules, &lines[n], &mut found);
            assert(findings_of(found@) =~= command_findings(self@, all[n as int]));
            let mut prefix = "Line ".to_owned();
            let number = decimal_string((n + 1) as u64);
            prefix.append(number.as_str());
            prefix.append(": ");
            let ghost start = findings_of(out@);
            let ghost here = line_findings(self@, all[n as int], (n + 1) as nat);
            let mut k: usize = 0;
            while k < found.len()
                invariant
                    k <= found.len(),
                    prefix@ == line_prefix((n + 1) as nat),
                    findings_of(found@) == command_findings(self@, all[n as int]),
                    here == line_findings(self@, all[n as int], (n + 1) as nat),
                    findings_of(out@) == start + here.take(k as int),
                decreases found.len() - k,
            {
                let f = &found[k];
                let mut warning = prefix.clone();
                warning.append(f.warning.as_str());
                let ghost before = out@;
                let moved = Finding { level: f.level, label: f.label.clone(), warning };
                out.push(moved);
                proof {
                    assert(findings_of(found@)[k as int] == f@);
                    assert(moved@ == at_line(f@, (n + 1) as nat));
                    assert(here[k as int] == moved@);
                    assert(findings_of(out@) =~= findings_of(before).push(moved@));
                    assert(here.take(k + 1) =~= here.take(k as int).push(moved@));
                }
                k += 1;
            }
            proof {
                assert(here.take(found.len() as int) =~= here);
                assert(all.take(n + 1).drop_last() =~= all.take(n as int));
                assert(all.take(n + 1).last() == all[n as int]);
                assert(findings_of(out@) =~= findings_of(old(out)@) + lines_findings(
                    self@,
                    all.take(n + 1),
                ));
            }
            n += 1;
        }
        assert(all.take(lines.len() as int) =~= all);
    }

    /// The error owed when the registry holds a malformed pattern.
    fn check_registry(&self) -> (r: Option<ValidationError>)
        ensures
            match r {
                Some(e) => first_malformed(self@) matches Some(i) && e
                    == (ValidationError::MalformedPattern { index: i as usize }),
                None => first_malformed(self@) is None,
            },
    {
        match self.registry.malformed() {
            Some(index) => Some(ValidationError::MalformedPattern { index }),
            None => None,
        }
    }

    /// Grades a single command.
    ///
    /// Fails when the registry holds a malformed pattern. Otherwise the
    /// result is the verdict for the findings of the command: it is safe
    /// exactly when nothing matched, which is exactly when its level is
    /// `Safe`.
    pub fn validate_command(&self, command: &str) -> (r: Result<ValidationResult, ValidationError>)
        ensures
            outcome_of(r) == outcome(self@, command_findings(self@, command@)),
            r matches Ok(v) ==> (v.is_safe <==> v.threat_level == ThreatLevel::Safe),
    {
        if let Some(e) = self.check_registry() {
            return Err(e);
        }
        let rules = command_rules();
        let text = chars_of(command);
        let mut found: Vec<Finding> = Vec::new();
        self.scan_command(&rules, &text, &mut found);
        self.recall_soundness();
        proof {
            assert(findings_of(found@) =~= command_findings(self@, command@));
            lemma_command_findings_graded(self@, command@);
            lemma_safe_iff_level_safe(command_findings(self@, command@));
        }
        Ok(ValidationResult::from_findings(&found))
    }

    /// Grades a script, line by line.
    ///
    /// Fails when the registry holds a malformed pattern. Otherwise the
    /// result is the verdict for the findings of all lines, in line order,
    /// each warning marked with its line.
    pub fn validate_script(&self, script: &str) -> (r: Result<ValidationResult, ValidationError>)
        ensures
            outcome_of(r) == outcome(self@, script_findings(self@, script@)),
            r matches Ok(v) ==> (v.is_safe <==> v.threat_level == ThreatLevel::Safe),
    {
        if let Some(e) = self.check_registry() {
            return Err(e);
        }
        let text = chars_of(script);
        let lines = lines_of(&text);
        let mut found: Vec<Finding> = Vec::new();
        self.scan_lines(&lines, &mut found);
        self.recall_soundness();
        proof {
            assert(findings_of(found@) =~= script_findings(self@, script@));
            lemma_lines_findings_graded(self@, split_lines(script@));
            lemma_safe_iff_level_safe(script_findings(self@, script@));
        }
        Ok(ValidationResult::from_findings(&found))
    }

    /// Grades a whole response, prose included: every line is read as a
    /// command, and the response is searched for attempts to override
    /// instructions or to gain privileges.
    pub fn validate_ai_response(&self, response: &str) -> (r: Result<
        ValidationResult,
        ValidationError,
    >)
        ensures
            outcome_of(r) == outcome(self@, response_findings(self@, response@)),
            r matches Ok(v) ==> (v.is_safe <==> v.threat_level == ThreatLevel::Safe),
    {
        if let Some(e) = self.check_registry() {
            return Err(e);
        }
        let text = chars_of(response);
        let lines = lines_of(&text);
        let mut found: Vec<Finding> = Vec::new();
        self.scan_lines(&lines, &mut found);
        let folded = lower_vec(&text);
        let rules = response_rules();
        scan_rules(&rules, &folded, &mut found);
        self.recall_soundness();
        proof {
            assert(findings_of(found@) =~= response_findings(self@, response@));
            lemma_response_findings_graded(self@, response@);
            lemma_safe_iff_level_safe(response_findings(self@, response@));
        }
        Ok(ValidationResult::from_findings(&found))
    }

    /// Adds a pattern to the blacklist as a custom entry graded `High`.
    /// Adding a pattern that is listed changes nothing.
    pub fn add_blacklist_pattern(&mut self, pattern: &str)
        ensures
            final(self)@ == with_pattern(old(self)@, pattern@),
    {
        self.registry.add(pattern);
    }

    /// Takes a pattern out of the blacklist. Returns whether it was
    /// listed; the other entries stay as they are.
    pub fn remove_blacklist_pattern(&mut self, pattern: &str) -> (removed: bool)
        ensures
            removed == lists(old(self)@, pattern@),
            final(self)@ == without(old(self)@, pattern@),
    {
        self.registry.remove(pattern)
    }

    /// Whether the blacklist holds exactly this pattern.
    pub fn has_pattern(&self, pattern: &str) -> (r: bool)
        ensures
            r == lists(self@, pattern@),
    {
        self.registry.contains(pattern)
    }

    /// Number of patterns in the blacklist.
    pub fn pattern_count(&self) -> (n: usize)
        ensures
            n == self@.len(),
    {
        self.registry.len()
    }

    /// A one-line summary of the configuration.
    pub fn get_config_summary(&self) -> (s: String)
        ensures
            s@ == summary_text(self@),
    {
        let total = self.registry.len();
        let builtin = self.registry.count_builtin();
        let mut s = "Blacklist patterns: ".to_owned();
        s.append(decimal_string(total as u64).as_str());
        s.append(" (built-in: ");
        s.append(decimal_string(builtin as u64).as_str());
        s.append(", custom: ");
        s.append(decimal_string((total - builtin) as u64).as_str());
        s.append(")");
        s
    }
}

} // verus!
