//! What holds of every validation, stated over the outcomes that the
//! validator's contracts describe.

use crate::finding::{lemma_worst_level_concat, verdict, worst_level, FindingSpec};
use crate::registry::{
    blacklist_finding, blacklist_findings, has_malformed, lemma_first_malformed,
    lemma_without_unlisted, lists, pattern_hits, with_pattern, without, PatternSpec,
};
use crate::rules::{
    command_rule_specs, response_rule_specs, rule_findings, rule_fires, RuleSpec,
};
use crate::text::{contains, lemma_contains_in_some_line, lemma_lower_contains, lower, split_lines};
use crate::threat::ThreatLevel;
use crate::validator::{
    at_line, command_findings, lemma_blacklist_findings_hold, line_findings, lines_findings,
    outcome, response_findings, script_findings,
};
use vstd::prelude::*;

verus! {

/// A command is clean when no entry matches it and no command rule fires
/// on it.
pub open spec fn is_clean(entries: Seq<PatternSpec>, text: Seq<char>) -> bool {
    &&& forall|k: int| 0 <= k < entries.len() ==> !pattern_hits((#[trigger] entries[k]).pattern, lower(text))
    &&& forall|k: int|
        0 <= k < command_rule_specs().len() ==> !rule_fires(#[trigger] command_rule_specs()[k], lower(text))
}

/// Entries that do not match leave no blacklist finding.
pub proof fn lemma_no_hit_no_finding(entries: Seq<PatternSpec>, text: Seq<char>)
    requires
        forall|k: int| 0 <= k < entries.len() ==> !pattern_hits((#[trigger] entries[k]).pattern, text),
    ensures
        blacklist_findings(entries, text).len() == 0,
    decreases entries.len(),
{
    if entries.len() > 0 {
        let init = entries.drop_last();
        assert forall|k: int| 0 <= k < init.len() implies !pattern_hits(
            (#[trigger] init[k]).pattern,
            text,
        ) by {
            assert(init[k] == entries[k]);
        }
        lemma_no_hit_no_finding(init, text);
        assert(!pattern_hits(entries[entries.len() - 1].pattern, text));
    }
}

/// Rules that do not fire leave no finding.
pub proof fn lemma_no_fire_no_finding(rules: Seq<RuleSpec>, text: Seq<char>)
    requires
        forall|k: int| 0 <= k < rules.len() ==> !rule_fires(#[trigger] rules[k], text),
    ensures
        rule_findings(rules, text).len() == 0,
    decreases rules.len(),
{
    if rules.len() > 0 {
        let init = rules.drop_last();
        assert forall|k: int| 0 <= k < init.len() implies !rule_fires(#[trigger] init[k], text) by {
            assert(init[k] == rules[k]);
        }
        lemma_no_fire_no_finding(init, text);
        assert(!rule_fires(rules[rules.len() - 1], text));
    }
}

/// A command that holds a listed pattern has that pattern among its
/// findings' labels.
pub proof fn lemma_listed_pattern_found(entries: Seq<PatternSpec>, text: Seq<char>, pattern: Seq<char>)
    requires
        lists(entries, pattern),
        contains(text, pattern),
    ensures
        exists|i: int|
            0 <= i < command_findings(entries, text).len() && (#[trigger] command_findings(
                entries,
                text,
            )[i]).label == pattern,
{
    let k = choose|k: int| 0 <= k < entries.len() && (#[trigger] entries[k]).pattern == pattern;
    lemma_lower_contains(text, pattern);
    lemma_blacklist_findings_hold(entries, lower(text), k);
    let listed = blacklist_findings(entries, lower(text));
    let i = choose|i: int| 0 <= i < listed.len() && listed[i] == blacklist_finding(entries[k]);
    assert(command_findings(entries, text)[i] == listed[i]);
}

/// The findings of a script hold those of each of its lines.
pub proof fn lemma_line_findings_kept(entries: Seq<PatternSpec>, lines: Seq<Seq<char>>, n: int, i: int)
    requires
        0 <= n < lines.len(),
        0 <= i < command_findings(entries, lines[n]).len(),
    ensures
        lines_findings(entries, lines).contains(
            at_line(command_findings(entries, lines[n])[i], (n + 1) as nat),
        ),
    decreases lines.len(),
{
    let init = lines.drop_last();
    let a = lines_findings(entries, init);
    let b = line_findings(entries, lines.last(), lines.len());
    let wanted = at_line(command_findings(entries, lines[n])[i], (n + 1) as nat);
    if n == lines.len() - 1 {
        assert(b[i] == wanted);
        assert((a + b)[a.len() + i] == wanted);
    } else {
        assert(init[n] == lines[n]);
        lemma_line_findings_kept(entries, init, n, i);
        let j = choose|j: int| 0 <= j < a.len() && a[j] == wanted;
        assert((a + b)[j] == wanted);
    }
}

/// On a registry without malformed patterns, the outcome of validating a
/// command that holds a listed pattern is a verdict that is not safe and
/// names the pattern among the blocked ones.
pub proof fn law_listed_pattern_blocks_command(
    entries: Seq<PatternSpec>,
    text: Seq<char>,
    pattern: Seq<char>,
)
    requires
        !has_malformed(entries),
        lists(entries, pattern),
        contains(text, pattern),
    ensures
        outcome(entries, command_findings(entries, text)) matches Ok(v) && !v.is_safe
            && v.blocked_patterns.contains(pattern),
{
    lemma_first_malformed(entries);
    lemma_listed_pattern_found(entries, text, pattern);
    let found = command_findings(entries, text);
    let i = choose|i: int| 0 <= i < found.len() && (#[trigger] found[i]).label == pattern;
    assert(verdict(found).blocked_patterns[i] == pattern);
}

/// On a registry without malformed patterns, the outcome of validating a
/// script that holds a listed pattern is a verdict that is not safe and
/// names the pattern among the blocked ones. A script is judged line by
/// line, so this holds of patterns without a line feed.
pub proof fn law_listed_pattern_blocks_script(
    entries: Seq<PatternSpec>,
    text: Seq<char>,
    pattern: Seq<char>,
)
    requires
        !has_malformed(entries),
        lists(entries, pattern),
        contains(text, pattern),
        forall|j: int| 0 <= j < pattern.len() ==> pattern[j] != '\n',
    ensures
        outcome(entries, script_findings(entries, text)) matches Ok(v) && !v.is_safe
            && v.blocked_patterns.contains(pattern),
{
    lemma_first_malformed(entries);
    let lines = split_lines(text);
    lemma_contains_in_some_line(text, pattern);
    let n = choose|n: int| 0 <= n < lines.len() && contains(#[trigger] lines[n], pattern);
    lemma_listed_pattern_found(entries, lines[n], pattern);
    let in_line = command_findings(entries, lines[n]);
    let i = choose|i: int| 0 <= i < in_line.len() && (#[trigger] in_line[i]).label == pattern;
    lemma_line_findings_kept(entries, lines, n, i);
    let found = script_findings(entries, text);
    let j = choose|j: int| 0 <= j < found.len() && found[j] == at_line(in_line[i], (n + 1) as nat);
    assert(verdict(found).blocked_patterns[j] == pattern);
}

/// On a registry without malformed patterns, a clean command is judged
/// safe: its level is `Safe`, and it has neither warnings nor blocked
/// entries.
pub proof fn law_clean_command_is_safe(entries: Seq<PatternSpec>, text: Seq<char>)
    requires
        !has_malformed(entries),
        is_clean(entries, text),
    ensures
        outcome(entries, command_findings(entries, text)) matches Ok(v) && v.is_safe && v.threat_level
            == ThreatLevel::Safe && v.warnings.len() == 0 && v.blocked_patterns.len() == 0,
{
    lemma_first_malformed(entries);
    lemma_no_hit_no_finding(entries, lower(text));
    lemma_no_fire_no_finding(command_rule_specs(), lower(text));
}

/// Clean lines leave a script without findings.
pub proof fn lemma_clean_lines_no_finding(entries: Seq<PatternSpec>, lines: Seq<Seq<char>>)
    requires
        forall|n: int| 0 <= n < lines.len() ==> is_clean(entries, #[trigger] lines[n]),
    ensures
        lines_findings(entries, lines).len() == 0,
    decreases lines.len(),
{
    if lines.len() > 0 {
        let init = lines.drop_last();
        assert forall|n: int| 0 <= n < init.len() implies is_clean(entries, #[trigger] init[n]) by {
            assert(init[n] == lines[n]);
        }
        lemma_clean_lines_no_finding(entries, init);
        assert(is_clean(entries, lines[lines.len() - 1]));
        lemma_no_hit_no_finding(entries, lower(lines.last()));
        lemma_no_fire_no_finding(command_rule_specs(), lower(lines.last()));
    }
}

/// On a registry without malformed patterns, a script whose lines are all
/// clean is judged safe.
pub proof fn law_clean_script_is_safe(entries: Seq<PatternSpec>, text: Seq<char>)
    requires
        !has_malformed(entries),
        forall|n: int|
            0 <= n < split_lines(text).len() ==> is_clean(entries, #[trigger] split_lines(text)[n]),
    ensures
        outcome(entries, script_findings(entries, text)) matches Ok(v) && v.is_safe && v.threat_level
            == ThreatLevel::Safe && v.warnings.len() == 0 && v.blocked_patterns.len() == 0,
{
    lemma_first_malformed(entries);
    lemma_clean_lines_no_finding(entries, split_lines(text));
}

/// Adding a pattern a second time leaves the registry as the first
/// addition left it, and with it every outcome of a validation.
pub proof fn law_add_is_idempotent(entries: Seq<PatternSpec>, pattern: Seq<char>)
    ensures
        lists(with_pattern(entries, pattern), pattern),
        with_pattern(with_pattern(entries, pattern), pattern) == with_pattern(entries, pattern),
        forall|text: Seq<char>|
            outcome(
                with_pattern(with_pattern(entries, pattern), pattern),
                #[trigger] command_findings(with_pattern(with_pattern(entries, pattern), pattern), text),
            ) == outcome(
                with_pattern(entries, pattern),
                command_findings(with_pattern(entries, pattern), text),
            ),
        forall|text: Seq<char>|
            outcome(
                with_pattern(with_pattern(entries, pattern), pattern),
                #[trigger] script_findings(with_pattern(with_pattern(entries, pattern), pattern), text),
            ) == outcome(
                with_pattern(entries, pattern),
                script_findings(with_pattern(entries, pattern), text),
            ),
{
    let once = with_pattern(entries, pattern);
    if !lists(entries, pattern) {
        assert(once[once.len() - 1].pattern == pattern);
    }
}

/// Removing a pattern that is not listed leaves the registry as it was,
/// and with it every outcome of a validation.
pub proof fn law_remove_absent_changes_nothing(entries: Seq<PatternSpec>, pattern: Seq<char>)
    requires
        !lists(entries, pattern),
    ensures
        without(entries, pattern) == entries,
        forall|text: Seq<char>|
            outcome(
                without(entries, pattern),
                #[trigger] command_findings(without(entries, pattern), text),
            ) == outcome(entries, command_findings(entries, text)),
        forall|text: Seq<char>|
            outcome(
                without(entries, pattern),
                #[trigger] script_findings(without(entries, pattern), text),
            ) == outcome(entries, script_findings(entries, text)),
{
    lemma_without_unlisted(entries, pattern);
}

/// The worst level among the lines of a script, each judged as a command;
/// `Safe` for no lines.
pub open spec fn worst_line_level(entries: Seq<PatternSpec>, lines: Seq<Seq<char>>) -> ThreatLevel
    decreases lines.len(),
{
    if lines.len() == 0 {
        ThreatLevel::Safe
    } else {
        worst_line_level(entries, lines.drop_last()).worse(
            worst_level(command_findings(entries, lines.last())),
        )
    }
}

/// Marking findings with their line leaves their worst level as it was.
pub proof fn lemma_worst_level_at_line(findings: Seq<FindingSpec>, n: nat)
    ensures
        worst_level(findings.map_values(|f: FindingSpec| at_line(f, n))) == worst_level(findings),
    decreases findings.len(),
{
    let marked = findings.map_values(|f: FindingSpec| at_line(f, n));
    if findings.len() > 0 {
        lemma_worst_level_at_line(findings.drop_last(), n);
        assert(marked.drop_last() =~= findings.drop_last().map_values(|f: FindingSpec| at_line(f, n)));
    }
}

/// The level of a script is the worst level among its lines.
pub proof fn lemma_lines_level(entries: Seq<PatternSpec>, lines: Seq<Seq<char>>)
    ensures
        worst_level(lines_findings(entries, lines)) == worst_line_level(entries, lines),
    decreases lines.len(),
{
    if lines.len() > 0 {
        lemma_lines_level(entries, lines.drop_last());
        lemma_worst_level_at_line(command_findings(entries, lines.last()), lines.len());
        lemma_worst_level_concat(
            lines_findings(entries, lines.drop_last()),
            line_findings(entries, lines.last(), lines.len()),
        );
    }
}

/// The worst level among the lines is at least the level of each line.
pub proof fn lemma_worst_line_level_bounds(entries: Seq<PatternSpec>, lines: Seq<Seq<char>>, n: int)
    requires
        0 <= n < lines.len(),
    ensures
        worst_level(command_findings(entries, lines[n])).rank() <= worst_line_level(entries, lines).rank(),
    decreases lines.len(),
{
    if n < lines.len() - 1 {
        assert(lines.drop_last()[n] == lines[n]);
        lemma_worst_line_level_bounds(entries, lines.drop_last(), n);
    }
}

/// The verdict on a script is graded by its worst line: its level is the
/// worst of the levels that the lines have when each is judged as a
/// command.
pub proof fn law_script_level_is_worst_line_level(entries: Seq<PatternSpec>, text: Seq<char>)
    ensures
        verdict(script_findings(entries, text)).threat_level == worst_line_level(
            entries,
            split_lines(text),
        ),
        forall|n: int|
            0 <= n < split_lines(text).len() ==> worst_level(
                command_findings(entries, #[trigger] split_lines(text)[n]),
            ).rank() <= verdict(script_findings(entries, text)).threat_level.rank(),
{
    let lines = split_lines(text);
    lemma_lines_level(entries, lines);
    assert forall|n: int| 0 <= n < lines.len() implies worst_level(
        command_findings(entries, #[trigger] lines[n]),
    ).rank() <= worst_line_level(entries, lines).rank() by {
        lemma_worst_line_level_bounds(entries, lines, n);
    }
}

/// A response is judged at least as severely as the same text read as a
/// script: its findings begin with those of the script, and its level is
/// no lower.
pub proof fn law_response_holds_script_findings(entries: Seq<PatternSpec>, text: Seq<char>)
    ensures
        script_findings(entries, text).len() <= response_findings(entries, text).len(),
        response_findings(entries, text).take(script_findings(entries, text).len() as int)
            == script_findings(entries, text),
        verdict(script_findings(entries, text)).threat_level.rank() <= verdict(
            response_findings(entries, text),
        ).threat_level.rank(),
{
    let script = script_findings(entries, text);
    let extra = rule_findings(response_rule_specs(), lower(text));
    assert((script + extra).take(script.len() as int) =~= script);
    lemma_worst_level_concat(script, extra);
}

} // verus!
