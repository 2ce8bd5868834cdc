//! Why a plan never holds more than was validated: each command that an
//! automation resolves to is, up to white space at its ends, a line of
//! the text that the validator judged.

use crate::automation_plan;
use crate::executor::{resolved_units, units_of_lines, validation_text, AutomationSpec};
use crate::finding::{lemma_worst_level_bounds, worst_level, FindingSpec};
use crate::laws::law_script_level_is_worst_line_level;
use crate::registry::{blacklist_finding, blacklist_findings, pattern_hits, PatternSpec};
use crate::rules::{
    command_rule_specs, needle_hits, rule_finding, rule_findings, rule_fires, NeedleSpec, RuleSpec,
};
use crate::text::{
    first_line_len, is_space, is_word_char, join, leading_spaces, lemma_first_line_len,
    lemma_first_line_len_is, lemma_leading_spaces_bounds, lemma_trailing_spaces_bounds, lower,
    occurs_at, split_lines, trailing_spaces, trim, word_at,
};
use crate::threat::ThreatLevel;
use crate::validator::{
    command_findings, lemma_blacklist_findings_hold, lemma_blacklist_findings_stem, script_findings,
};
use vstd::prelude::*;

verus! {

/// `part` is the piece `[from, to)` of `whole`, and no word character of
/// `whole` touches it from outside.
pub open spec fn is_free_part(whole: Seq<char>, part: Seq<char>, from: int, to: int) -> bool {
    &&& 0 <= from <= to <= whole.len()
    &&& part == whole.subrange(from, to)
    &&& (from == 0 || !is_word_char(whole[from - 1]))
    &&& (to == whole.len() || !is_word_char(whole[to]))
}

/// What a needle hits in a free part of a text, it hits in the text.
pub proof fn lemma_hit_in_part(needle: NeedleSpec, whole: Seq<char>, part: Seq<char>, from: int, to: int)
    requires
        is_free_part(whole, part, from, to),
        needle_hits(needle, part),
    ensures
        needle_hits(needle, whole),
{
    let m = needle.text.len() as int;
    if needle.whole_word {
        let i = choose|i: int| word_at(part, needle.text, i);
        assert(whole.subrange(from + i, from + i + m) =~= part.subrange(i, i + m));
        if i > 0 {
            assert(part[i - 1] == whole[from + i - 1]);
        }
        if i + m < part.len() {
            assert(part[i + m] == whole[from + i + m]);
        }
        assert(word_at(whole, needle.text, from + i));
    } else {
        let i = choose|i: int| occurs_at(part, needle.text, i);
        assert(whole.subrange(from + i, from + i + m) =~= part.subrange(i, i + m));
        assert(occurs_at(whole, needle.text, from + i));
    }
}

/// A rule that fires on a free part of a text fires on the text.
pub proof fn lemma_fires_in_part(rule: RuleSpec, whole: Seq<char>, part: Seq<char>, from: int, to: int)
    requires
        is_free_part(whole, part, from, to),
        rule_fires(rule, part),
    ensures
        rule_fires(rule, whole),
{
    let t = choose|i: int| 0 <= i < rule.triggers.len() && needle_hits(#[trigger] rule.triggers[i], part);
    lemma_hit_in_part(rule.triggers[t], whole, part, from, to);
    if rule.qualifiers.len() > 0 {
        let q = choose|i: int|
            0 <= i < rule.qualifiers.len() && needle_hits(#[trigger] rule.qualifiers[i], part);
        lemma_hit_in_part(rule.qualifiers[q], whole, part, from, to);
    }
}

/// A trimmed text, case-folded, is a free part of the case-folded text.
pub proof fn lemma_trimmed_is_free_part(text: Seq<char>) -> (span: (int, int))
    ensures
        is_free_part(lower(text), lower(trim(text)), span.0, span.1),
{
    lemma_leading_spaces_bounds(text);
    let from = leading_spaces(text) as int;
    let rest = text.skip(from);
    lemma_trailing_spaces_bounds(rest);
    let to = text.len() - trailing_spaces(rest);
    assert(trim(text) =~= text.subrange(from, to));
    assert(lower(trim(text)) =~= lower(text).subrange(from, to));
    if from > 0 {
        assert(is_space(text[from - 1]));
    }
    if to < text.len() {
        assert(rest[to - from] == text[to]);
        assert(is_space(text[to]));
    }
    (from, to)
}

/// Each rule finding stems from a rule that fires.
pub proof fn lemma_rule_findings_stem(rules: Seq<RuleSpec>, text: Seq<char>)
    ensures
        forall|i: int|
            0 <= i < rule_findings(rules, text).len() ==> exists|k: int|
                0 <= k < rules.len() && rule_fires(rules[k], text) && rule_finding(rules[k])
                    == #[trigger] rule_findings(rules, text)[i],
    decreases rules.len(),
{
    if rules.len() > 0 {
        let init = rules.drop_last();
        lemma_rule_findings_stem(init, text);
        let all = rule_findings(rules, text);
        assert forall|i: int| 0 <= i < all.len() implies exists|k: int|
            0 <= k < rules.len() && rule_fires(rules[k], text) && rule_finding(rules[k])
                == #[trigger] all[i] by {
            if i < rule_findings(init, text).len() {
                let k = choose|k: int|
                    0 <= k < init.len() && rule_fires(init[k], text) && rule_finding(init[k])
                        == rule_findings(init, text)[i];
                assert(rules[k] == init[k]);
            } else {
                let k = rules.len() - 1;
                assert(rule_fires(rules[k], text) && rule_finding(rules[k]) == all[i]);
            }
        }
    }
}

/// Each rule that fires is among the rule findings.
pub proof fn lemma_rule_findings_hold(rules: Seq<RuleSpec>, text: Seq<char>, k: int)
    requires
        0 <= k < rules.len(),
        rule_fires(rules[k], text),
    ensures
        rule_findings(rules, text).contains(rule_finding(rules[k])),
    decreases rules.len(),
{
    let init = rules.drop_last();
    let all = rule_findings(rules, text);
    if k == rules.len() - 1 {
        assert(all[all.len() - 1] == rule_finding(rules[k]));
    } else {
        assert(init[k] == rules[k]);
        lemma_rule_findings_hold(init, text, k);
        let earlier = rule_findings(init, text);
        let i = choose|i: int| 0 <= i < earlier.len() && earlier[i] == rule_finding(rules[k]);
        assert(all[i] == earlier[i]);
    }
}

/// Every finding of a trimmed line is a finding of the line.
pub proof fn lemma_trimmed_findings_kept(entries: Seq<PatternSpec>, line: Seq<char>)
    ensures
        forall|i: int|
            0 <= i < command_findings(entries, trim(line)).len() ==> command_findings(entries, line).contains(
                #[trigger] command_findings(entries, trim(line))[i],
            ),
{
    let span = lemma_trimmed_is_free_part(line);
    let part = lower(trim(line));
    let whole = lower(line);
    let rules = command_rule_specs();
    let a = blacklist_findings(entries, part);
    let b = rule_findings(rules, part);
    let in_line = command_findings(entries, line);
    lemma_blacklist_findings_stem(entries, part);
    lemma_rule_findings_stem(rules, part);
    assert forall|i: int| 0 <= i < (a + b).len() implies in_line.contains(#[trigger] (a + b)[i]) by {
        if i < a.len() {
            let k = choose|k: int|
                0 <= k < entries.len() && pattern_hits(entries[k].pattern, part) && blacklist_finding(
                    entries[k],
                ) == a[i];
            let needle = NeedleSpec { text: lower(entries[k].pattern), whole_word: false };
            lemma_hit_in_part(needle, whole, part, span.0, span.1);
            lemma_blacklist_findings_hold(entries, whole, k);
            let listed = blacklist_findings(entries, whole);
            let j = choose|j: int| 0 <= j < listed.len() && listed[j] == blacklist_finding(entries[k]);
            assert(in_line[j] == listed[j]);
        } else {
            let f = b[i - a.len()];
            let k = choose|k: int|
                0 <= k < rules.len() && rule_fires(rules[k], part) && rule_finding(rules[k]) == f;
            lemma_fires_in_part(rules[k], whole, part, span.0, span.1);
            lemma_rule_findings_hold(rules, whole, k);
            let fired = rule_findings(rules, whole);
            let j = choose|j: int| 0 <= j < fired.len() && fired[j] == rule_finding(rules[k]);
            assert(in_line[blacklist_findings(entries, whole).len() + j] == fired[j]);
        }
    }
}

/// Findings that are all among other findings are not graded worse than
/// those.
pub proof fn lemma_worst_level_of_part(part: Seq<FindingSpec>, whole: Seq<FindingSpec>)
    requires
        forall|i: int| 0 <= i < part.len() ==> whole.contains(#[trigger] part[i]),
    ensures
        worst_level(part).rank() <= worst_level(whole).rank(),
{
    lemma_worst_level_bounds(part);
    lemma_worst_level_bounds(whole);
    if part.len() > 0 {
        let i = choose|i: int| 0 <= i < part.len() && part[i].level == worst_level(part);
        assert(whole.contains(part[i]));
        let j = choose|j: int| 0 <= j < whole.len() && whole[j] == part[i];
        assert(whole[j].level.rank() <= worst_level(whole).rank());
    }
}

/// Each command of a script is one of its lines, trimmed.
pub proof fn lemma_unit_is_trimmed_line(lines: Seq<Seq<char>>, k: int) -> (n: int)
    requires
        0 <= k < units_of_lines(lines).len(),
    ensures
        0 <= n < lines.len(),
        units_of_lines(lines)[k] == trim(lines[n]),
    decreases lines.len(),
{
    let init = lines.drop_last();
    if k < units_of_lines(init).len() {
        let n = lemma_unit_is_trimmed_line(init, k);
        assert(init[n] == lines[n]);
        n
    } else {
        lines.len() - 1
    }
}

/// A text without line feed is its own single line.
pub proof fn lemma_single_line(text: Seq<char>)
    requires
        forall|j: int| 0 <= j < text.len() ==> text[j] != '\n',
    ensures
        split_lines(text) == seq![text],
{
    lemma_first_line_len_is(text, text.len() as int);
}

/// Appending a line feed and a text without line feed appends one line.
pub proof fn lemma_split_lines_push(text: Seq<char>, last: Seq<char>)
    requires
        forall|j: int| 0 <= j < last.len() ==> last[j] != '\n',
    ensures
        split_lines(text + seq!['\n'] + last) == split_lines(text).push(last),
    decreases text.len(),
{
    let all = text + seq!['\n'] + last;
    lemma_first_line_len(text);
    let k = first_line_len(text) as int;
    assert forall|j: int| 0 <= j < k implies all[j] != '\n' by {
        assert(all[j] == text[j]);
    }
    if k >= text.len() {
        assert(all[k] == '\n');
        lemma_first_line_len_is(all, k);
        assert(all.take(k) =~= text);
        assert(all.skip(k + 1) =~= last);
        lemma_single_line(last);
        assert(split_lines(all) =~= seq![text].push(last));
    } else {
        assert(all[k] == text[k]);
        lemma_first_line_len_is(all, k);
        assert(all.take(k) =~= text.take(k));
        assert(all.skip(k + 1) =~= text.skip(k + 1) + seq!['\n'] + last);
        lemma_split_lines_push(text.skip(k + 1), last);
        assert(split_lines(all) =~= split_lines(text).push(last));
    }
}

/// Commands without line feeds, written one per line, are the lines of
/// what was written.
pub proof fn lemma_lines_of_joined(commands: Seq<Seq<char>>)
    requires
        commands.len() > 0,
        forall|i: int, j: int|
            0 <= i < commands.len() && 0 <= j < commands[i].len() ==> (#[trigger] commands[i][j]) != '\n',
    ensures
        split_lines(join(commands, "\n"@)) == commands,
    decreases commands.len(),
{
    reveal_strlit("\n");
    assert("\n"@ =~= seq!['\n']);
    if commands.len() == 1 {
        lemma_single_line(commands[0]);
        assert(seq![commands[0]] =~= commands);
    } else {
        let init = commands.drop_last();
        assert forall|i: int, j: int| 0 <= i < init.len() && 0 <= j < init[i].len() implies (
        #[trigger] init[i][j]) != '\n' by {
            assert(init[i] == commands[i]);
        }
        lemma_lines_of_joined(init);
        let last = commands.last();
        assert forall|j: int| 0 <= j < last.len() implies last[j] != '\n' by {
            assert(commands[commands.len() - 1][j] != '\n');
        }
        lemma_split_lines_push(join(init, "\n"@), last);
        assert(init.push(last) =~= commands);
    }
}

/// No command that an automation resolves to is graded worse, judged by
/// itself, than the text that is validated for the automation. So a plan
/// that passed a threshold holds no command that would not pass it. This
/// holds of scripts, and of command lists whose commands are free of line
/// feeds.
pub proof fn law_planned_commands_were_validated(
    entries: Seq<PatternSpec>,
    automation: AutomationSpec,
    text: Seq<char>,
    k: int,
)
    requires
        validation_text(automation) == Some(text),
        0 <= k < resolved_units(automation).len(),
        automation.script is None ==> forall|i: int, j: int|
            0 <= i < automation.commands->0.len() && 0 <= j < automation.commands->0[i].len() ==> (
            #[trigger] automation.commands->0[i][j]) != '\n',
    ensures
        worst_level(command_findings(entries, resolved_units(automation)[k])).rank() <= worst_level(
            script_findings(entries, text),
        ).rank(),
{
    let unit = resolved_units(automation)[k];
    let lines = split_lines(text);
    law_script_level_is_worst_line_level(entries, text);
    match automation.script {
        Some(script) => {
            let n = lemma_unit_is_trimmed_line(lines, k);
            lemma_trimmed_findings_kept(entries, lines[n]);
            lemma_worst_level_of_part(
                command_findings(entries, trim(lines[n])),
                command_findings(entries, lines[n]),
            );
        },
        None => {
            let commands = automation.commands->0;
            lemma_lines_of_joined(commands);
            assert(lines[k] == unit);
        },
    }
}

/// Every command of a run that `execute_automation` planned is, judged by
/// itself, no more severe than `Low`. This holds of scripts, and of
/// command lists whose commands are free of line feeds.
pub proof fn law_approved_plan_passes_threshold(
    entries: Seq<PatternSpec>,
    automation: AutomationSpec,
    k: int,
)
    requires
        automation_plan(entries, automation) is Ok,
        0 <= k < automation_plan(entries, automation)->Ok_0.units.len(),
        automation.script is None ==> forall|i: int, j: int|
            0 <= i < automation.commands->0.len() && 0 <= j < automation.commands->0[i].len() ==> (
            #[trigger] automation.commands->0[i][j]) != '\n',
    ensures
        worst_level(command_findings(entries, automation_plan(entries, automation)->Ok_0.units[k])).rank()
            <= ThreatLevel::Low.rank(),
{
    let text = validation_text(automation)->0;
    law_planned_commands_were_validated(entries, automation, text, k);
}

} // verus!
