//! Structural heuristics: fixed rules that look for risky shapes in a text,
//! whatever the blacklist holds.

use crate::finding::{findings_of, Finding, FindingSpec};
use crate::text::{chars_of, contains, contains_word, find, find_word};
use crate::threat::ThreatLevel;
use vstd::prelude::*;

verus! {

/// A piece of text that a rule looks for, as the contracts speak of it.
pub struct NeedleSpec {
    pub text: Seq<char>,
    /// Whether the text must stand as a word of its own.
    pub whole_word: bool,
}

/// A heuristic, as the contracts speak of it. It fires on a text that holds
/// one of its triggers and, when it has qualifiers, one of those too.
pub struct RuleSpec {
    pub id: Seq<char>,
    pub warning: Seq<char>,
    pub level: ThreatLevel,
    pub triggers: Seq<NeedleSpec>,
    pub qualifiers: Seq<NeedleSpec>,
}

/// A piece of text that a rule looks for.
pub struct Needle {
    pub text: &'static str,
    pub whole_word: bool,
}

/// A heuristic: an identifier, what it warns of, how severe it is, and
/// the needles it looks for.
pub struct Rule {
    pub id: &'static str,
    pub warning: &'static str,
    pub level: ThreatLevel,
    pub triggers: Vec<Needle>,
    pub qualifiers: Vec<Needle>,
}

impl View for Needle {
    type V = NeedleSpec;

    open spec fn view(&self) -> NeedleSpec {
        NeedleSpec { text: self.text@, whole_word: self.whole_word }
    }
}

/// The needles held by a vector, in order.
pub open spec fn needles_of(v: Seq<Needle>) -> Seq<NeedleSpec> {
    v.map_values(|n: Needle| n@)
}

impl View for Rule {
    type V = RuleSpec;

    open spec fn view(&self) -> RuleSpec {
        RuleSpec {
            id: self.id@,
            warning: self.warning@,
            level: self.level,
            triggers: needles_of(self.triggers@),
            qualifiers: needles_of(self.qualifiers@),
        }
    }
}

/// The rules held by a vector, in order.
pub open spec fn rules_of(v: Seq<Rule>) -> Seq<RuleSpec> {
    v.map_values(|r: Rule| r@)
}

/// A needle that must stand as a word of its own.
pub open spec fn word(text: Seq<char>) -> NeedleSpec {
    NeedleSpec { text, whole_word: true }
}

/// A needle that may stand anywhere.
pub open spec fn part(text: Seq<char>) -> NeedleSpec {
    NeedleSpec { text, whole_word: false }
}

/// Whether a needle is found in a text: as a word of its own where it
/// asks for that, else anywhere.
pub open spec fn needle_hits(n: NeedleSpec, text: Seq<char>) -> bool {
    if n.whole_word {
        contains_word(text, n.text)
    } else {
        contains(text, n.text)
    }
}

/// Whether one of the needles is found in a text.
pub open spec fn any_hits(needles: Seq<NeedleSpec>, text: Seq<char>) -> bool {
    exists|i: int| 0 <= i < needles.len() && needle_hits(#[trigger] needles[i], text)
}

/// Whether a rule fires on a case-folded text.
pub open spec fn rule_fires(rule: RuleSpec, text: Seq<char>) -> bool {
    any_hits(rule.triggers, text) && (rule.qualifiers.len() == 0 || any_hits(rule.qualifiers, text))
}

/// The finding that a rule reports when it fires.
pub open spec fn rule_finding(rule: RuleSpec) -> FindingSpec {
    FindingSpec { level: rule.level, label: rule.id, warning: rule.warning }
}

/// The findings of the rules that fire on a case-folded text, in rule order.
pub open spec fn rule_findings(rules: Seq<RuleSpec>, text: Seq<char>) -> Seq<FindingSpec>
    decreases rules.len(),
{
    if rules.len() == 0 {
        Seq::<FindingSpec>::empty()
    } else {
        let earlier = rule_findings(rules.drop_last(), text);
        if rule_fires(rules.last(), text) {
            earlier.push(rule_finding(rules.last()))
        } else {
            earlier
        }
    }
}

/// The rules applied to every command.
pub open spec fn command_rule_specs() -> Seq<RuleSpec> {
    seq![
        RuleSpec {
            id: "destructive-recursion"@,
            warning: "Recursive deletion of files or directories"@,
            level: ThreatLevel::High,
            triggers: seq![
                word("rm"@),
                word("rmdir"@),
                word("del"@),
                word("rd"@),
                word("erase"@),
                word("remove-item"@),
            ],
            qualifiers: seq![part("-r"@), part("-fr"@), part("/s"@)],
        },
        RuleSpec {
            id: "privilege-escalation"@,
            warning: "Command runs with elevated privileges"@,
            level: ThreatLevel::Medium,
            triggers: seq![
                word("sudo"@),
                word("su"@),
                word("doas"@),
                word("runas"@),
                word("pkexec"@),
            ],
            qualifiers: Seq::<NeedleSpec>::empty(),
        },
        RuleSpec {
            id: "network-transfer"@,
            warning: "Command transfers data over the network"@,
            level: ThreatLevel::Low,
            triggers: seq![
                word("curl"@),
                word("wget"@),
                word("nc"@),
                word("ncat"@),
                word("netcat"@),
                word("scp"@),
                word("ftp"@),
                word("iwr"@),
                word("invoke-webrequest"@),
                word("invoke-restmethod"@),
            ],
            qualifiers: Seq::<NeedleSpec>::empty(),
        },
        RuleSpec {
            id: "network-exfiltration"@,
            warning: "Local data may be sent to a remote host"@,
            level: ThreatLevel::High,
            triggers: seq![
                word("curl"@),
                word("wget"@),
                word("nc"@),
                word("ncat"@),
                word("netcat"@),
                word("scp"@),
                word("invoke-webrequest"@),
                word("invoke-restmethod"@),
            ],
            qualifiers: seq![
                part("--data"@),
                part("-d @"@),
                part("--upload-file"@),
                part("-infile"@),
                part("-method post"@),
                part("/etc/passwd"@),
                part("/etc/shadow"@),
                part(".ssh/"@),
            ],
        },
        RuleSpec {
            id: "remote-code-eval"@,
            warning: "Remote content is handed to an interpreter"@,
            level: ThreatLevel::Critical,
            triggers: seq![
                word("curl"@),
                word("wget"@),
                word("iwr"@),
                word("invoke-webrequest"@),
                word("invoke-restmethod"@),
                word("downloadstring"@),
            ],
            qualifiers: seq![
                part("| sh"@),
                part("|sh"@),
                part("| bash"@),
                part("|bash"@),
                part("| python"@),
                part("|python"@),
                word("iex"@),
                word("invoke-expression"@),
            ],
        },
    ]
}

/// The rules applied, beside the command rules, to a response taken whole.
pub open spec fn response_rule_specs() -> Seq<RuleSpec> {
    seq![
        RuleSpec {
            id: "prompt-injection"@,
            warning: "Response tries to override earlier instructions"@,
            level: ThreatLevel::High,
            triggers: seq![
                part("ignore previous instructions"@),
                part("ignore all previous"@),
                part("ignore prior instructions"@),
                part("disregard previous"@),
                part("disregard all prior"@),
                part("forget your instructions"@),
                part("override safety"@),
                part("bypass security"@),
            ],
            qualifiers: Seq::<NeedleSpec>::empty(),
        },
        RuleSpec {
            id: "escalation-request"@,
            warning: "Response asks for elevated privileges"@,
            level: ThreatLevel::High,
            triggers: seq![
                part("run as administrator"@),
                part("run as root"@),
                part("elevate privileges"@),
                part("grant yourself"@),
                part("with admin rights"@),
                part("disable the validator"@),
            ],
            qualifiers: Seq::<NeedleSpec>::empty(),
        },
    ]
}

/// No rule reports a finding graded `Safe`.
pub proof fn lemma_rule_findings_not_safe(text: Seq<char>)
    ensures
        forall|i: int|
            0 <= i < rule_findings(command_rule_specs(), text).len() ==> rule_findings(
                command_rule_specs(),
                text,
            )[i].level != ThreatLevel::Safe,
        forall|i: int|
            0 <= i < rule_findings(response_rule_specs(), text).len() ==> rule_findings(
                response_rule_specs(),
                text,
            )[i].level != ThreatLevel::Safe,
{
    lemma_findings_keep_levels(command_rule_specs(), text);
    lemma_findings_keep_levels(response_rule_specs(), text);
}

/// Every finding carries the level of one of the rules.
pub proof fn lemma_findings_keep_levels(rules: Seq<RuleSpec>, text: Seq<char>)
    ensures
        forall|i: int|
            0 <= i < rule_findings(rules, text).len() ==> exists|k: int|
                0 <= k < rules.len() && rules[k].level == (#[trigger] rule_findings(rules, text)[i]).level,
    decreases rules.len(),
{
    if rules.len() > 0 {
        let init = rules.drop_last();
        lemma_findings_keep_levels(init, text);
        assert forall|i: int| 0 <= i < rule_findings(rules, text).len() implies exists|k: int|
            0 <= k < rules.len() && rules[k].level == (#[trigger] rule_findings(rules, text)[i]).level by {
            if i < rule_findings(init, text).len() {
                let k = choose|k: int|
                    0 <= k < init.len() && init[k].level == rule_findings(init, text)[i].level;
                assert(rules[k] == init[k]);
            } else {
                assert(rules[rules.len() - 1].level == rule_findings(rules, text)[i].level);
            }
        }
    }
}

fn whole(text: &'static str) -> (n: Needle)
    ensures
        n@ == word(text@),
{
    Needle { text, whole_word: true }
}

fn anywhere(text: &'static str) -> (n: Needle)
    ensures
        n@ == part(text@),
{
    Needle { text, whole_word: false }
}

/// Builds the rules applied to every command.
pub fn command_rules() -> (rules: Vec<Rule>)
    ensures
        rules_of(rules@) == command_rule_specs(),
{
    let recursion = Rule {
        id: "destructive-recursion",
        warning: "Recursive deletion of files or directories",
        level: ThreatLevel::High,
        triggers: vec![
            whole("rm"),
            whole("rmdir"),
            whole("del"),
            whole("rd"),
            whole("erase"),
            whole("remove-item"),
        ],
        qualifiers: vec![anywhere("-r"), anywhere("-fr"), anywhere("/s")],
    };
    let escalation = Rule {
        id: "privilege-escalation",
        warning: "Command runs with elevated privileges",
        level: ThreatLevel::Medium,
        triggers: vec![whole("sudo"), whole("su"), whole("doas"), whole("runas"), whole("pkexec")],
        qualifiers: Vec::new(),
    };
    let transfer = Rule {
        id: "network-transfer",
        warning: "Command transfers data over the network",
        level: ThreatLevel::Low,
        triggers: vec![
            whole("curl"),
            whole("wget"),
            whole("nc"),
            whole("ncat"),
            whole("netcat"),
            whole("scp"),
            whole("ftp"),
            whole("iwr"),
            whole("invoke-webrequest"),
            whole("invoke-restmethod"),
        ],
        qualifiers: Vec::new(),
    };
    let exfiltration = Rule {
        id: "network-exfiltration",
        warning: "Local data may be sent to a remote host",
        level: ThreatLevel::High,
        triggers: vec![
            whole("curl"),
            whole("wget"),
            whole("nc"),
            whole("ncat"),
            whole("netcat"),
            whole("scp"),
            whole("invoke-webrequest"),
            whole("invoke-restmethod"),
        ],
        qualifiers: vec![
            anywhere("--data"),
            anywhere("-d @"),
            anywhere("--upload-file"),
            anywhere("-infile"),
            anywhere("-method post"),
            anywhere("/etc/passwd"),
            anywhere("/etc/shadow"),
            anywhere(".ssh/"),
        ],
    };
    let remote_eval = Rule {
        id: "remote-code-eval",
        warning: "Remote content is handed to an interpreter",
        level: ThreatLevel::Critical,
        triggers: vec![
            whole("curl"),
            whole("wget"),
            whole("iwr"),
            whole("invoke-webrequest"),
            whole("invoke-restmethod"),
            whole("downloadstring"),
        ],
        qualifiers: vec![
            anywhere("| sh"),
            anywhere("|sh"),
            anywhere("| bash"),
            anywhere("|bash"),
            anywhere("| python"),
            anywhere("|python"),
            whole("iex"),
            whole("invoke-expression"),
        ],
    };
    proof {
        let specs = command_rule_specs();
        assert(recursion@.triggers =~= specs[0].triggers);
        assert(recursion@.qualifiers =~= specs[0].qualifiers);
        assert(escalation@.triggers =~= specs[1].triggers);
        assert(escalation@.qualifiers =~= specs[1].qualifiers);
        assert(transfer@.triggers =~= specs[2].triggers);
        assert(transfer@.qualifiers =~= specs[2].qualifiers);
        assert(exfiltration@.triggers =~= specs[3].triggers);
        assert(exfiltration@.qualifiers =~= specs[3].qualifiers);
        assert(remote_eval@.triggers =~= specs[4].triggers);
        assert(remote_eval@.qualifiers =~= specs[4].qualifiers);
    }
    let rules = vec![recursion, escalation, transfer, exfiltration, remote_eval];
    assert(rules_of(rules@) =~= command_rule_specs());
    rules
}

/// Builds the rules applied to a response taken whole.
pub fn response_rules() -> (rules: Vec<Rule>)
    ensures
        rules_of(rules@) == response_rule_specs(),
{
    let injection = Rule {
        id: "prompt-injection",
        warning: "Response tries to override earlier instructions",
        level: ThreatLevel::High,
        triggers: vec![
            anywhere("ignore previous instructions"),
            anywhere("ignore all previous"),
            anywhere("ignore prior instructions"),
            anywhere("disregard previous"),
            anywhere("disregard all prior"),
            anywhere("forget your instructions"),
            anywhere("override safety"),
            anywhere("bypass security"),
        ],
        qualifiers: Vec::new(),
    };
    let escalation = Rule {
        id: "escalation-request",
        warning: "Response asks for elevated privileges",
        level: ThreatLevel::High,
        triggers: vec![
            anywhere("run as administrator"),
            anywhere("run as root"),
            anywhere("elevate privileges"),
            anywhere("grant yourself"),
            anywhere("with admin rights"),
            anywhere("disable the validator"),
        ],
        qualifiers: Vec::new(),
    };
    proof {
        let specs = response_rule_specs();
        assert(injection@.triggers =~= specs[0].triggers);
        assert(injection@.qualifiers =~= specs[0].qualifiers);
        assert(escalation@.triggers =~= specs[1].triggers);
        assert(escalation@.qualifiers =~= specs[1].qualifiers);
    }
    let rules = vec![injection, escalation];
    assert(rules_of(rules@) =~= response_rule_specs());
    rules
}

/// Whether one needle is found in a case-folded text.
pub fn needle_found(needle: &Needle, text: &Vec<char>) -> (r: bool)
    ensures
        r == needle_hits(needle@, text@),
{
    let chars = chars_of(needle.text);
    if needle.whole_word {
        find_word(text, &chars)
    } else {
        find(text, &chars)
    }
}

/// Whether any of the needles is found in a case-folded text.
pub fn any_found(needles: &Vec<Needle>, text: &Vec<char>) -> (r: bool)
    ensures
        r == any_hits(needles_of(needles@), text@),
{
    let mut i: usize = 0;
    while i < needles.len()
        invariant
            i <= needles.len(),
            forall|k: int| 0 <= k < i ==> !needle_hits(#[trigger] needles_of(needles@)[k], text@),
        decreases needles.len() - i,
    {
        if needle_found(&needles[i], text) {
            assert(needle_hits(needles_of(needles@)[i as int], text@));
            return true;
        }
        i += 1;
    }
    false
}

/// Whether a rule fires on a case-folded text.
pub fn fires(rule: &Rule, text: &Vec<char>) -> (r: bool)
    ensures
        r == rule_fires(rule@, text@),
{
    any_found(&rule.triggers, text) && (rule.qualifiers.len() == 0 || any_found(
        &rule.qualifiers,
        text,
    ))
}

/// Appends to `out` the findings of the rules that fire on a case-folded
/// text, in rule order.
pub fn scan_rules(rules: &Vec<Rule>, text: &Vec<char>, out: &mut Vec<Finding>)
    ensures
        findings_of(final(out)@) == findings_of(old(out)@) + rule_findings(rules_of(rules@), text@),
{
    let ghost all = rules_of(rules@);
    let mut i: usize = 0;
    assert(findings_of(out@) + rule_findings(all.take(0), text@) =~= findings_of(out@));
    while i < rules.len()
        invariant
            i <= rules.len(),
            all == rules_of(rules@),
            findings_of(out@) == findings_of(old(out)@) + rule_findings(all.take(i as int), text@),
        decreases rules.len() - i,
    {
        let rule = &rules[i];
        proof {
            assert(all.take(i + 1).drop_last() =~= all.take(i as int));
            assert(all.take(i + 1).last() == rule@);
        }
        if fires(rule, text) {
            let ghost before = out@;
            let finding = Finding {
                level: rule.level,
                label: rule.id.to_owned(),
                warning: rule.warning.to_owned(),
            };
            out.push(finding);
            proof {
                assert(finding@ == rule_finding(rule@));
                assert(findings_of(out@) =~= findings_of(before).push(finding@));
                assert(findings_of(out@) =~= findings_of(old(out)@) + rule_findings(
                    all.take(i + 1),
                    text@,
                ));
            }
        }
        i += 1;
    }
    assert(all.take(rules.len() as int) =~= all);
}

} // verus!
