//! Findings, and the verdict that a list of findings adds up to.

use crate::text::strings_of;
use crate::threat::ThreatLevel;
use vstd::prelude::*;

verus! {

/// One triggered check, as the contracts speak of it.
pub struct FindingSpec {
    /// Severity that the check contributes.
    pub level: ThreatLevel,
    /// The blacklist pattern or the rule identifier that matched.
    pub label: Seq<char>,
    /// The explanation shown to a person.
    pub warning: Seq<char>,
}

/// One triggered check.
pub struct Finding {
    pub level: ThreatLevel,
    pub label: String,
    pub warning: String,
}

impl View for Finding {
    type V = FindingSpec;

    open spec fn view(&self) -> FindingSpec {
        FindingSpec { level: self.level, label: self.label@, warning: self.warning@ }
    }
}

/// The findings held by a vector, in order.
pub open spec fn findings_of(v: Seq<Finding>) -> Seq<FindingSpec> {
    v.map_values(|f: Finding| f@)
}

/// The most severe level among the findings; `Safe` when there are none.
pub open spec fn worst_level(findings: Seq<FindingSpec>) -> ThreatLevel
    decreases findings.len(),
{
    if findings.len() == 0 {
        ThreatLevel::Safe
    } else {
        worst_level(findings.drop_last()).worse(findings.last().level)
    }
}

/// What a `ValidationResult` holds, as the contracts speak of it.
pub struct ValidationSpec {
    pub is_safe: bool,
    pub threat_level: ThreatLevel,
    pub warnings: Seq<Seq<char>>,
    pub blocked_patterns: Seq<Seq<char>>,
}

/// The verdict for a list of findings: safe exactly when the list is empty,
/// graded by the worst finding, with one warning and one blocked entry per
/// finding, in detection order.
pub open spec fn verdict(findings: Seq<FindingSpec>) -> ValidationSpec {
    ValidationSpec {
        is_safe: findings.len() == 0,
        threat_level: worst_level(findings),
        warnings: findings.map_values(|f: FindingSpec| f.warning),
        blocked_patterns: findings.map_values(|f: FindingSpec| f.label),
    }
}

/// The graded, explained outcome of one validation.
#[derive(Debug)]
pub struct ValidationResult {
    pub is_safe: bool,
    pub threat_level: ThreatLevel,
    pub warnings: Vec<String>,
    pub blocked_patterns: Vec<String>,
}

impl View for ValidationResult {
    type V = ValidationSpec;

    open spec fn view(&self) -> ValidationSpec {
        ValidationSpec {
            is_safe: self.is_safe,
            threat_level: self.threat_level,
            warnings: strings_of(self.warnings@),
            blocked_patterns: strings_of(self.blocked_patterns@),
        }
    }
}

/// The worst level is at least as severe as every finding, and it is the
/// level of one of them unless there are none.
pub proof fn lemma_worst_level_bounds(findings: Seq<FindingSpec>)
    ensures
        forall|i: int|
            0 <= i < findings.len() ==> findings[i].level.rank() <= worst_level(findings).rank(),
        findings.len() > 0 ==> exists|i: int|
            0 <= i < findings.len() && findings[i].level == worst_level(findings),
        findings.len() == 0 ==> worst_level(findings) == ThreatLevel::Safe,
    decreases findings.len(),
{
    if findings.len() > 0 {
        let init = findings.drop_last();
        lemma_worst_level_bounds(init);
        assert forall|i: int| 0 <= i < findings.len() implies findings[i].level.rank()
            <= worst_level(findings).rank() by {
            if i < init.len() {
                assert(init[i] == findings[i]);
            }
        }
        if worst_level(findings) == findings.last().level {
            assert(findings[findings.len() - 1].level == worst_level(findings));
        } else {
            let i = choose|i: int| 0 <= i < init.len() && init[i].level == worst_level(init);
            assert(findings[i].level == worst_level(findings));
        }
    }
}

/// When no finding is graded `Safe`, a verdict is safe exactly when its
/// level is `Safe`.
pub proof fn lemma_safe_iff_level_safe(findings: Seq<FindingSpec>)
    requires
        forall|i: int| 0 <= i < findings.len() ==> findings[i].level != ThreatLevel::Safe,
    ensures
        verdict(findings).is_safe <==> verdict(findings).threat_level == ThreatLevel::Safe,
{
    lemma_worst_level_bounds(findings);
}

/// The worst level of two lists put together is the worse of their worst
/// levels.
pub proof fn lemma_worst_level_concat(a: Seq<FindingSpec>, b: Seq<FindingSpec>)
    ensures
        worst_level(a + b) == worst_level(a).worse(worst_level(b)),
    decreases b.len(),
{
    if b.len() == 0 {
        assert(a + b =~= a);
    } else {
        lemma_worst_level_concat(a, b.drop_last());
        assert((a + b).drop_last() =~= a + b.drop_last());
        assert((a + b).last() == b.last());
    }
}

impl ValidationResult {
    /// Adds up a list of findings.
    pub fn from_findings(findings: &Vec<Finding>) -> (r: ValidationResult)
        ensures
            r@ == verdict(findings_of(findings@)),
    {
        let mut level = ThreatLevel::Safe;
        let mut warnings: Vec<String> = Vec::new();
        let mut blocked: Vec<String> = Vec::new();
        let mut i: usize = 0;
        let ghost all = findings_of(findings@);
        while i < findings.len()
            invariant
                i <= findings.len(),
                all == findings_of(findings@),
                level == worst_level(all.take(i as int)),
                strings_of(warnings@) == all.take(i as int).map_values(|f: FindingSpec| f.warning),
                strings_of(blocked@) == all.take(i as int).map_values(|f: FindingSpec| f.label),
            decreases findings.len() - i,
        {
            let f = &findings[i];
            proof {
                assert(all.take(i + 1).drop_last() =~= all.take(i as int));
                assert(all.take(i + 1).last() == f@);
            }
            let ghost old_warnings = warnings@;
            let ghost old_blocked = blocked@;
            level = level.escalate(f.level);
            warnings.push(f.warning.clone());
            blocked.push(f.label.clone());
            i += 1;
            proof {
                assert(strings_of(warnings@) =~= strings_of(old_warnings).push(f.warning@));
                assert(strings_of(blocked@) =~= strings_of(old_blocked).push(f.label@));
                assert(all.take(i as int) =~= all.take(i - 1).push(f@));
                assert(strings_of(warnings@) =~= all.take(i as int).map_values(
                    |f: FindingSpec| f.warning,
                ));
                assert(strings_of(blocked@) =~= all.take(i as int).map_values(
                    |f: FindingSpec| f.label,
                ));
            }
        }
        assert(all.take(findings.len() as int) =~= all);
        ValidationResult {
            is_safe: findings.len() == 0,
            threat_level: level,
            warnings,
            blocked_patterns: blocked,
        }
    }
}

} // verus!
