//! The severity scale that every gating decision is made on.

use std::cmp::Ordering;
use vstd::prelude::*;
use vstd::std_specs::cmp::PartialOrdSpecImpl;

verus! {

/// How dangerous a piece of text was judged to be, from harmless to
/// destructive. The variants are totally ordered by `rank`.
#[derive(Clone, Copy, Debug, PartialEq, Eq, Structural, Hash, Ord)]
pub enum ThreatLevel {
    Safe,
    Low,
    Medium,
    High,
    Critical,
}

impl ThreatLevel {
    /// Position of the level on the scale: `Safe` is 0, `Critical` is 4.
    pub open spec fn rank(self) -> nat {
        match self {
            ThreatLevel::Safe => 0,
            ThreatLevel::Low => 1,
            ThreatLevel::Medium => 2,
            ThreatLevel::High => 3,
            ThreatLevel::Critical => 4,
        }
    }

    /// The more severe of two levels.
    pub open spec fn worse(self, other: ThreatLevel) -> ThreatLevel {
        if self.rank() >= other.rank() {
            self
        } else {
            other
        }
    }

    /// The lowercase name under which a level is reported to a front end.
    pub open spec fn name(self) -> Seq<char> {
        match self {
            ThreatLevel::Safe => "safe"@,
            ThreatLevel::Low => "low"@,
            ThreatLevel::Medium => "medium"@,
            ThreatLevel::High => "high"@,
            ThreatLevel::Critical => "critical"@,
        }
    }

    /// The capitalised name used in denial messages.
    pub open spec fn title(self) -> Seq<char> {
        match self {
            ThreatLevel::Safe => "Safe"@,
            ThreatLevel::Low => "Low"@,
            ThreatLevel::Medium => "Medium"@,
            ThreatLevel::High => "High"@,
            ThreatLevel::Critical => "Critical"@,
        }
    }

    /// The rank of the level as a number.
    pub fn severity(self) -> (r: u8)
        ensures
            r == self.rank(),
    {
        match self {
            ThreatLevel::Safe => 0,
            ThreatLevel::Low => 1,
            ThreatLevel::Medium => 2,
            ThreatLevel::High => 3,
            ThreatLevel::Critical => 4,
        }
    }

    /// True when `self` is no more severe than `limit`.
    pub fn at_most(self, limit: ThreatLevel) -> (r: bool)
        ensures
            r == (self.rank() <= limit.rank()),
    {
        self.severity() <= limit.severity()
    }

    /// The more severe of two levels.
    pub fn escalate(self, other: ThreatLevel) -> (r: ThreatLevel)
        ensures
            r == self.worse(other),
    {
        if self.severity() >= other.severity() {
            self
        } else {
            other
        }
    }

    /// The lowercase name of the level.
    pub fn as_str(self) -> (r: &'static str)
        ensures
            r@ == self.name(),
    {
        match self {
            ThreatLevel::Safe => "safe",
            ThreatLevel::Low => "low",
            ThreatLevel::Medium => "medium",
            ThreatLevel::High => "high",
            ThreatLevel::Critical => "critical",
        }
    }

    /// The capitalised name of the level.
    pub fn as_title(self) -> (r: &'static str)
        ensures
            r@ == self.title(),
    {
        match self {
            ThreatLevel::Safe => "Safe",
            ThreatLevel::Low => "Low",
            ThreatLevel::Medium => "Medium",
            ThreatLevel::High => "High",
            ThreatLevel::Critical => "Critical",
        }
    }
}

impl PartialOrd for ThreatLevel {
    fn partial_cmp(&self, other: &ThreatLevel) -> (r: Option<Ordering>) {
        let a = self.severity();
        let b = other.severity();
        if a < b {
            Some(Ordering::Less)
        } else if a == b {
            Some(Ordering::Equal)
        } else {
            Some(Ordering::Greater)
        }
    }
}

impl PartialOrdSpecImpl for ThreatLevel {
    open spec fn obeys_partial_cmp_spec() -> bool {
        true
    }

    open spec fn partial_cmp_spec(&self, other: &ThreatLevel) -> Option<Ordering> {
        if self.rank() < other.rank() {
            Some(Ordering::Less)
        } else if self.rank() == other.rank() {
            Some(Ordering::Equal)
        } else {
            Some(Ordering::Greater)
        }
    }
}

/// The scale is a total order: two levels share a rank only when they are
/// the same level, and any two levels are comparable.
pub proof fn law_levels_are_totally_ordered(a: ThreatLevel, b: ThreatLevel)
    ensures
        a.rank() == b.rank() <==> a == b,
        a.rank() <= b.rank() || b.rank() <= a.rank(),
        a.rank() <= 4,
{
}

/// The names tell the levels apart: two levels share a lowercase name, or
/// a capitalised one, only when they are the same level.
pub proof fn law_names_tell_levels_apart(a: ThreatLevel, b: ThreatLevel)
    ensures
        a.name() == b.name() <==> a == b,
        a.title() == b.title() <==> a == b,
{
    reveal_strlit("safe");
    reveal_strlit("low");
    reveal_strlit("medium");
    reveal_strlit("high");
    reveal_strlit("critical");
    reveal_strlit("Safe");
    reveal_strlit("Low");
    reveal_strlit("Medium");
    reveal_strlit("High");
    reveal_strlit("Critical");
    // Only `safe` and `high` have the same length.
    assert("safe"@[0] != "high"@[0]);
    assert("Safe"@[0] != "High"@[0]);
    assert(a.name().len() == b.name().len() && a != b ==> a.name()[0] != b.name()[0]);
    assert(a.title().len() == b.title().len() && a != b ==> a.title()[0] != b.title()[0]);
}

} // verus!
