//! The blacklist: an ordered set of patterns, each with a severity, that
//! can be extended and cut back at run time.

use crate::finding::{findings_of, Finding, FindingSpec};
use crate::text::{contains, find, lower, lower_chars_of};
use crate::threat::ThreatLevel;
use vstd::prelude::*;
use vstd::string::StringExecFns;

verus! {

/// A blacklist entry, as the contracts speak of it.
pub struct PatternSpec {
    pub pattern: Seq<char>,
    pub level: ThreatLevel,
    /// Whether the entry was seeded at construction.
    pub builtin: bool,
}

/// A blacklist entry.
pub struct PatternEntry {
    pub pattern: String,
    pub level: ThreatLevel,
    pub builtin: bool,
}

impl View for PatternEntry {
    type V = PatternSpec;

    open spec fn view(&self) -> PatternSpec {
        PatternSpec { pattern: self.pattern@, level: self.level, builtin: self.builtin }
    }
}

/// The entries held by a vector, in order.
pub open spec fn entries_of(v: Seq<PatternEntry>) -> Seq<PatternSpec> {
    v.map_values(|e: PatternEntry| e@)
}

/// The entry under which a pattern added at run time is kept.
pub open spec fn custom_entry(pattern: Seq<char>) -> PatternSpec {
    PatternSpec { pattern, level: ThreatLevel::High, builtin: false }
}

/// The entry under which a seeded pattern is kept.
pub open spec fn builtin_entry(pattern: Seq<char>, level: ThreatLevel) -> PatternSpec {
    PatternSpec { pattern, level, builtin: true }
}

/// Whether some entry holds exactly this pattern.
pub open spec fn lists(entries: Seq<PatternSpec>, pattern: Seq<char>) -> bool {
    exists|i: int| 0 <= i < entries.len() && (#[trigger] entries[i]).pattern == pattern
}

/// No pattern is held twice.
pub open spec fn each_listed_once(entries: Seq<PatternSpec>) -> bool {
    forall|i: int, j: int|
        0 <= i < j < entries.len() ==> (#[trigger] entries[i]).pattern != (#[trigger] entries[j]).pattern
}

/// No entry is graded `Safe`.
pub open spec fn never_safe(entries: Seq<PatternSpec>) -> bool {
    forall|i: int| 0 <= i < entries.len() ==> (#[trigger] entries[i]).level != ThreatLevel::Safe
}

/// The entries with every entry for `pattern` taken out, the rest in order.
pub open spec fn without(entries: Seq<PatternSpec>, pattern: Seq<char>) -> Seq<PatternSpec>
    decreases entries.len(),
{
    if entries.len() == 0 {
        entries
    } else if entries.last().pattern == pattern {
        without(entries.drop_last(), pattern)
    } else {
        without(entries.drop_last(), pattern).push(entries.last())
    }
}

/// The entries after `pattern` was added: unchanged when it is listed,
/// else with a custom entry at the end.
pub open spec fn with_pattern(entries: Seq<PatternSpec>, pattern: Seq<char>) -> Seq<PatternSpec> {
    if lists(entries, pattern) {
        entries
    } else {
        entries.push(custom_entry(pattern))
    }
}

/// How many entries were seeded at construction.
pub open spec fn builtin_count(entries: Seq<PatternSpec>) -> nat
    decreases entries.len(),
{
    if entries.len() == 0 {
        0
    } else {
        builtin_count(entries.drop_last()) + if entries.last().builtin {
            1nat
        } else {
            0nat
        }
    }
}

/// A pattern is malformed when it is empty: it would match every text.
pub open spec fn is_malformed(pattern: Seq<char>) -> bool {
    pattern.len() == 0
}

/// Whether some entry holds a malformed pattern.
pub open spec fn has_malformed(entries: Seq<PatternSpec>) -> bool {
    exists|i: int| 0 <= i < entries.len() && is_malformed((#[trigger] entries[i]).pattern)
}

/// Index of the first malformed entry, if there is one.
pub open spec fn first_malformed(entries: Seq<PatternSpec>) -> Option<int>
    decreases entries.len(),
{
    if entries.len() == 0 {
        None
    } else {
        match first_malformed(entries.drop_last()) {
            Some(i) => Some(i),
            None => if is_malformed(entries.last().pattern) {
                Some(entries.len() - 1)
            } else {
                None
            },
        }
    }
}

/// `first_malformed` names a malformed entry that no malformed entry
/// precedes, and names none only where none is malformed.
pub proof fn lemma_first_malformed(entries: Seq<PatternSpec>)
    ensures
        match first_malformed(entries) {
            Some(i) => {
                &&& 0 <= i < entries.len()
                &&& is_malformed(entries[i].pattern)
                &&& forall|k: int| 0 <= k < i ==> !is_malformed((#[trigger] entries[k]).pattern)
            },
            None => !has_malformed(entries),
        },
    decreases entries.len(),
{
    if entries.len() > 0 {
        let init = entries.drop_last();
        lemma_first_malformed(init);
        match first_malformed(init) {
            Some(i) => {
                assert(init[i] == entries[i]);
                assert forall|k: int| 0 <= k < i implies !is_malformed((#[trigger] entries[k]).pattern) by {
                    assert(init[k] == entries[k]);
                }
            },
            None => {
                assert forall|k: int| 0 <= k < init.len() implies !is_malformed(
                    (#[trigger] entries[k]).pattern,
                ) by {
                    assert(init[k] == entries[k]);
                    assert(!is_malformed(init[k].pattern));
                }
            },
        }
    }
}

/// The first malformed entry is the one that no malformed entry precedes.
pub proof fn lemma_first_malformed_is(entries: Seq<PatternSpec>, i: int)
    requires
        0 <= i < entries.len(),
        is_malformed(entries[i].pattern),
        forall|k: int| 0 <= k < i ==> !is_malformed((#[trigger] entries[k]).pattern),
    ensures
        first_malformed(entries) == Some(i),
{
    lemma_first_malformed(entries);
    match first_malformed(entries) {
        Some(j) => {
            if j < i {
                assert(!is_malformed(entries[j].pattern));
            }
        },
        None => {
            assert(is_malformed(entries[i].pattern));
        },
    }
}

/// Whether a pattern matches a case-folded text: the text holds the
/// case-folded pattern.
pub open spec fn pattern_hits(pattern: Seq<char>, text: Seq<char>) -> bool {
    contains(text, lower(pattern))
}

/// The finding that a matching entry reports.
pub open spec fn blacklist_finding(entry: PatternSpec) -> FindingSpec {
    FindingSpec {
        level: entry.level,
        label: entry.pattern,
        warning: "Blocked pattern: "@ + entry.pattern,
    }
}

/// The findings of the entries that match a case-folded text, in registry
/// order.
pub open spec fn blacklist_findings(entries: Seq<PatternSpec>, text: Seq<char>) -> Seq<FindingSpec>
    decreases entries.len(),
{
    if entries.len() == 0 {
        Seq::<FindingSpec>::empty()
    } else {
        let earlier = blacklist_findings(entries.drop_last(), text);
        if pattern_hits(entries.last().pattern, text) {
            earlier.push(blacklist_finding(entries.last()))
        } else {
            earlier
        }
    }
}

/// The patterns that every registry starts with.
pub open spec fn builtin_patterns() -> Seq<PatternSpec> {
    seq![
        builtin_entry("rm -rf /"@, ThreatLevel::Critical),
        builtin_entry("rm -rf ~"@, ThreatLevel::Critical),
        builtin_entry("rm -rf *"@, ThreatLevel::Critical),
        builtin_entry("mkfs"@, ThreatLevel::Critical),
        builtin_entry("dd if="@, ThreatLevel::High),
        builtin_entry(":(){"@, ThreatLevel::Critical),
        builtin_entry("> /dev/sda"@, ThreatLevel::Critical),
        builtin_entry("format c:"@, ThreatLevel::Critical),
        builtin_entry("del /f /s /q"@, ThreatLevel::High),
        builtin_entry("rd /s /q"@, ThreatLevel::High),
        builtin_entry("remove-item -recurse -force"@, ThreatLevel::High),
        builtin_entry("reg delete"@, ThreatLevel::High),
        builtin_entry("shutdown"@, ThreatLevel::Medium),
        builtin_entry("chmod 777"@, ThreatLevel::Medium),
    ]
}

/// Taking out a pattern that is not listed changes nothing.
pub proof fn lemma_without_unlisted(entries: Seq<PatternSpec>, pattern: Seq<char>)
    requires
        !lists(entries, pattern),
    ensures
        without(entries, pattern) == entries,
    decreases entries.len(),
{
    if entries.len() > 0 {
        let init = entries.drop_last();
        assert(entries[entries.len() - 1].pattern != pattern);
        assert forall|i: int| 0 <= i < init.len() implies (#[trigger] init[i]).pattern != pattern by {
            assert(entries[i] == init[i]);
        }
        lemma_without_unlisted(init, pattern);
        assert(init.push(entries.last()) =~= entries);
    }
}

/// Where each pattern is listed once, taking a pattern out removes the one
/// entry that holds it.
pub proof fn lemma_without_removes_one(entries: Seq<PatternSpec>, pattern: Seq<char>, i: int)
    requires
        each_listed_once(entries),
        0 <= i < entries.len(),
        entries[i].pattern == pattern,
    ensures
        without(entries, pattern) == entries.remove(i),
    decreases entries.len(),
{
    let init = entries.drop_last();
    let last = entries.len() - 1;
    if i == last {
        assert forall|k: int| 0 <= k < init.len() implies (#[trigger] init[k]).pattern != pattern by {
            assert(init[k] == entries[k]);
            assert(entries[k].pattern != entries[last].pattern);
        }
        lemma_without_unlisted(init, pattern);
        assert(entries.remove(i) =~= init);
    } else {
        assert(entries[i].pattern != entries[last].pattern);
        assert forall|a: int, b: int| 0 <= a < b < init.len() implies (#[trigger] init[a]).pattern != (
        #[trigger] init[b]).pattern by {
            assert(init[a] == entries[a] && init[b] == entries[b]);
        }
        lemma_without_removes_one(init, pattern, i);
        assert(entries.remove(i) =~= init.remove(i).push(entries.last()));
    }
}

/// What is left after a pattern was taken out does not list it, and lists
/// every other pattern exactly when it was listed before.
pub proof fn law_removal_spares_other_patterns(
    entries: Seq<PatternSpec>,
    pattern: Seq<char>,
    other: Seq<char>,
)
    ensures
        !lists(without(entries, pattern), pattern),
        other != pattern ==> (lists(without(entries, pattern), other) <==> lists(entries, other)),
    decreases entries.len(),
{
    if entries.len() > 0 {
        let init = entries.drop_last();
        let last = entries.last();
        law_removal_spares_other_patterns(init, pattern, other);
        let rest = without(init, pattern);
        let all = without(entries, pattern);
        if lists(all, pattern) {
            let k = choose|k: int| 0 <= k < all.len() && (#[trigger] all[k]).pattern == pattern;
            if last.pattern != pattern && k < rest.len() {
                assert(rest[k] == all[k]);
            }
        }
        if other != pattern {
            if lists(all, other) {
                let k = choose|k: int| 0 <= k < all.len() && (#[trigger] all[k]).pattern == other;
                if last.pattern != pattern && k == rest.len() {
                    assert(entries[entries.len() - 1].pattern == other);
                } else {
                    assert(rest[k].pattern == other);
                    let m = choose|m: int| 0 <= m < init.len() && (#[trigger] init[m]).pattern == other;
                    assert(entries[m] == init[m]);
                }
            }
            if lists(entries, other) {
                let k = choose|k: int| 0 <= k < entries.len() && (#[trigger] entries[k]).pattern == other;
                if k == entries.len() - 1 {
                    assert(all[all.len() - 1].pattern == other);
                } else {
                    assert(init[k] == entries[k]);
                    let m = choose|m: int| 0 <= m < rest.len() && (#[trigger] rest[m]).pattern == other;
                    if last.pattern != pattern {
                        assert(all[m] == rest[m]);
                    }
                }
            }
        }
    }
}

/// The blacklist.
pub struct PatternRegistry {
    entries: Vec<PatternEntry>,
}

impl View for PatternRegistry {
    type V = Seq<PatternSpec>;

    closed spec fn view(&self) -> Seq<PatternSpec> {
        entries_of(self.entries@)
    }
}

impl PatternRegistry {
    #[verifier::type_invariant]
    spec fn sound(&self) -> bool {
        each_listed_once(entries_of(self.entries@)) && never_safe(entries_of(self.entries@))
    }

    /// A registry without entries.
    pub fn empty() -> (r: PatternRegistry)
        ensures
            r@ == Seq::<PatternSpec>::empty(),
    {
        let r = PatternRegistry { entries: Vec::new() };
        assert(r@ =~= Seq::<PatternSpec>::empty());
        r
    }

    /// Number of entries.
    pub fn len(&self) -> (n: usize)
        ensures
            n == self@.len(),
    {
        self.entries.len()
    }

    /// Recalls what holds of every registry: each pattern is listed once
    /// and no entry is graded `Safe`.
    pub fn recall_soundness(&self)
        ensures
            each_listed_once(self@),
            never_safe(self@),
    {
        proof {
            use_type_invariant(self);
        }
    }

    /// Index of the entry that holds exactly `pattern`.
    pub fn position(&self, pattern: &String) -> (r: Option<usize>)
        ensures
            match r {
                Some(i) => i < self@.len() && self@[i as int].pattern == pattern@,
                None => !lists(self@, pattern@),
            },
    {
        let mut i: usize = 0;
        while i < self.entries.len()
            invariant
                i <= self.entries.len(),
                forall|k: int| 0 <= k < i ==> (#[trigger] self@[k]).pattern != pattern@,
            decreases self.entries.len() - i,
        {
            if self.entries[i].pattern == *pattern {
                return Some(i);
            }
            i += 1;
        }
        None
    }

    /// Whether some entry holds exactly `pattern`.
    pub fn contains(&self, pattern: &str) -> (r: bool)
        ensures
            r == lists(self@, pattern@),
    {
        let owned = pattern.to_owned();
        self.position(&owned).is_some()
    }

    /// The registry that every validator starts with.
    pub fn new() -> (r: PatternRegistry)
        ensures
            r@ == builtin_patterns(),
    {
        let entries = vec![
            seeded("rm -rf /", ThreatLevel::Critical),
            seeded("rm -rf ~", ThreatLevel::Critical),
            seeded("rm -rf *", ThreatLevel::Critical),
            seeded("mkfs", ThreatLevel::Critical),
            seeded("dd if=", ThreatLevel::High),
            seeded(":(){", ThreatLevel::Critical),
            seeded("> /dev/sda", ThreatLevel::Critical),
            seeded("format c:", ThreatLevel::Critical),
            seeded("del /f /s /q", ThreatLevel::High),
            seeded("rd /s /q", ThreatLevel::High),
            seeded("remove-item -recurse -force", ThreatLevel::High),
            seeded("reg delete", ThreatLevel::High),
            seeded("shutdown", ThreatLevel::Medium),
            seeded("chmod 777", ThreatLevel::Medium),
        ];
        proof {
            assert(entries_of(entries@) =~= builtin_patterns());
            lemma_builtin_patterns_sound();
        }
        PatternRegistry { entries }
    }

    /// Adds a pattern as a custom entry, unless it is listed already.
    pub fn add(&mut self, pattern: &str)
        ensures
            final(self)@ == with_pattern(old(self)@, pattern@),
    {
        let owned = pattern.to_owned();
        if self.position(&owned).is_none() {
            proof {
                use_type_invariant(&*self);
            }
            let mut entries: Vec<PatternEntry> = Vec::new();
            core::mem::swap(&mut self.entries, &mut entries);
            entries.push(PatternEntry { pattern: owned, level: ThreatLevel::High, builtin: false });
            proof {
                assert(entries_of(entries@) =~= old(self)@.push(custom_entry(pattern@)));
            }
            self.entries = entries;
        }
    }

    /// Takes a pattern out. Returns whether it was listed.
    pub fn remove(&mut self, pattern: &str) -> (removed: bool)
        ensures
            removed == lists(old(self)@, pattern@),
            final(self)@ == without(old(self)@, pattern@),
    {
        let owned = pattern.to_owned();
        proof {
            use_type_invariant(&*self);
        }
        match self.position(&owned) {
            Some(i) => {
                let mut entries: Vec<PatternEntry> = Vec::new();
                core::mem::swap(&mut self.entries, &mut entries);
                entries.remove(i);
                proof {
                    lemma_without_removes_one(old(self)@, pattern@, i as int);
                    assert(entries_of(entries@) =~= old(self)@.remove(i as int));
                }
                self.entries = entries;
                true
            },
            None => {
                proof {
                    lemma_without_unlisted(self@, pattern@);
                }
                false
            },
        }
    }

    /// Number of entries seeded at construction.
    pub fn count_builtin(&self) -> (n: usize)
        ensures
            n == builtin_count(self@),
            n <= self@.len(),
    {
        let mut n: usize = 0;
        let mut i: usize = 0;
        while i < self.entries.len()
            invariant
                i <= self.entries.len(),
                n == builtin_count(self@.take(i as int)),
                n <= i,
            decreases self.entries.len() - i,
        {
            proof {
                assert(self@.take(i + 1).drop_last() =~= self@.take(i as int));
            }
            if self.entries[i].builtin {
                n += 1;
            }
            i += 1;
        }
        assert(self@.take(self@.len() as int) =~= self@);
        n
    }

    /// Index of the first malformed entry, if there is one.
    pub fn malformed(&self) -> (r: Option<usize>)
        ensures
            match r {
                Some(i) => first_malformed(self@) == Some(i as int),
                None => first_malformed(self@) is None,
            },
    {
        let mut i: usize = 0;
        while i < self.entries.len()
            invariant
                i <= self.entries.len(),
                forall|k: int| 0 <= k < i ==> !is_malformed((#[trigger] self@[k]).pattern),
            decreases self.entries.len() - i,
        {
            if self.entries[i].pattern.as_str().is_empty() {
                proof {
                    lemma_first_malformed_is(self@, i as int);
                }
                return Some(i);
            }
            i += 1;
        }
        proof {
            lemma_first_malformed(self@);
        }
        None
    }

    /// Appends to `out` the findings of the entries that match a
    /// case-folded text, in registry order.
    pub fn scan(&self, text: &Vec<char>, out: &mut Vec<Finding>)
        ensures
            findings_of(final(out)@) == findings_of(old(out)@) + blacklist_findings(self@, text@),
    {
        let mut i: usize = 0;
        assert(findings_of(out@) + blacklist_findings(self@.take(0), text@) =~= findings_of(out@));
        while i < self.entries.len()
            invariant
                i <= self.entries.len(),
                findings_of(out@) == findings_of(old(out)@) + blacklist_findings(
                    self@.take(i as int),
                    text@,
                ),
            decreases self.entries.len() - i,
        {
            let entry = &self.entries[i];
            proof {
                assert(self@.take(i + 1).drop_last() =~= self@.take(i as int));
                assert(self@.take(i + 1).last() == entry@);
            }
            let folded = lower_chars_of(entry.pattern.as_str());
            if find(text, &folded) {
                let ghost before = out@;
                let mut warning = "Blocked pattern: ".to_owned();
                warning.append(entry.pattern.as_str());
                let finding = Finding {
                    level: entry.level,
                    label: entry.pattern.clone(),
                    warning,
                };
                out.push(finding);
                proof {
                    assert(finding@ == blacklist_finding(entry@));
                    assert(findings_of(out@) =~= findings_of(before).push(finding@));
                    assert(findings_of(out@) =~= findings_of(old(out)@) + blacklist_findings(
                        self@.take(i + 1),
                        text@,
                    ));
                }
            }
            i += 1;
        }
        assert(self@.take(self@.len() as int) =~= self@);
    }
}

fn seeded(pattern: &'static str, level: ThreatLevel) -> (e: PatternEntry)
    ensures
        e@ == builtin_entry(pattern@, level),
{
    PatternEntry { pattern: pattern.to_owned(), level, builtin: true }
}

/// Length, first and last character of a pattern.
spec fn profile(pattern: Seq<char>) -> (nat, char, char) {
    (pattern.len(), pattern[0], pattern[pattern.len() - 1])
}

/// The seeded patterns are pairwise different, and none is graded `Safe`
/// or malformed.
pub proof fn lemma_builtin_patterns_sound()
    ensures
        each_listed_once(builtin_patterns()),
        never_safe(builtin_patterns()),
        !has_malformed(builtin_patterns()),
        builtin_count(builtin_patterns()) == builtin_patterns().len(),
{
    reveal_strlit("rm -rf /");
    reveal_strlit("rm -rf ~");
    reveal_strlit("rm -rf *");
    reveal_strlit("mkfs");
    reveal_strlit("dd if=");
    reveal_strlit(":(){");
    reveal_strlit("> /dev/sda");
    reveal_strlit("format c:");
    reveal_strlit("del /f /s /q");
    reveal_strlit("rd /s /q");
    reveal_strlit("remove-item -recurse -force");
    reveal_strlit("reg delete");
    reveal_strlit("shutdown");
    reveal_strlit("chmod 777");
    let b = builtin_patterns();
    assert(profile(b[0].pattern) == (8nat, 'r', '/'));
    assert(profile(b[1].pattern) == (8nat, 'r', '~'));
    assert(profile(b[2].pattern) == (8nat, 'r', '*'));
    assert(profile(b[3].pattern) == (4nat, 'm', 's'));
    assert(profile(b[4].pattern) == (6nat, 'd', '='));
    assert(profile(b[5].pattern) == (4nat, ':', '{'));
    assert(profile(b[6].pattern) == (10nat, '>', 'a'));
    assert(profile(b[7].pattern) == (9nat, 'f', ':'));
    assert(profile(b[8].pattern) == (12nat, 'd', 'q'));
    assert(profile(b[9].pattern) == (8nat, 'r', 'q'));
    assert(profile(b[10].pattern) == (27nat, 'r', 'e'));
    assert(profile(b[11].pattern) == (10nat, 'r', 'e'));
    assert(profile(b[12].pattern) == (8nat, 's', 'n'));
    assert(profile(b[13].pattern) == (9nat, 'c', '7'));
    assert forall|i: int, j: int| 0 <= i < j < b.len() implies (#[trigger] b[i]).pattern != (
    #[trigger] b[j]).pattern by {
        assert(profile(b[i].pattern) != profile(b[j].pattern));
    }
    lemma_all_builtin_counted(b);
}

/// Where every entry is seeded, the seeded count is the length.
pub proof fn lemma_all_builtin_counted(entries: Seq<PatternSpec>)
    requires
        forall|i: int| 0 <= i < entries.len() ==> (#[trigger] entries[i]).builtin,
    ensures
        builtin_count(entries) == entries.len(),
    decreases entries.len(),
{
    if entries.len() > 0 {
        let init = entries.drop_last();
        assert forall|i: int| 0 <= i < init.len() implies (#[trigger] init[i]).builtin by {
            assert(init[i] == entries[i]);
        }
        lemma_all_builtin_counted(init);
        assert(entries[entries.len() - 1].builtin);
    }
}

} // verus!
