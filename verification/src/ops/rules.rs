//! What the arguments of a command may be.
use vstd::prelude::*;
use vstd::string::*;

use crate::knowledge::splitting;
use crate::outside;
use crate::text;

verus! {

pub const MAX_ARG_BYTES: usize = 1024;

pub const MAX_PATTERN_BYTES: usize = 512;

/// Whether the text takes more than `limit` bytes.
pub open spec fn is_long(s: Seq<char>, limit: int) -> bool {
    splitting::byte_len(s) > limit
}

pub fn takes_more(s: &str, limit: usize) -> (r: bool)
    requires
        limit <= usize::MAX - 4,
    ensures
        r == is_long(s@, limit as int),
{
    let v = text::chars_of(s);
    assert(v@.take(v@.len() as int) =~= s@);
    splitting::is_wider(&v, v.len(), limit)
}

/// Whether a text can be an argument at all.
pub open spec fn is_argument(s: Seq<char>) -> bool {
    s.len() > 0 && !is_long(s, MAX_ARG_BYTES as int) && !text::has_control(s)
}

pub fn can_be_argument(s: &str) -> (r: bool)
    ensures
        r == is_argument(s@),
{
    let len: usize = s.unicode_len();
    len > 0 && !takes_more(s, MAX_ARG_BYTES) && !text::contains_control(s)
}

/// What one argument may be: one of some values, and what fits a pattern.
#[derive(Debug)]
pub struct OpsArgRule {
    pub allowed_values: Vec<String>,
    pub pattern: Option<String>,
}

impl Default for OpsArgRule {
    fn default() -> (r: Self)
        ensures
            r.allowed_values@.len() == 0,
            r.pattern is None,
    {
        OpsArgRule { allowed_values: Vec::new(), pattern: None }
    }
}

/// The expression that fits a text only as a whole.
pub open spec fn whole(pattern: Seq<char>) -> Seq<char> {
    "\\A(?:"@ + pattern + ")\\z"@
}

pub fn full_match_pattern(pattern: &str) -> (r: String)
    ensures
        r@ == whole(pattern@),
{
    let mut s = "\\A(?:".to_owned();
    s.append(pattern);
    s.append(")\\z");
    s
}

/// `commands.{name}.args.{index}`.
pub open spec fn rule_name(name: Seq<char>, index: int) -> Seq<char> {
    "commands."@ + name + ".args."@ + text::decimal(index as nat)
}

fn write_rule_name(name: &str, index: usize) -> (r: String)
    ensures
        r@ == rule_name(name@, index as int),
{
    let mut s = "commands.".to_owned();
    s.append(name);
    s.append(".args.");
    s.append(text::decimal_string(index as u64).as_str());
    s
}

impl OpsArgRule {
    /// What is wrong with the rule, if anything is, given what is wrong with its pattern.
    pub open spec fn fault_given(
        self,
        name: Seq<char>,
        index: int,
        pattern_error: Option<Seq<char>>,
    ) -> Option<Seq<char>> {
        if self.allowed_values@.len() == 0 && self.pattern is None {
            Some(rule_name(name, index) + " requires allowed_values or pattern"@)
        } else if exists|i: int|
            0 <= i < self.allowed_values@.len() && !is_argument((#[trigger] self.allowed_values@[i])@) {
            Some(rule_name(name, index) + ".allowed_values contains an invalid value"@)
        } else {
            match self.pattern {
                None => None,
                Some(p) => if is_long(p@, MAX_PATTERN_BYTES as int) {
                    Some(rule_name(name, index) + ".pattern is too long"@)
                } else {
                    match pattern_error {
                        Some(e) => Some(rule_name(name, index) + ".pattern is invalid: "@ + e),
                        None => None,
                    }
                },
            }
        }
    }

    /// What is wrong with the pattern as a regular expression.
    pub open spec fn pattern_error(self) -> Option<Seq<char>> {
        match self.pattern {
            Some(p) => outside::regex_error(whole(p@)),
            None => None,
        }
    }

    pub open spec fn fault(self, name: Seq<char>, index: int) -> Option<Seq<char>> {
        self.fault_given(name, index, self.pattern_error())
    }

    /// Checks the rule, given what is wrong with its pattern.
    pub fn validate_given(&self, name: &str, index: usize, pattern_error: Option<String>) -> (r: Result<(), String>)
        ensures
            match self.fault_given(name@, index as int, text::opt_view(pattern_error)) {
                Some(f) => r matches Err(e) && e@ == f,
                None => r is Ok,
            },
    {
        if self.allowed_values.len() == 0 && self.pattern.is_none() {
            let mut s = write_rule_name(name, index);
            s.append(" requires allowed_values or pattern");
            return Err(s);
        }
        let mut i: usize = 0;
        while i < self.allowed_values.len()
            invariant
                0 <= i <= self.allowed_values@.len(),
                self.allowed_values@.len() > 0 || self.pattern is Some,
                forall|k: int|
                    0 <= k < i ==> is_argument((#[trigger] self.allowed_values@[k])@),
            decreases self.allowed_values@.len() - i,
        {
            if !can_be_argument(self.allowed_values[i].as_str()) {
                let mut s = write_rule_name(name, index);
                s.append(".allowed_values contains an invalid value");
                return Err(s);
            }
            i += 1;
        }
        match &self.pattern {
            None => Ok(()),
            Some(p) => {
                if takes_more(p.as_str(), MAX_PATTERN_BYTES) {
                    let mut s = write_rule_name(name, index);
                    s.append(".pattern is too long");
                    return Err(s);
                }
                match pattern_error {
                    Some(e) => {
                        let mut s = write_rule_name(name, index);
                        s.append(".pattern is invalid: ");
                        s.append(e.as_str());
                        Err(s)
                    },
                    None => Ok(()),
                }
            },
        }
    }

    pub fn validate(&self, name: &str, index: usize) -> (r: Result<(), String>)
        ensures
            match self.fault(name@, index as int) {
                Some(f) => r matches Err(e) && e@ == f,
                None => r is Ok,
            },
    {
        let error = match &self.pattern {
            Some(p) => outside::check_regex(full_match_pattern(p.as_str()).as_str()),
            None => None,
        };
        self.validate_given(name, index, error)
    }

    /// Whether the value is one of those that are allowed; where none are listed any is.
    pub open spec fn allows(self, value: Seq<char>) -> bool {
        self.allowed_values@.len() == 0 || text::views(self.allowed_values@).contains(value)
    }

    pub fn is_allowed(&self, value: &str) -> (r: bool)
        ensures
            r == self.allows(value@),
    {
        let ghost all = text::views(self.allowed_values@);
        if self.allowed_values.len() == 0 {
            return true;
        }
        let mut i: usize = 0;
        while i < self.allowed_values.len()
            invariant
                0 <= i <= self.allowed_values@.len(),
                self.allowed_values@.len() > 0,
                all == text::views(self.allowed_values@),
                forall|k: int| 0 <= k < i ==> #[trigger] all[k] != value@,
            decreases self.allowed_values@.len() - i,
        {
            assert(all[i as int] == self.allowed_values@[i as int]@);
            if text::same(self.allowed_values[i].as_str(), value) {
                return true;
            }
            i += 1;
        }
        false
    }

    /// Whether the value fits the pattern; without a pattern any does.
    pub open spec fn fits(self, value: Seq<char>) -> bool {
        match self.pattern {
            Some(p) => outside::regex_matches(whole(p@), value),
            None => true,
        }
    }
}

// The rules of a command.

/// Rules by the positions of the arguments, in the order of the positions.
#[derive(Debug)]
pub struct OpsArgRules {
    entries: Vec<(usize, OpsArgRule)>,
}

pub open spec fn is_ascending(entries: Seq<(usize, OpsArgRule)>) -> bool {
    forall|i: int, k: int|
        0 <= i < k < entries.len() ==> (#[trigger] entries[i]).0 < (#[trigger] entries[k]).0
}

/// The rule for a position, if there is one.
pub open spec fn rule_in(entries: Seq<(usize, OpsArgRule)>, index: int) -> Option<OpsArgRule>
    decreases entries.len(),
{
    if entries.len() == 0 {
        None
    } else if entries[0].0 == index {
        Some(entries[0].1)
    } else {
        rule_in(entries.skip(1), index)
    }
}

proof fn lemma_rule_at(entries: Seq<(usize, OpsArgRule)>, i: int)
    requires
        0 <= i < entries.len(),
        forall|k: int| 0 <= k < i ==> (#[trigger] entries[k]).0 != entries[i].0,
    ensures
        rule_in(entries, entries[i].0 as int) == Some(entries[i].1),
    decreases i,
{
    if i > 0 {
        assert(entries[0].0 != entries[i].0);
        let rest = entries.skip(1);
        assert forall|k: int| 0 <= k < i - 1 implies (#[trigger] rest[k]).0 != rest[i - 1].0 by {
            assert(rest[k] == entries[k + 1]);
        }
        lemma_rule_at(rest, i - 1);
    }
}

proof fn lemma_no_rule(entries: Seq<(usize, OpsArgRule)>, index: int)
    requires
        forall|k: int| 0 <= k < entries.len() ==> (#[trigger] entries[k]).0 != index,
    ensures
        rule_in(entries, index) is None,
    decreases entries.len(),
{
    if entries.len() > 0 {
        assert(entries[0].0 != index);
        let rest = entries.skip(1);
        assert forall|k: int| 0 <= k < rest.len() implies (#[trigger] rest[k]).0 != index by {
            assert(rest[k] == entries[k + 1]);
        }
        lemma_no_rule(rest, index);
    }
}

impl OpsArgRules {
    pub closed spec fn entries(self) -> Seq<(usize, OpsArgRule)> {
        self.entries@
    }

    #[verifier::type_invariant]
    spec fn well_formed(self) -> bool {
        is_ascending(self.entries@)
    }

    pub open spec fn rule(self, index: int) -> Option<OpsArgRule> {
        rule_in(self.entries(), index)
    }

    pub fn new() -> (r: Self)
        ensures
            r.entries() == Seq::<(usize, OpsArgRule)>::empty(),
    {
        OpsArgRules { entries: Vec::new() }
    }

    pub fn len(&self) -> (r: usize)
        ensures
            r == self.entries().len(),
    {
        self.entries.len()
    }

    pub fn entry(&self, i: usize) -> (r: (usize, &OpsArgRule))
        requires
            i < self.entries().len(),
        ensures
            (r.0, *r.1) == self.entries()[i as int],
    {
        (self.entries[i].0, &self.entries[i].1)
    }

    /// Sets the rule for a position. Another rule for it gives way.
    pub fn insert(self, index: usize, rule: OpsArgRule) -> (r: Self)
        ensures
            r.rule(index as int) == Some(rule),
            forall|k: int| k != index ==> #[trigger] r.rule(k) == self.rule(k),
            is_ascending(r.entries()),
    {
        proof {
            use_type_invariant(&self);
        }
        let mut entries = self.entries;
        let ghost before = entries@;
        let mut i: usize = 0;
        while i < entries.len() && entries[i].0 < index
            invariant
                0 <= i <= entries@.len(),
                entries@ == before,
                is_ascending(before),
                forall|k: int| 0 <= k < i ==> (#[trigger] before[k]).0 < index,
            decreases entries@.len() - i,
        {
            i += 1;
        }
        if i < entries.len() && entries[i].0 == index {
            let _old = entries.remove(i);
        }
        let ghost kept = entries@;
        proof {
            assert forall|k: int| k != index implies rule_in(before, k) == #[trigger] rule_in(kept, k) by {
                if before.len() != kept.len() {
                    lemma_removed(before, i as int, k);
                    assert(kept =~= before.remove(i as int));
                }
            }
        }
        let ghost added = rule;
        entries.insert(i, (index, rule));
        proof {
            assert(entries@ =~= kept.insert(i as int, (index, added)));
            assert forall|a: int, b: int| 0 <= a < b < entries@.len() implies (#[trigger] entries@[a]).0
                < (#[trigger] entries@[b]).0 by {
                lemma_still_ascending(before, kept, entries@, i as int, index, added, a, b);
            }
            lemma_rule_at(entries@, i as int);
            assert forall|k: int| k != index implies #[trigger] rule_in(entries@, k) == rule_in(before, k) by {
                lemma_inserted(kept, i as int, (index, added), k);
                assert(rule_in(before, k) == rule_in(kept, k));
            }
        }
        OpsArgRules { entries }
    }

    pub fn get(&self, index: usize) -> (r: Option<&OpsArgRule>)
        ensures
            match r {
                Some(rule) => self.rule(index as int) == Some(*rule),
                None => self.rule(index as int) is None,
            },
    {
        let mut i: usize = 0;
        while i < self.entries.len()
            invariant
                0 <= i <= self.entries@.len(),
                forall|k: int| 0 <= k < i ==> (#[trigger] self.entries@[k]).0 != index,
            decreases self.entries@.len() - i,
        {
            if self.entries[i].0 == index {
                proof {
                    lemma_rule_at(self.entries@, i as int);
                }
                return Some(&self.entries[i].1);
            }
            i += 1;
        }
        proof {
            lemma_no_rule(self.entries@, index as int);
        }
        None
    }
}

proof fn lemma_still_ascending(
    before: Seq<(usize, OpsArgRule)>,
    kept: Seq<(usize, OpsArgRule)>,
    after: Seq<(usize, OpsArgRule)>,
    i: int,
    index: usize,
    rule: OpsArgRule,
    a: int,
    b: int,
)
    requires
        is_ascending(before),
        0 <= i <= before.len(),
        forall|k: int| 0 <= k < i ==> (#[trigger] before[k]).0 < index,
        i < before.len() ==> before[i].0 >= index,
        kept == (if i < before.len() && before[i].0 == index {
            before.remove(i)
        } else {
            before
        }),
        after == kept.insert(i, (index, rule)),
        0 <= a < b < after.len(),
    ensures
        after[a].0 < after[b].0,
{
    assert forall|k: int| i <= k < kept.len() implies (#[trigger] kept[k]).0 > index by {
        if i < before.len() && before[i].0 == index {
            assert(kept[k] == before[k + 1]);
            assert(before[i].0 < before[k + 1].0);
        } else {
            if k > i {
                assert(before[i].0 < before[k].0);
            }
        }
    }
    assert forall|k: int| 0 <= k < i implies (#[trigger] kept[k]).0 < index by {
        assert(kept[k] == before[k]);
    }
    if b < i {
        assert(after[a] == before[a] && after[b] == before[b]);
    } else if a > i {
        assert(after[a] == kept[a - 1] && after[b] == kept[b - 1]);
        if i < before.len() && before[i].0 == index {
            assert(kept[a - 1] == before[a] && kept[b - 1] == before[b]);
        }
        assert(kept[a - 1].0 < kept[b - 1].0);
    } else {
        if a < i {
            assert(after[a] == kept[a]);
        }
        if b > i {
            assert(after[b] == kept[b - 1]);
        }
    }
}

proof fn lemma_removed(entries: Seq<(usize, OpsArgRule)>, i: int, k: int)
    requires
        0 <= i < entries.len(),
        entries[i].0 != k,
    ensures
        rule_in(entries.remove(i), k) == rule_in(entries, k),
    decreases i,
{
    if i == 0 {
        assert(entries.remove(0) =~= entries.skip(1));
    } else {
        assert(entries.remove(i).skip(1) =~= entries.skip(1).remove(i - 1));
        lemma_removed(entries.skip(1), i - 1, k);
    }
}

proof fn lemma_inserted(entries: Seq<(usize, OpsArgRule)>, i: int, entry: (usize, OpsArgRule), k: int)
    requires
        0 <= i <= entries.len(),
        entry.0 != k,
    ensures
        rule_in(entries.insert(i, entry), k) == rule_in(entries, k),
    decreases i,
{
    if i == 0 {
        assert(entries.insert(0, entry).skip(1) =~= entries);
    } else {
        assert(entries.insert(i, entry).skip(1) =~= entries.skip(1).insert(i - 1, entry));
        lemma_inserted(entries.skip(1), i - 1, entry, k);
    }
}

} // verus!
