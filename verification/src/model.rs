//! The mathematical model of a pattern set and of what cleaning means.

use crate::engine::any_matches;
use crate::engine::pattern_matches;
use crate::engine::replaced_all;
use vstd::prelude::*;

verus! {

/// The texts of a list of strings.
pub open spec fn texts(strings: Seq<String>) -> Seq<Seq<char>> {
    strings.map_values(|s: String| s@)
}

/// A substitution rule as text: a pattern and a replacement template.
pub struct RuleModel {
    pub pattern: Seq<char>,
    pub replacement: Seq<char>,
}

/// A pattern set as text: the removal patterns, whose order does not matter,
/// and the substitution rules in the order in which they are applied.
pub struct PatternModel {
    pub removal: Seq<Seq<char>>,
    pub rules: Seq<RuleModel>,
}

impl RuleModel {
    /// The line after this rule: all non-overlapping matches replaced, and
    /// the line as it was where there is no match.
    pub open spec fn apply(self, line: Seq<char>) -> Seq<char> {
        if pattern_matches(self.pattern, line) {
            replaced_all(self.pattern, line, self.replacement)
        } else {
            line
        }
    }
}

/// The line after `rules` were applied in order, each to the result of the one
/// before it.
pub open spec fn apply_rules(rules: Seq<RuleModel>, line: Seq<char>) -> Seq<char>
    decreases rules.len(),
{
    if rules.len() == 0 {
        line
    } else {
        rules.last().apply(apply_rules(rules.drop_last(), line))
    }
}

impl PatternModel {
    /// A line is dropped if and only if some removal pattern matches in it.
    pub open spec fn drops(self, line: Seq<char>) -> bool {
        any_matches(self.removal, line)
    }

    /// The line after all substitution rules.
    pub open spec fn rewrite(self, line: Seq<char>) -> Seq<char> {
        apply_rules(self.rules, line)
    }

    /// What becomes of one line: `None` where it is dropped, else the
    /// rewritten line. Removal is decided on the line as it came in.
    pub open spec fn outcome(self, line: Seq<char>) -> Option<Seq<char>> {
        if self.drops(line) {
            None
        } else {
            Some(self.rewrite(line))
        }
    }

    /// `outcome` as a function of the line.
    pub open spec fn outcome_fn(self) -> spec_fn(Seq<char>) -> Option<Seq<char>> {
        |line: Seq<char>| self.outcome(line)
    }

    /// `drops` as a function of the line.
    pub open spec fn drops_fn(self) -> spec_fn(Seq<char>) -> bool {
        |line: Seq<char>| self.drops(line)
    }

    /// The lines that are written out for `lines`: the outcome of each line
    /// that is not dropped, in the order of the input.
    pub open spec fn kept(self, lines: Seq<Seq<char>>) -> Seq<Seq<char>> {
        lines.filter_map(self.outcome_fn())
    }

    /// How many of `lines` are dropped.
    pub open spec fn skipped(self, lines: Seq<Seq<char>>) -> nat {
        lines.filter(self.drops_fn()).len()
    }
}

} // verus!
