//! The line processor: what becomes of one line under a pattern set.

use crate::patterns::PatternSet;
use vstd::prelude::*;

verus! {

/// What became of a line.
#[derive(Debug, PartialEq, Eq)]
pub enum LineOutcome {
    /// A removal pattern matched: the line is not written.
    Dropped,
    /// No removal pattern matched: this is the line after all substitutions.
    Kept(String),
}

impl View for LineOutcome {
    type V = Option<Seq<char>>;

    open spec fn view(&self) -> Option<Seq<char>> {
        match self {
            LineOutcome::Dropped => None,
            LineOutcome::Kept(text) => Some(text@),
        }
    }
}

/// Classifies one line. Removal is decided first, on the line as given; the
/// substitution rules run only on a line that stays.
pub fn process_line(patterns: &PatternSet, line: &str) -> (res: LineOutcome)
    ensures
        res@ == patterns@.outcome(line@),
        patterns@.drops(line@) ==> res == LineOutcome::Dropped,
{
    if patterns.matches_removal(line) {
        LineOutcome::Dropped
    } else {
        LineOutcome::Kept(patterns.apply_substitutions(line))
    }
}

} // verus!
