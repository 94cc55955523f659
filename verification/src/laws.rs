//! What holds of cleaning as a whole, proved from the model.

use crate::engine::pattern_matches;
use crate::model::apply_rules;
use crate::model::PatternModel;
use crate::model::RuleModel;
use crate::patterns::all_compile;
use crate::patterns::first_rejected;
use crate::patterns::PatternCompileError;
use vstd::prelude::*;

verus! {

/// Cleaning two runs of lines one after the other gives the output of the
/// first followed by the output of the second, and skips as many lines as
/// both together.
pub proof fn law_concatenation(patterns: PatternModel, first: Seq<Seq<char>>, second: Seq<Seq<char>>)
    ensures
        patterns.kept(first + second) == patterns.kept(first) + patterns.kept(second),
        patterns.skipped(first + second) == patterns.skipped(first) + patterns.skipped(second),
    decreases second.len(),
{
    let keep = patterns.outcome_fn();
    Seq::filter_distributes_over_add(first, second, patterns.drops_fn());
    if second.len() > 0 {
        let front = second.drop_last();
        law_concatenation(patterns, first, front);
        assert((first + second).drop_last() =~= first + front);
        if let Some(line) = keep(second.last()) {
            assert((patterns.kept(first) + patterns.kept(front)) + seq![line] =~= patterns.kept(
                first,
            ) + (patterns.kept(front) + seq![line]));
        }
    }
}

/// A line that a removal pattern matches is dropped whatever the
/// substitution rules would have made of it, and nothing in the output comes
/// from it: the output is the same as for the input without that line.
pub proof fn law_removed_line_leaves_nothing(
    patterns: PatternModel,
    before: Seq<Seq<char>>,
    line: Seq<char>,
    after: Seq<Seq<char>>,
)
    requires
        patterns.drops(line),
    ensures
        patterns.outcome(line) is None,
        forall|rules: Seq<RuleModel>|
            (#[trigger] PatternModel { removal: patterns.removal, rules }.outcome(line)) is None,
        patterns.kept(before + seq![line] + after) == patterns.kept(before + after),
{
    let keep = patterns.outcome_fn();
    Seq::lemma_filter_map_singleton(line, keep);
    law_concatenation(patterns, before, seq![line]);
    law_concatenation(patterns, before + seq![line], after);
    law_concatenation(patterns, before, after);
}

/// Substitution rules apply in the order given: the second rule works on what
/// the first made of the line.
pub proof fn law_two_rules_in_order(first: RuleModel, second: RuleModel, line: Seq<char>)
    ensures
        apply_rules(seq![first, second], line) == second.apply(first.apply(line)),
{
    let both = seq![first, second];
    assert(both.drop_last() =~= seq![first]);
    assert(apply_rules(seq![first], line) == first.apply(line)) by {
        reveal_with_fuel(apply_rules, 2);
    }
}

/// A list of rules followed by another works as the second list on the
/// result of the first.
pub proof fn law_rules_compose(head: Seq<RuleModel>, tail: Seq<RuleModel>, line: Seq<char>)
    ensures
        apply_rules(head + tail, line) == apply_rules(tail, apply_rules(head, line)),
    decreases tail.len(),
{
    if tail.len() > 0 {
        law_rules_compose(head, tail.drop_last(), line);
        assert((head + tail).drop_last() =~= head + tail.drop_last());
    }
}

/// A line in which the pattern of no rule matches is written as it was read.
pub proof fn law_unmatched_line_unchanged(rules: Seq<RuleModel>, line: Seq<char>)
    requires
        forall|i: int| 0 <= i < rules.len() ==> !pattern_matches((#[trigger] rules[i]).pattern, line),
    ensures
        apply_rules(rules, line) == line,
    decreases rules.len(),
{
    if rules.len() > 0 {
        let front = rules.drop_last();
        assert forall|i: int| 0 <= i < front.len() implies front[i] == rules[i] by {}
        law_unmatched_line_unchanged(front, line);
    }
}

/// Every line is either skipped or written: the two counts add up to the
/// number of lines read.
pub proof fn law_counts_add_up(patterns: PatternModel, lines: Seq<Seq<char>>)
    ensures
        patterns.skipped(lines) + patterns.kept(lines).len() == lines.len(),
    decreases lines.len(),
{
    reveal(Seq::filter);
    if lines.len() > 0 {
        law_counts_add_up(patterns, lines.drop_last());
    }
}

/// A line that is not dropped is written at the position that counts the
/// lines written before it, and it is written as rewritten by the rules.
pub proof fn law_kept_line_position(patterns: PatternModel, lines: Seq<Seq<char>>, index: int)
    requires
        0 <= index < lines.len(),
        !patterns.drops(lines[index]),
    ensures
        patterns.kept(lines.take(index)).len() < patterns.kept(lines).len(),
        patterns.kept(lines)[patterns.kept(lines.take(index)).len() as int] == patterns.rewrite(
            lines[index],
        ),
{
    let keep = patterns.outcome_fn();
    let head = lines.take(index);
    let rest = lines.skip(index + 1);
    assert(lines =~= head + seq![lines[index]] + rest);
    Seq::lemma_filter_map_singleton(lines[index], keep);
    law_concatenation(patterns, head, seq![lines[index]]);
    law_concatenation(patterns, head + seq![lines[index]], rest);
}

/// Lines keep their order: of two lines that are both written, the one that
/// came first in the input stands first in the output.
pub proof fn law_order_preserved(
    patterns: PatternModel,
    lines: Seq<Seq<char>>,
    earlier: int,
    later: int,
)
    requires
        0 <= earlier < later < lines.len(),
        !patterns.drops(lines[earlier]),
        !patterns.drops(lines[later]),
    ensures
        patterns.kept(lines.take(earlier)).len() < patterns.kept(lines.take(later)).len(),
        patterns.kept(lines.take(later)).len() < patterns.kept(lines).len(),
{
    let head = lines.take(later);
    assert(head.take(earlier) =~= lines.take(earlier));
    law_kept_line_position(patterns, head, earlier);
    law_kept_line_position(patterns, lines, later);
}

/// Whether two errors name the same entry.
pub open spec fn same_error(one: PatternCompileError, other: PatternCompileError) -> bool {
    match (one, other) {
        (
            PatternCompileError::Removal { index: i, pattern: p },
            PatternCompileError::Removal { index: j, pattern: q },
        ) => i == j && p@ == q@,
        (PatternCompileError::RemovalSet, PatternCompileError::RemovalSet) => true,
        (
            PatternCompileError::Substitution { index: i, pattern: p },
            PatternCompileError::Substitution { index: j, pattern: q },
        ) => i == j && p@ == q@,
        _ => false,
    }
}

/// Only one pattern of a list is the first that does not compile, and there
/// is none where all compile.
pub proof fn law_one_first_rejected(patterns: Seq<Seq<char>>, one: int, other: int)
    requires
        first_rejected(patterns, one),
    ensures
        !all_compile(patterns),
        first_rejected(patterns, other) ==> one == other,
{
    if first_rejected(patterns, other) {
        if one < other {
            assert(patterns.take(other)[one] == patterns[one]);
        } else if other < one {
            assert(patterns.take(one)[other] == patterns[other]);
        }
    }
}

/// A configuration that compiles calls for no error, and one that does not
/// calls for one error only.
pub proof fn law_one_compile_error(
    config: PatternModel,
    one: PatternCompileError,
    other: PatternCompileError,
)
    requires
        one.reports(config),
    ensures
        !config.compiles(),
        other.reports(config) ==> same_error(one, other),
{
    match one {
        PatternCompileError::Removal { index, .. } => {
            law_one_first_rejected(config.removal, index as int, index as int);
            if let PatternCompileError::Removal { index: second, .. } = other {
                law_one_first_rejected(config.removal, index as int, second as int);
            }
        },
        PatternCompileError::RemovalSet => {
            if let PatternCompileError::Removal { index: second, .. } = other {
                if other.reports(config) {
                    law_one_first_rejected(config.removal, second as int, second as int);
                }
            }
        },
        PatternCompileError::Substitution { index, .. } => {
            law_one_first_rejected(config.rule_patterns(), index as int, index as int);
            if let PatternCompileError::Substitution { index: second, .. } = other {
                law_one_first_rejected(config.rule_patterns(), index as int, second as int);
            }
        },
    }
}

} // verus!
