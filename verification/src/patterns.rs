//! Pattern sets: their construction from configuration data, and the two
//! questions they answer about a line.

use crate::engine::compile_regex;
use crate::engine::compile_set;
use crate::engine::pattern_compiles;
use crate::engine::regex_source;
use crate::engine::replace_all;
use crate::engine::set_compiles;
use crate::engine::set_is_match;
use crate::engine::set_patterns;
use crate::model::apply_rules;
use crate::model::texts;
use crate::model::PatternModel;
use crate::model::RuleModel;
use regex::Regex;
use regex::RegexSet;
use vstd::prelude::*;

verus! {

/// One substitution rule as configured: a pattern and a replacement template,
/// both still text.
#[derive(Debug, PartialEq, Eq)]
pub struct SubstitutionConfig {
    pub regex: String,
    pub replacement: String,
}

/// A pattern set as configured: removal patterns and substitution rules, all
/// still text.
#[derive(Debug, PartialEq, Eq)]
pub struct PatternConfig {
    pub remove: Vec<String>,
    pub replace: Vec<SubstitutionConfig>,
}

impl View for SubstitutionConfig {
    type V = RuleModel;

    open spec fn view(&self) -> RuleModel {
        RuleModel { pattern: self.regex@, replacement: self.replacement@ }
    }
}

impl View for PatternConfig {
    type V = PatternModel;

    open spec fn view(&self) -> PatternModel {
        PatternModel {
            removal: texts(self.remove@),
            rules: self.replace@.map_values(|rule: SubstitutionConfig| rule@),
        }
    }
}

/// Why a configuration could not be compiled.
#[derive(Debug, PartialEq, Eq)]
pub enum PatternCompileError {
    /// The removal pattern at `index` is the first one that does not compile.
    Removal { index: usize, pattern: String },
    /// Each removal pattern compiles alone, but not all of them as one set.
    RemovalSet,
    /// The removal patterns compile, and the substitution rule at `index` is
    /// the first one whose pattern does not.
    Substitution { index: usize, pattern: String },
}

/// Whether every pattern of the list compiles alone.
pub open spec fn all_compile(patterns: Seq<Seq<char>>) -> bool {
    forall|i: int| 0 <= i < patterns.len() ==> pattern_compiles(#[trigger] patterns[i])
}

/// Whether the pattern at `index` does not compile while all before it do.
pub open spec fn first_rejected(patterns: Seq<Seq<char>>, index: int) -> bool {
    &&& 0 <= index < patterns.len()
    &&& !pattern_compiles(patterns[index])
    &&& all_compile(patterns.take(index))
}

impl PatternModel {
    /// The patterns of the substitution rules, in order.
    pub open spec fn rule_patterns(self) -> Seq<Seq<char>> {
        self.rules.map_values(|rule: RuleModel| rule.pattern)
    }

    /// Whether the configuration compiles: the removal patterns as a set, and
    /// the pattern of each substitution rule.
    pub open spec fn compiles(self) -> bool {
        set_compiles(self.removal) && all_compile(self.rule_patterns())
    }
}

impl PatternCompileError {
    /// Whether this error is the one that `config` calls for. The cases
    /// exclude each other, and each names its entry uniquely.
    pub open spec fn reports(self, config: PatternModel) -> bool {
        match self {
            PatternCompileError::Removal { index, pattern } => {
                &&& !set_compiles(config.removal)
                &&& first_rejected(config.removal, index as int)
                &&& pattern@ == config.removal[index as int]
            },
            PatternCompileError::RemovalSet => {
                &&& !set_compiles(config.removal)
                &&& all_compile(config.removal)
            },
            PatternCompileError::Substitution { index, pattern } => {
                &&& set_compiles(config.removal)
                &&& first_rejected(config.rule_patterns(), index as int)
                &&& pattern@ == config.rule_patterns()[index as int]
            },
        }
    }
}

/// A compiled substitution rule.
#[derive(Debug)]
pub struct SubstitutionRule {
    regex: Regex,
    replacement: String,
}

impl View for SubstitutionRule {
    type V = RuleModel;

    closed spec fn view(&self) -> RuleModel {
        RuleModel { pattern: regex_source(self.regex), replacement: self.replacement@ }
    }
}

impl SubstitutionRule {
    /// Replaces every non-overlapping match of the rule in `line`.
    pub fn apply(&self, line: &str) -> (res: String)
        ensures
            res@ == self@.apply(line@),
    {
        replace_all(&self.regex, line, self.replacement.as_str())
    }
}

/// The compiled removal patterns and substitution rules of one run. It does
/// not change after construction.
#[derive(Debug)]
pub struct PatternSet {
    remove: RegexSet,
    replace: Vec<SubstitutionRule>,
}

impl View for PatternSet {
    type V = PatternModel;

    closed spec fn view(&self) -> PatternModel {
        PatternModel {
            removal: set_patterns(self.remove),
            rules: self.replace@.map_values(|rule: SubstitutionRule| rule@),
        }
    }
}

/// The index of the first pattern that does not compile alone, if there is one.
fn find_rejected(patterns: &Vec<String>) -> (res: Option<usize>)
    ensures
        match res {
            Some(index) => first_rejected(texts(patterns@), index as int),
            None => all_compile(texts(patterns@)),
        },
{
    let mut i: usize = 0;
    while i < patterns.len()
        invariant
            i <= patterns.len(),
            all_compile(texts(patterns@).take(i as int)),
        decreases patterns.len() - i,
    {
        if compile_regex(patterns[i].as_str()).is_err() {
            return Some(i);
        }
        proof {
            let all = texts(patterns@);
            assert forall|j: int| 0 <= j < i implies all.take(i + 1)[j] == all.take(i as int)[j] by {}
        }
        i += 1;
    }
    proof {
        assert(texts(patterns@).take(patterns.len() as int) =~= texts(patterns@));
    }
    None
}

impl PatternSet {
    /// Compiles a configuration. It succeeds exactly where the configuration
    /// compiles, and the set then stands for the configured patterns and
    /// rules. Otherwise the error names the first offending entry, removal
    /// patterns before substitution rules.
    pub fn compile(config: &PatternConfig) -> (res: Result<PatternSet, PatternCompileError>)
        ensures
            res is Ok <==> config@.compiles(),
            match res {
                Ok(set) => set@ == config@,
                Err(error) => error.reports(config@),
            },
    {
        let remove = match compile_set(&config.remove) {
            Ok(set) => set,
            Err(_) => {
                return Err(
                    match find_rejected(&config.remove) {
                        Some(index) => PatternCompileError::Removal {
                            index,
                            pattern: config.remove[index].clone(),
                        },
                        None => PatternCompileError::RemovalSet,
                    },
                );
            },
        };
        let mut replace: Vec<SubstitutionRule> = Vec::new();
        let mut i: usize = 0;
        while i < config.replace.len()
            invariant
                i <= config.replace.len(),
                replace@.len() == i,
                set_compiles(config@.removal),
                set_patterns(remove) == config@.removal,
                all_compile(config@.rule_patterns().take(i as int)),
                replace@.map_values(|rule: SubstitutionRule| rule@) == config@.rules.take(i as int),
            decreases config.replace.len() - i,
        {
            let entry = &config.replace[i];
            let ghost patterns = config@.rule_patterns();
            assert(patterns[i as int] == entry.regex@);
            match compile_regex(entry.regex.as_str()) {
                Ok(regex) => {
                    let rule = SubstitutionRule { regex, replacement: entry.replacement.clone() };
                    replace.push(rule);
                },
                Err(_) => {
                    return Err(
                        PatternCompileError::Substitution { index: i, pattern: entry.regex.clone() },
                    );
                },
            }
            proof {
                assert forall|j: int| 0 <= j < i implies patterns.take(i + 1)[j] == patterns.take(
                    i as int,
                )[j] by {}
                assert(replace@.map_values(|rule: SubstitutionRule| rule@) =~= config@.rules.take(
                    i + 1,
                ));
            }
            i += 1;
        }
        proof {
            assert(config@.rule_patterns().take(i as int) =~= config@.rule_patterns());
            assert(config@.rules.take(i as int) =~= config@.rules);
        }
        Ok(PatternSet { remove, replace })
    }

    /// Whether any removal pattern matches somewhere in `line`.
    pub fn matches_removal(&self, line: &str) -> (res: bool)
        ensures
            res == self@.drops(line@),
    {
        set_is_match(&self.remove, line)
    }

    /// Runs all substitution rules over `line` in their order, each on the
    /// result of the one before it.
    pub fn apply_substitutions(&self, line: &str) -> (res: String)
        ensures
            res@ == self@.rewrite(line@),
    {
        let mut current = line.to_owned();
        let mut i: usize = 0;
        while i < self.replace.len()
            invariant
                i <= self.replace.len(),
                current@ == apply_rules(self@.rules.take(i as int), line@),
            decreases self.replace.len() - i,
        {
            let next = self.replace[i].apply(current.as_str());
            proof {
                assert(self@.rules.take(i + 1).drop_last() =~= self@.rules.take(i as int));
            }
            current = next;
            i += 1;
        }
        proof {
            assert(self@.rules.take(i as int) =~= self@.rules);
        }
        current
    }
}

} // verus!
