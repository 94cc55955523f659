use corpus_clean::line::process_line;
use corpus_clean::line::LineOutcome;
use corpus_clean::patterns::PatternCompileError;
use corpus_clean::patterns::PatternConfig;
use corpus_clean::patterns::PatternSet;
use corpus_clean::patterns::SubstitutionConfig;

fn rule(regex: &str, replacement: &str) -> SubstitutionConfig {
    SubstitutionConfig { regex: regex.to_string(), replacement: replacement.to_string() }
}

fn config(remove: &[&str], replace: Vec<SubstitutionConfig>) -> PatternConfig {
    PatternConfig { remove: remove.iter().map(|p| p.to_string()).collect(), replace }
}

fn compiled(remove: &[&str], replace: Vec<SubstitutionConfig>) -> PatternSet {
    PatternSet::compile(&config(remove, replace)).unwrap()
}

#[test]
fn substitution_rules_apply_in_the_given_order() {
    let set = compiled(&[], vec![rule("a", "b"), rule("b", "c")]);
    assert_eq!(set.apply_substitutions("a"), "c");
}

#[test]
fn substitution_order_reversed_gives_another_result() {
    let set = compiled(&[], vec![rule("b", "c"), rule("a", "b")]);
    assert_eq!(set.apply_substitutions("a"), "b");
}

#[test]
fn a_rule_replaces_every_occurrence() {
    let set = compiled(&[], vec![rule("x", "y")]);
    assert_eq!(set.apply_substitutions("xxx"), "yyy");
}

#[test]
fn a_rule_replaces_occurrences_that_do_not_overlap() {
    let set = compiled(&[], vec![rule("aa", "b")]);
    assert_eq!(set.apply_substitutions("aaaaa"), "bba");
}

#[test]
fn a_replacement_may_refer_to_capture_groups() {
    let set = compiled(&[], vec![rule(r"(\w+)@(\w+)", "$2 at $1")]);
    assert_eq!(set.apply_substitutions("mail alice@example now"), "mail example at alice now");
}

#[test]
fn a_rule_without_match_leaves_the_line() {
    let set = compiled(&[], vec![rule("zzz", "y")]);
    assert_eq!(set.apply_substitutions("hello world"), "hello world");
}

#[test]
fn no_rules_leave_the_line() {
    let set = compiled(&[], vec![]);
    assert_eq!(set.apply_substitutions("hello"), "hello");
}

#[test]
fn removal_matches_anywhere_in_the_line() {
    let set = compiled(&["bad"], vec![]);
    assert!(set.matches_removal("this is bad text"));
    assert!(!set.matches_removal("this is good text"));
}

#[test]
fn removal_honours_an_anchor_of_the_pattern() {
    let set = compiled(&["^#"], vec![]);
    assert!(set.matches_removal("# comment"));
    assert!(!set.matches_removal("not a # comment"));
}

#[test]
fn any_removal_pattern_suffices() {
    let set = compiled(&["^#", r"\d{4}", "spam"], vec![]);
    assert!(set.matches_removal("year 2024"));
    assert!(set.matches_removal("spam spam"));
    assert!(!set.matches_removal("plain"));
}

#[test]
fn no_removal_patterns_match_nothing() {
    let set = compiled(&[], vec![]);
    assert!(!set.matches_removal(""));
    assert!(!set.matches_removal("anything"));
}

#[test]
fn a_removed_line_is_dropped_whatever_the_rules_do() {
    let set = compiled(&["foo"], vec![rule("foo", "bar")]);
    assert_eq!(process_line(&set, "a foo b"), LineOutcome::Dropped);
}

#[test]
fn removal_is_decided_on_the_line_as_given() {
    let set = compiled(&["bar"], vec![rule("foo", "bar")]);
    assert_eq!(process_line(&set, "foo"), LineOutcome::Kept("bar".to_string()));
    assert_eq!(process_line(&set, "bar"), LineOutcome::Dropped);
}

#[test]
fn a_kept_line_is_rewritten() {
    let set = compiled(&["^#"], vec![rule("foo", "bar")]);
    assert_eq!(process_line(&set, "hello foo world"), LineOutcome::Kept("hello bar world".to_string()));
}

#[test]
fn a_bad_removal_pattern_is_reported_with_its_position() {
    let res = PatternSet::compile(&config(&["ok", "(open", "[also"], vec![rule("(", "x")]));
    assert_eq!(
        res.unwrap_err(),
        PatternCompileError::Removal { index: 1, pattern: "(open".to_string() }
    );
}

#[test]
fn a_bad_substitution_pattern_is_reported_with_its_position() {
    let res = PatternSet::compile(&config(&["ok"], vec![rule("a", "b"), rule("b", "c"), rule("c)", "d")]));
    assert_eq!(
        res.unwrap_err(),
        PatternCompileError::Substitution { index: 2, pattern: "c)".to_string() }
    );
}

#[test]
fn the_first_bad_substitution_pattern_is_reported() {
    let res = PatternSet::compile(&config(&[], vec![rule("*", "b"), rule("(", "c")]));
    assert_eq!(
        res.unwrap_err(),
        PatternCompileError::Substitution { index: 0, pattern: "*".to_string() }
    );
}

#[test]
fn a_pattern_over_the_size_limit_is_reported() {
    let res = PatternSet::compile(&config(&[r"\w{1000}"], vec![]));
    assert_eq!(
        res.unwrap_err(),
        PatternCompileError::Removal { index: 0, pattern: r"\w{1000}".to_string() }
    );
}

#[test]
fn an_empty_configuration_compiles() {
    assert!(PatternSet::compile(&config(&[], vec![])).is_ok());
}

#[test]
fn patterns_that_compile_alone_may_be_too_large_as_a_set() {
    assert!(PatternSet::compile(&config(&[r"\w{150}"], vec![])).is_ok());
    let res = PatternSet::compile(&config(&[r"\w{150}", r"\w{150}"], vec![rule("(", "x")]));
    assert_eq!(res.unwrap_err(), PatternCompileError::RemovalSet);
}

#[test]
fn removal_patterns_are_checked_before_substitution_rules() {
    let res = PatternSet::compile(&config(&["a", "b", "c("], vec![rule("(", "x")]));
    assert_eq!(
        res.unwrap_err(),
        PatternCompileError::Removal { index: 2, pattern: "c(".to_string() }
    );
}
