//! The regular-expression engine underneath the library: the `regex` crate.
//!
//! Nothing in this module is proved. The types of the engine are declared, what
//! its functions return is given a name, and each call is made by one small
//! function whose contract is taken from the engine's documentation. Every
//! `Regex` and `RegexSet` that the library holds is made by `compile_regex` or
//! `compile_set`, with the engine's default options.

use crate::model::texts;
use regex::Regex;
use regex::RegexSet;
use vstd::prelude::*;

verus! {

/// `regex::Regex`, one compiled regular expression.
#[verifier::external_type_specification]
#[verifier::external_body]
pub struct ExRegex(regex::Regex);

/// `regex::RegexSet`, several regular expressions compiled to be matched
/// together.
#[verifier::external_type_specification]
#[verifier::external_body]
pub struct ExRegexSet(regex::RegexSet);

/// `regex::Error`, why a pattern was not accepted. The library does not look
/// inside it.
#[verifier::external_type_specification]
#[verifier::external_body]
pub struct ExRegexError(regex::Error);

/// Whether `Regex::new` accepts `pattern`: it parses as a regular expression
/// and compiles within the engine's default size limit.
pub uninterp spec fn pattern_compiles(pattern: Seq<char>) -> bool;

/// The pattern text that a compiled `Regex` was made from.
pub uninterp spec fn regex_source(regex: Regex) -> Seq<char>;

/// Whether the regular expression `pattern` has a match anywhere in `text`,
/// which is what `Regex::is_match` answers.
pub uninterp spec fn pattern_matches(pattern: Seq<char>, text: Seq<char>) -> bool;

/// What `Regex::replace_all` makes of `text`: every non-overlapping match of
/// `pattern` replaced by `replacement`, in which `$name` stands for a capture
/// group of the match.
pub uninterp spec fn replaced_all(
    pattern: Seq<char>,
    text: Seq<char>,
    replacement: Seq<char>,
) -> Seq<char>;

/// Whether `RegexSet::new` accepts the list `patterns` as a whole.
pub uninterp spec fn set_compiles(patterns: Seq<Seq<char>>) -> bool;

/// The pattern texts that a compiled `RegexSet` was made from, in their order.
pub uninterp spec fn set_patterns(set: RegexSet) -> Seq<Seq<char>>;

/// Whether at least one of `patterns` has a match anywhere in `text`.
pub open spec fn any_matches(patterns: Seq<Seq<char>>, text: Seq<char>) -> bool {
    exists|i: int| 0 <= i < patterns.len() && #[trigger] pattern_matches(patterns[i], text)
}

/// `Regex::new`. It returns a regex exactly for the patterns it accepts, and
/// the regex it returns is the one made from `pattern`.
#[verifier::external_body]
pub(crate) fn compile_regex(pattern: &str) -> (res: Result<Regex, regex::Error>)
    ensures
        res is Ok <==> pattern_compiles(pattern@),
        res matches Ok(regex) ==> regex_source(regex) == pattern@,
{
    Regex::new(pattern)
}

/// `RegexSet::new`. It returns a set exactly for the lists it accepts, and the
/// set it returns holds the given patterns in the given order.
#[verifier::external_body]
pub(crate) fn compile_set(patterns: &Vec<String>) -> (res: Result<RegexSet, regex::Error>)
    ensures
        res is Ok <==> set_compiles(texts(patterns@)),
        res matches Ok(set) ==> set_patterns(set) == texts(patterns@),
{
    RegexSet::new(patterns)
}

/// `RegexSet::is_match`. It is true if and only if one of the regexes of the
/// set matches somewhere in `text`; an empty set matches nothing.
#[verifier::external_body]
pub(crate) fn set_is_match(set: &RegexSet, text: &str) -> (res: bool)
    ensures
        res == any_matches(set_patterns(*set), text@),
{
    set.is_match(text)
}

/// `Regex::replace_all` with a replacement string. Where the regex has no
/// match, the text comes back unchanged.
#[verifier::external_body]
pub(crate) fn replace_all(regex: &Regex, text: &str, replacement: &str) -> (res: String)
    ensures
        res@ == replaced_all(regex_source(*regex), text@, replacement@),
        !pattern_matches(regex_source(*regex), text@) ==> res@ == text@,
{
    regex.replace_all(text, replacement).into_owned()
}

} // verus!
