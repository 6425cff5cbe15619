//! Regular expressions, through the `regex` crate.
//!
//! A compiled expression is held together with the text it was compiled
//! from, so that contracts can speak of what a search gives for a pattern
//! and a haystack. What the engine answers is named, not restated: the
//! names below stand for the `regex` crate's results.
use vstd::prelude::*;
use crate::text::views;

verus! {

#[verifier::external_type_specification]
#[verifier::external_body]
pub struct ExRegex(regex::Regex);

#[verifier::external_type_specification]
#[verifier::external_body]
pub struct ExRegexSet(regex::RegexSet);

#[verifier::external_type_specification]
#[verifier::external_body]
pub struct ExRegexError(regex::Error);

/// Whether `regex::Regex::new` accepts `pattern`.
pub uninterp spec fn regex_compiles(pattern: Seq<char>) -> bool;

/// What `regex::Regex::is_match` answers for `pattern` on `haystack`.
pub uninterp spec fn regex_is_match(pattern: Seq<char>, haystack: Seq<char>) -> bool;

/// The text of capture group `group` in the leftmost match of `pattern` in
/// `haystack` (`captures(haystack)?.get(group)?.as_str()`).
pub uninterp spec fn regex_capture(pattern: Seq<char>, haystack: Seq<char>, group: nat) -> Option<
    Seq<char>,
>;

/// Whether `regex::RegexSet::new` accepts the list of patterns.
pub uninterp spec fn regex_set_compiles(patterns: Seq<Seq<char>>) -> bool;

/// The smallest index among the patterns of the set that match `haystack`
/// (the first index that `RegexSet::matches(..).iter()` yields).
pub uninterp spec fn regex_set_first_match(patterns: Seq<Seq<char>>, haystack: Seq<char>) -> Option<
    nat,
>;

/// A compiled regular expression and the pattern it was compiled from.
pub struct Pattern {
    re: regex::Regex,
    source: Ghost<Seq<char>>,
}

impl View for Pattern {
    type V = Seq<char>;

    closed spec fn view(&self) -> Seq<char> {
        self.source@
    }
}

/// A compiled set of regular expressions and the patterns, in order.
pub struct PatternSet {
    set: regex::RegexSet,
    sources: Ghost<Seq<Seq<char>>>,
}

impl View for PatternSet {
    type V = Seq<Seq<char>>;

    closed spec fn view(&self) -> Seq<Seq<char>> {
        self.sources@
    }
}

/// Compiles `pattern` with `regex::Regex::new`. The contract claims that
/// the call fails exactly when `regex_compiles` is false, and that the
/// compiled value remembers `pattern`.
#[verifier::external_body]
pub(crate) fn compile_pattern(pattern: &str) -> (res: Result<Pattern, regex::Error>)
    ensures
        res is Ok <==> regex_compiles(pattern@),
        res matches Ok(p) ==> p@ == pattern@,
{
    match regex::Regex::new(pattern) {
        Ok(re) => Ok(Pattern { re, source: Ghost(pattern@) }),
        Err(e) => Err(e),
    }
}

/// `regex::Regex::is_match`: claims only that the answer is the one named
/// by `regex_is_match` for the pattern and the haystack.
#[verifier::external_body]
pub(crate) fn pattern_is_match(p: &Pattern, haystack: &str) -> (res: bool)
    ensures
        res == regex_is_match(p@, haystack@),
{
    p.re.is_match(haystack)
}

/// `regex::Regex::captures`, then `get(group)` and `as_str`: claims that the
/// text is the one named by `regex_capture`, and, as the crate documents,
/// that there is a capture only where the pattern matches.
#[verifier::external_body]
pub(crate) fn pattern_capture(p: &Pattern, haystack: &str, group: usize) -> (res: Option<String>)
    ensures
        match res {
            Some(s) => regex_capture(p@, haystack@, group as nat) == Some(s@),
            None => regex_capture(p@, haystack@, group as nat) is None,
        },
        res is Some ==> regex_is_match(p@, haystack@),
{
    match p.re.captures(haystack) {
        Some(caps) => match caps.get(group) {
            Some(m) => Some(m.as_str().to_string()),
            None => None,
        },
        None => None,
    }
}

/// Compiles a list of patterns with `regex::RegexSet::new`. Claims that the
/// call fails exactly when `regex_set_compiles` is false, and that the set
/// remembers the patterns in order.
#[verifier::external_body]
pub(crate) fn compile_pattern_set(patterns: &Vec<String>) -> (res: Result<PatternSet, regex::Error>)
    ensures
        res is Ok <==> regex_set_compiles(views(patterns@)),
        res matches Ok(ps) ==> ps@ == views(patterns@),
{
    match regex::RegexSet::new(patterns) {
        Ok(set) => Ok(PatternSet { set, sources: Ghost(views(patterns@)) }),
        Err(e) => Err(e),
    }
}

/// `regex::RegexSet::matches(haystack).iter().next()`: claims that the index
/// is the one named by `regex_set_first_match`, and, as the crate documents,
/// that it is the index of one of the set's patterns.
#[verifier::external_body]
pub(crate) fn pattern_set_first_match(ps: &PatternSet, haystack: &str) -> (res: Option<usize>)
    ensures
        match res {
            Some(i) => regex_set_first_match(ps@, haystack@) == Some(i as nat) && i < ps@.len(),
            None => regex_set_first_match(ps@, haystack@) is None,
        },
{
    ps.set.matches(haystack).iter().next()
}

} // verus!
