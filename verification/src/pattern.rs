//! Regular expressions, as the crate `regex` compiles and matches them.

use vstd::prelude::*;

verus! {

/// `regex::Regex`, a compiled regular expression: nothing is known of what it holds.
#[verifier::external_type_specification]
#[verifier::external_body]
pub struct ExRegex(regex::Regex);

/// `regex::Error`, the reason why a pattern did not compile: nothing is known of what it
/// holds.
#[verifier::external_type_specification]
#[verifier::external_body]
pub struct ExRegexError(regex::Error);

/// Whether `pattern` is a regular expression that compiles within the default size limit.
pub uninterp spec fn compiles(pattern: Seq<char>) -> bool;

/// What a regular expression was compiled from: for one that `Regex::new` made, its pattern.
pub uninterp spec fn source(regex: regex::Regex) -> Seq<char>;

/// Whether the regular expression `pattern` matches somewhere in `text`.
pub uninterp spec fn matches_in(pattern: Seq<char>, text: Seq<char>) -> bool;

/// What the groups of the regular expression `pattern` hold at its first match in `text`: the
/// whole match first, then the groups in the order of their opening brackets, each with the
/// text that it matched, or with none where it took no part in the match; none at all where
/// the pattern matches nowhere.
pub uninterp spec fn groups_in(pattern: Seq<char>, text: Seq<char>) -> Option<
    Seq<Option<Seq<char>>>,
>;

/// `Regex::new` compiles a pattern, and fails on one that is no regular expression or that
/// compiles to more than the default size limit. The regular expression remembers its
/// pattern.
pub assume_specification[ regex::Regex::new ](re: &str) -> (r: Result<regex::Regex, regex::Error>)
    ensures
        r is Ok == compiles(re@),
        r is Ok ==> source(r.unwrap()) == re@,
;

/// `Regex::is_match` says whether the regular expression matches somewhere in the text, which
/// depends on the pattern and the text alone.
pub assume_specification[ regex::Regex::is_match ](regex: &regex::Regex, haystack: &str) -> (r:
    bool)
    ensures
        r == matches_in(source(*regex), haystack@),
;

/// `Regex::captures` finds the first match in the text and tells what each group matched
/// (`Captures::iter`, `Match::as_str`); it finds one where `Regex::is_match` holds and nowhere
/// else. Here each group is handed out as the text that it matched.
#[verifier::external_body]
pub(crate) fn captures<'h>(regex: &regex::Regex, haystack: &'h str) -> (r: Option<
    Vec<Option<&'h str>>,
>)
    ensures
        r.deep_view() == groups_in(source(*regex), haystack@),
        r is Some == matches_in(source(*regex), haystack@),
{
    regex.captures(haystack).map(|found| found.iter().map(|group| group.map(|m| m.as_str())).collect())
}

/// The sentence in which the crate `regex` states why a pattern did not compile
/// (`Error::to_string`).
#[verifier::external_body]
pub(crate) fn describe(error: &regex::Error) -> (r: String) {
    error.to_string()
}

} // verus!
