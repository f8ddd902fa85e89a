//! The bridge to the `regex` crate: compiled regular expressions are opaque
//! values, and what they match is named, never restated. Whether a pattern
//! compiles, and which groups capture what on a given haystack, depend on the
//! pattern and the haystack alone, so those results carry names that the
//! dispatch contracts are phrased over.

use vstd::prelude::*;

verus! {

#[verifier::external_type_specification]
#[verifier::external_body]
pub struct ExRegex(regex::Regex);

/// The pattern text a compiled regular expression was built from.
pub uninterp spec fn re_pattern(re: regex::Regex) -> Seq<char>;

/// Whether `regex::Regex::new` accepts a pattern.
pub uninterp spec fn re_valid(pattern: Seq<char>) -> bool;

/// The capture group names of a pattern, in index order: one entry per
/// group, `None` for an unnamed group. Index 0 is the implicit group for the
/// whole match.
pub uninterp spec fn re_names(pattern: Seq<char>) -> Seq<Option<Seq<char>>>;

/// What matching an input against a pattern yields: `None` when the pattern
/// does not match, otherwise one entry per capture group, in index order,
/// holding the captured text of each group that participated in the match.
pub uninterp spec fn re_caps(pattern: Seq<char>, input: Seq<char>) -> Option<Seq<Option<Seq<char>>>>;

/// Relies on `regex::Regex::new`: compiling a pattern succeeds or fails
/// depending on the pattern alone, and the compiled value matches per that
/// pattern.
#[verifier::external_body]
pub(crate) fn regex_compile(pattern: &str) -> (r: Option<regex::Regex>)
    ensures
        r is Some <==> re_valid(pattern@),
        r matches Some(re) ==> re_pattern(re) == pattern@,
{
    match regex::Regex::new(pattern) {
        Ok(re) => Some(re),
        Err(_) => None,
    }
}

/// Relies on `regex::Regex::capture_names`: the group names of a compiled
/// regular expression, in index order, at least one of them since group 0
/// always exists.
#[verifier::external_body]
pub(crate) fn regex_group_names(re: &regex::Regex) -> (r: Vec<Option<String>>)
    ensures
        r.deep_view() == re_names(re_pattern(*re)),
        r.deep_view().len() >= 1,
{
    re.capture_names().map(|n| n.map(|s| s.to_string())).collect()
}

/// Relies on `regex::Regex::captures` (with `regex::Captures::iter` and
/// `regex::Match::as_str` to hand each group's text out): `Some` exactly
/// when the pattern matches the haystack; then one entry per capture group,
/// as many as there are group names, and group 0, the whole match, always
/// participates.
#[verifier::external_body]
pub(crate) fn regex_captures(re: &regex::Regex, text: &str) -> (r: Option<Vec<Option<String>>>)
    ensures
        r is Some <==> re_caps(re_pattern(*re), text@) is Some,
        r matches Some(groups) ==> {
            &&& groups.deep_view() == re_caps(re_pattern(*re), text@).unwrap()
            &&& groups.deep_view().len() == re_names(re_pattern(*re)).len()
            &&& groups.deep_view().len() >= 1
            &&& groups.deep_view()[0] is Some
        },
{
    re.captures(text).map(|c| c.iter().map(|m| m.map(|g| g.as_str().to_string())).collect())
}

} // verus!
