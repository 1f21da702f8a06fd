//! Regular expressions, as the `regex` crate provides them.
//!
//! A compiled expression is opaque here.  What matching it against a text
//! yields is named by the spec functions below; the executable functions
//! call into the crate and are believed to return what those names say.

use regex::Regex;
use vstd::prelude::*;

verus! {

#[verifier::external_type_specification]
#[verifier::external_body]
pub struct ExRegex(regex::Regex);

#[verifier::external_type_specification]
#[verifier::external_body]
pub struct ExRegexError(regex::Error);

/// Whether the expression matches somewhere in the text.
pub uninterp spec fn regex_matches(re: Regex, text: Seq<char>) -> bool;

/// The capture groups of the expression, in order of their opening
/// parenthesis, the whole match first; an unnamed group is `None`.
pub uninterp spec fn regex_group_names(re: Regex) -> Seq<Option<Seq<char>>>;

/// The text that the named group captured in the leftmost match of the
/// expression in the text; `None` if there is no match, no group of that
/// name, or the group took no part in the match.
pub uninterp spec fn regex_named_group(re: Regex, text: Seq<char>, name: Seq<char>) -> Option<
    Seq<char>,
>;

/// Calls `Regex::is_match`.  Trusted to return what `regex_matches` names:
/// matching is a function of the expression and the text alone.
#[verifier::external_body]
pub(crate) fn is_match(re: &Regex, text: &str) -> (b: bool)
    ensures
        b == regex_matches(*re, text@),
{
    re.is_match(text)
}

/// Calls `Regex::capture_names` and copies each name.  Trusted to return
/// what `regex_group_names` names.
#[verifier::external_body]
pub(crate) fn group_names(re: &Regex) -> (names: Vec<Option<String>>)
    ensures
        names.deep_view() == regex_group_names(*re),
{
    re.capture_names().map(|n| n.map(|s| s.to_string())).collect()
}

/// Calls `Regex::captures` and, on a match, `Captures::name`, and copies
/// the captured text.  Trusted to return what `regex_named_group` names.
#[verifier::external_body]
pub(crate) fn named_group(re: &Regex, text: &str, name: &str) -> (value: Option<String>)
    ensures
        value.deep_view() == regex_named_group(*re, text@, name@),
{
    re.captures(text).and_then(|c| c.name(name).map(|m| m.as_str().to_string()))
}

/// Whether the text is an expression that the `regex` crate compiles.
pub uninterp spec fn regex_compiles(source: Seq<char>) -> bool;

/// The text that an expression was compiled from, as `Regex::as_str` gives
/// it back.
pub uninterp spec fn regex_source(re: Regex) -> Seq<char>;

/// Calls `Regex::new`.  Trusted to succeed on exactly the texts that
/// `regex_compiles` names, and to give an expression that remembers the
/// text it was compiled from.
#[verifier::external_body]
pub(crate) fn compile(source: &str) -> (r: Result<Regex, regex::Error>)
    ensures
        r.is_ok() == regex_compiles(source@),
        r matches Ok(re) ==> regex_source(re) == source@,
{
    Regex::new(source)
}

} // verus!
