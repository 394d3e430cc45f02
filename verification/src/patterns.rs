//! Regular expressions, as the `regex` crate matches them.

use vstd::prelude::*;

use regex::Regex;

verus! {

/// Whether `regex` accepts `pattern` as a regular expression.
pub uninterp spec fn regex_compiles(pattern: Seq<char>) -> bool;

/// Checks a pattern: `Regex::new` of `regex` succeeds. Claimed: the result
/// is the named test of the pattern.
#[verifier::external_body]
pub(crate) fn regex_valid(pattern: &str) -> (r: bool)
    ensures
        r == regex_compiles(pattern@),
{
    Regex::new(pattern).is_ok()
}

/// Whether the regular expression `pattern` matches somewhere in `text`.
pub uninterp spec fn regex_matches(pattern: Seq<char>, text: Seq<char>) -> bool;

/// Tests a text against a pattern: `Regex::is_match` of `regex`, on the
/// expression `Regex::new` compiles from the pattern. Claimed: the result
/// is the named test.
#[verifier::external_body]
pub(crate) fn regex_is_match(pattern: &str, text: &str) -> (r: bool)
    requires
        regex_compiles(pattern@),
    ensures
        r == regex_matches(pattern@, text@),
{
    Regex::new(pattern).unwrap().is_match(text)
}

/// The text captured by the named group `group` of the first match of
/// `pattern` in `text`, if there is a match and the group took part.
pub uninterp spec fn regex_capture(pattern: Seq<char>, text: Seq<char>, group: Seq<char>) -> Option<Seq<char>>;

/// Captures a named group: `Regex::captures` and `Captures::name` of
/// `regex`, on the expression `Regex::new` compiles from the pattern.
/// Claimed: the result is the named capture.
#[verifier::external_body]
pub(crate) fn regex_captures(pattern: &str, text: &str, group: &str) -> (r: Option<String>)
    requires
        regex_compiles(pattern@),
    ensures
        match r {
            Some(s) => regex_capture(pattern@, text@, group@) == Some(s@),
            None => regex_capture(pattern@, text@, group@) is None,
        },
{
    Regex::new(pattern).unwrap().captures(text).and_then(|c| c.name(group).map(|m| m.as_str().to_string()))
}

} // verus!
