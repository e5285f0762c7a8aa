//! Trusted boundary to the regular-expression and shell-glob matchers.
//!
//! Whether a pattern is syntactically valid and whether it matches a text
//! are functions of the pattern and text characters alone, so each result
//! is given a name that the contracts of the resolver speak of.

use vstd::prelude::*;

verus! {

/// Whether `pattern` is a valid regular expression.
pub uninterp spec fn regex_valid(pattern: Seq<char>) -> bool;

/// Whether the regular expression `pattern` matches somewhere in `text`.
pub uninterp spec fn regex_match(pattern: Seq<char>, text: Seq<char>) -> bool;

/// Whether `pattern` is a valid shell-glob pattern.
pub uninterp spec fn glob_valid(pattern: Seq<char>) -> bool;

/// Whether the shell-glob `pattern` matches the whole of `text`.
pub uninterp spec fn glob_match(pattern: Seq<char>, text: Seq<char>) -> bool;

/// Relies on regex::Regex::new: whether a pattern compiles depends on its
/// characters alone.
#[verifier::external_body]
pub(crate) fn regex_is_valid(pattern: &str) -> (r: bool)
    ensures
        r == regex_valid(pattern@),
{
    regex::Regex::new(pattern).is_ok()
}

/// Relies on regex::Regex::new and regex::Regex::is_match: whether a valid
/// pattern matches somewhere in a text depends on the pattern and text
/// characters alone.
#[verifier::external_body]
pub(crate) fn regex_is_match(pattern: &str, text: &str) -> (r: bool)
    requires
        regex_valid(pattern@),
    ensures
        r == regex_match(pattern@, text@),
{
    regex::Regex::new(pattern).unwrap().is_match(text)
}

/// Relies on glob::Pattern::new: whether a pattern compiles depends on its
/// characters alone.
#[verifier::external_body]
pub(crate) fn glob_is_valid(pattern: &str) -> (r: bool)
    ensures
        r == glob_valid(pattern@),
{
    glob::Pattern::new(pattern).is_ok()
}

/// Relies on glob::Pattern::new and glob::Pattern::matches (with the
/// default match options): whether a valid pattern matches a text depends
/// on the pattern and text characters alone.
#[verifier::external_body]
pub(crate) fn glob_is_match(pattern: &str, text: &str) -> (r: bool)
    requires
        glob_valid(pattern@),
    ensures
        r == glob_match(pattern@, text@),
{
    glob::Pattern::new(pattern).unwrap().matches(text)
}

} // verus!
