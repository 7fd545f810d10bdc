//! The regex boundary: named results and trusted wrappers.
//!
//! Pattern matching and substitution are done by the `regex` crate.  What
//! a regular expression matches is a pure function of the pattern and the
//! haystack, but far too large to restate here; each operation's result
//! is therefore given a name, and the wrapper below it promises no more
//! than that the call returns the named value.  A pattern that does not
//! compile makes every wrapper take its harmless branch: no wrapper
//! panics on any input.

use vstd::prelude::*;

verus! {

/// Whether `regex::Regex::new` accepts the pattern.
pub uninterp spec fn regex_valid(pattern: Seq<char>) -> bool;

/// Whether the compiled pattern matches anywhere in the text.
pub uninterp spec fn regex_match(pattern: Seq<char>, text: Seq<char>) -> bool;

/// The text after replacing the first `limit` non-overlapping matches of
/// the pattern (all of them when `limit` is zero) with the replacement
/// template, capture references expanded.
pub uninterp spec fn regex_replacen(
    pattern: Seq<char>,
    text: Seq<char>,
    limit: int,
    replacement: Seq<char>,
) -> Seq<char>;

/// The whole first match of the pattern in the text.
pub uninterp spec fn regex_first_match(pattern: Seq<char>, text: Seq<char>) -> Seq<char>;

/// What the named capture group took in the first match of the pattern,
/// or `None` if the group did not participate in that match.
pub uninterp spec fn regex_group_match(
    pattern: Seq<char>,
    text: Seq<char>,
    group: Seq<char>,
) -> Option<Seq<char>>;

/// Each non-overlapping match's first capture group and that group's
/// byte offset in the text, in match order; matches whose first group
/// did not participate are left out.
pub uninterp spec fn regex_group1_all(pattern: Seq<char>, text: Seq<char>) -> Seq<
    (Seq<char>, usize),
>;

/// Relies on `regex::Regex::new`, `regex::Regex::captures_iter` and
/// `regex::Captures::get`: every match's first capture group with its
/// byte offset, in match order, determined by the two strings alone.
/// An invalid pattern reports no matches.
#[verifier::external_body]
pub(crate) fn re_group1_matches(pattern: &str, text: &str) -> (r: Vec<(String, usize)>)
    ensures
        regex_valid(pattern@) ==> r.deep_view() == regex_group1_all(pattern@, text@),
        !regex_valid(pattern@) ==> r@.len() == 0,
{
    match regex::Regex::new(pattern) {
        Err(_) => Vec::new(),
        Ok(re) => re
            .captures_iter(text)
            .filter_map(|c| c.get(1).map(|m| (m.as_str().to_string(), m.start())))
            .collect(),
    }
}

/// Relies on `regex::Regex::new`: it returns `Ok` exactly on the patterns
/// the regex crate accepts.
#[verifier::external_body]
pub(crate) fn re_valid(pattern: &str) -> (r: bool)
    ensures
        r == regex_valid(pattern@),
{
    regex::Regex::new(pattern).is_ok()
}

/// Relies on `regex::Regex::new` and `regex::Regex::is_match`: whether
/// the pattern matches anywhere in the text, determined by the two
/// strings alone.  An invalid pattern reports no match.
#[verifier::external_body]
pub(crate) fn re_is_match(pattern: &str, text: &str) -> (r: bool)
    ensures
        regex_valid(pattern@) ==> r == regex_match(pattern@, text@),
        !regex_valid(pattern@) ==> r == false,
{
    match regex::Regex::new(pattern) {
        Ok(re) => re.is_match(text),
        Err(_) => false,
    }
}

/// Relies on `regex::Regex::new` and `regex::Regex::replacen`: the text
/// with the first `limit` matches replaced (all of them when `limit` is
/// zero), capture references in the replacement expanded; determined by
/// the arguments alone.  An invalid pattern leaves the text unchanged.
#[verifier::external_body]
pub(crate) fn re_replacen(pattern: &str, text: &str, limit: usize, replacement: &str) -> (r: String)
    ensures
        regex_valid(pattern@) ==> r@ == regex_replacen(pattern@, text@, limit as int, replacement@),
        !regex_valid(pattern@) ==> r@ == text@,
{
    match regex::Regex::new(pattern) {
        Ok(re) => re.replacen(text, limit, replacement).into_owned(),
        Err(_) => text.to_string(),
    }
}

/// Relies on `regex::Regex::new`, `regex::Regex::captures` and
/// `regex::Captures::name`: `captures` returns `Some` exactly when the
/// pattern matches; the pair holds the whole first match and what the
/// named group took in it, both determined by the arguments alone.  An
/// invalid pattern reports no match.
#[verifier::external_body]
pub(crate) fn re_captures(pattern: &str, text: &str, group: &str) -> (r: Option<
    (String, Option<String>),
>)
    ensures
        regex_valid(pattern@) ==> (r is Some <==> regex_match(pattern@, text@)),
        !regex_valid(pattern@) ==> r is None,
        r matches Some(p) ==> p.0@ == regex_first_match(pattern@, text@) && p.1.deep_view()
            == regex_group_match(pattern@, text@, group@),
{
    let re = match regex::Regex::new(pattern) {
        Ok(re) => re,
        Err(_) => return None,
    };
    let caps = re.captures(text)?;
    let whole = caps.get(0).map(|m| m.as_str().to_string()).unwrap_or_default();
    let named = caps.name(group).map(|m| m.as_str().to_string());
    Some((whole, named))
}

} // verus!
