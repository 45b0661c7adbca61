//! Calls into the `regex` crate.
//!
//! Matching with a regular expression is left to `regex`; the results that
//! it computes are named here and the rest of the crate reasons about them
//! through those names.  `regex::escape` is simple enough to be stated in
//! full.

use vstd::prelude::*;
use crate::text::{opt_string_view, string_views};

verus! {

/// What `Regex::new(pattern)` followed by `replace_all(text, rep)` yields;
/// `None` when the pattern does not compile.
pub uninterp spec fn regex_replace_all_result(
    pattern: Seq<char>,
    text: Seq<char>,
    rep: Seq<char>,
) -> Option<Seq<char>>;

/// `regex::Regex::new(pattern)` then `Regex::replace_all(text, rep)`.
/// The contract only names the result: it is a function of the three
/// strings, and `None` stands for a pattern that `Regex::new` rejects.
#[verifier::external_body]
pub(crate) fn regex_replace_all(pattern: &str, text: &str, rep: &str) -> (r: Option<String>)
    ensures
        match r {
            Some(s) => regex_replace_all_result(pattern@, text@, rep@) == Some(s@),
            None => regex_replace_all_result(pattern@, text@, rep@) is None,
        },
{
    match regex::Regex::new(pattern) {
        Ok(re) => Some(re.replace_all(text, rep).into_owned()),
        Err(_) => None,
    }
}

/// What capture group 1 of the leftmost match of `pattern` in `text` is:
/// `None` when the pattern does not compile, `Some(None)` when there is no
/// match (or group 1 does not take part in it).
pub uninterp spec fn regex_first_capture_result(pattern: Seq<char>, text: Seq<char>) -> Option<
    Option<Seq<char>>,
>;

/// `regex::Regex::new(pattern)` then `captures(text)` and group 1 of it.
/// Only the name of the result is stated.
#[verifier::external_body]
pub(crate) fn regex_first_capture(pattern: &str, text: &str) -> (r: Option<Option<String>>)
    ensures
        match r {
            Some(Some(s)) => regex_first_capture_result(pattern@, text@) == Some(Some(s@)),
            Some(None) => regex_first_capture_result(pattern@, text@) == Some(
                None::<Seq<char>>,
            ),
            None => regex_first_capture_result(pattern@, text@) is None,
        },
{
    match regex::Regex::new(pattern) {
        Ok(re) => Some(re.captures(text).and_then(|c| c.get(1)).map(|m| m.as_str().to_string())),
        Err(_) => None,
    }
}

/// Capture group 1 of every successive non-overlapping match of `pattern`
/// in `text` (`None` where the group did not take part); `None` overall when
/// the pattern does not compile.
pub uninterp spec fn regex_all_captures_result(pattern: Seq<char>, text: Seq<char>) -> Option<
    Seq<Option<Seq<char>>>,
>;

/// `regex::Regex::new(pattern)` then `captures_iter(text)`, group 1 of each
/// match.  Only the name of the result is stated.
#[verifier::external_body]
pub(crate) fn regex_all_captures(pattern: &str, text: &str) -> (r: Option<Vec<Option<String>>>)
    ensures
        match r {
            Some(v) => regex_all_captures_result(pattern@, text@) == Some(
                v@.map_values(|o: Option<String>| opt_string_view(o)),
            ),
            None => regex_all_captures_result(pattern@, text@) is None,
        },
{
    match regex::Regex::new(pattern) {
        Ok(re) => Some(
            re.captures_iter(text).map(|c| c.get(1).map(|m| m.as_str().to_string())).collect(),
        ),
        Err(_) => None,
    }
}

/// The parts of `text` between the successive non-overlapping matches of
/// `pattern` (`Regex::split`); `None` when the pattern does not compile.
pub uninterp spec fn regex_split_result(pattern: Seq<char>, text: Seq<char>) -> Option<Seq<Seq<char>>>;

/// `regex::Regex::new(pattern)` then `Regex::split(text)`, each part as a
/// `String`.  Only the name of the result is stated.
#[verifier::external_body]
pub(crate) fn regex_split(pattern: &str, text: &str) -> (r: Option<Vec<String>>)
    ensures
        match r {
            Some(v) => regex_split_result(pattern@, text@) == Some(string_views(v@)),
            None => regex_split_result(pattern@, text@) is None,
        },
{
    match regex::Regex::new(pattern) {
        Ok(re) => Some(re.split(text).map(|p| p.to_string()).collect()),
        Err(_) => None,
    }
}

/// The text of every successive non-overlapping match of `pattern` in
/// `text` (`Regex::find_iter`); `None` when the pattern does not compile.
pub uninterp spec fn regex_find_all_result(pattern: Seq<char>, text: Seq<char>) -> Option<Seq<Seq<char>>>;

/// `regex::Regex::new(pattern)` then `Regex::find_iter(text)`, the text of
/// each match as a `String`.  Only the name of the result is stated.
#[verifier::external_body]
pub(crate) fn regex_find_all(pattern: &str, text: &str) -> (r: Option<Vec<String>>)
    ensures
        match r {
            Some(v) => regex_find_all_result(pattern@, text@) == Some(string_views(v@)),
            None => regex_find_all_result(pattern@, text@) is None,
        },
{
    match regex::Regex::new(pattern) {
        Ok(re) => Some(re.find_iter(text).map(|m| m.as_str().to_string()).collect()),
        Err(_) => None,
    }
}

/// `regex_syntax::is_meta_character`.
pub open spec fn is_regex_meta(c: char) -> bool {
    c == '\\' || c == '.' || c == '+' || c == '*' || c == '?' || c == '(' || c == ')' || c == '|'
        || c == '[' || c == ']' || c == '{' || c == '}' || c == '^' || c == '$' || c == '#' || c
        == '&' || c == '-' || c == '~'
}

/// `regex::escape`: a backslash before every meta character.
pub open spec fn regex_escaped(s: Seq<char>) -> Seq<char>
    decreases s.len(),
{
    if s.len() == 0 {
        Seq::empty()
    } else {
        let prev = regex_escaped(s.drop_last());
        if is_regex_meta(s.last()) {
            prev.push('\\').push(s.last())
        } else {
            prev.push(s.last())
        }
    }
}

/// `regex::escape(s)`: every meta character (`\ . + * ? ( ) | [ ] { } ^ $ #
/// & - ~`) is preceded by a backslash, all else is copied.
#[verifier::external_body]
pub(crate) fn regex_escape(s: &str) -> (r: String)
    ensures
        r@ == regex_escaped(s@),
{
    regex::escape(s)
}

} // verus!
