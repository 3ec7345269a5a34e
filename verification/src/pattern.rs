//! The regular-expression engine, as far as the mapping rules need it.
//!
//! Matching is done by the `regex` crate.  What it computes is not restated
//! here: each of its answers gets a name, the functions below say that they
//! return what the name stands for, and the rest of the library is specified
//! over those names.  Only escaping, which is a character-by-character
//! rewrite, is spelled out.

use regex::Regex;
use vstd::prelude::*;

verus! {

/// Whether `Regex::new` accepts `pattern`.
pub uninterp spec fn regex_compiles(pattern: Seq<char>) -> bool;

/// Whether the regex compiled from `pattern` matches anywhere in `haystack`.
pub uninterp spec fn regex_is_match(pattern: Seq<char>, haystack: Seq<char>) -> bool;

/// The capture groups of the first match in `haystack` of the regex compiled
/// from `pattern`, or `None` when it matches nowhere.  Group 0 is the whole
/// match; the others follow in the order of their opening parentheses; a group
/// that took no part in the match is `None`.
pub uninterp spec fn regex_captures(pattern: Seq<char>, haystack: Seq<char>) -> Option<
    Seq<Option<Seq<char>>>,
>;

/// The characters that have a meaning of their own in a pattern.
pub open spec fn is_meta_character(c: char) -> bool {
    ||| c == '\\'
    ||| c == '.'
    ||| c == '+'
    ||| c == '*'
    ||| c == '?'
    ||| c == '('
    ||| c == ')'
    ||| c == '|'
    ||| c == '['
    ||| c == ']'
    ||| c == '{'
    ||| c == '}'
    ||| c == '^'
    ||| c == '$'
    ||| c == '#'
    ||| c == '&'
    ||| c == '-'
    ||| c == '~'
}

/// `text` with a backslash put before each meta character.
pub open spec fn spec_escape(text: Seq<char>) -> Seq<char>
    decreases text.len(),
{
    if text.len() == 0 {
        Seq::empty()
    } else if is_meta_character(text.last()) {
        spec_escape(text.drop_last()).push('\\').push(text.last())
    } else {
        spec_escape(text.drop_last()).push(text.last())
    }
}

/// Whether `pattern` is a regular expression that the engine accepts.
///
/// Trusted: the body asks `Regex::new` and reports whether it returned `Ok`.
/// The answer depends on the pattern alone, which is all the contract says.
#[verifier::external_body]
pub(crate) fn compiles(pattern: &str) -> (ok: bool)
    ensures
        ok == regex_compiles(pattern@),
{
    Regex::new(pattern).is_ok()
}

/// Whether `pattern` matches anywhere in `haystack`.
///
/// Trusted: the body compiles `pattern` with `Regex::new` and calls
/// `Regex::is_match`.  The precondition rules out the patterns that do not
/// compile; the answer depends on pattern and haystack alone.
#[verifier::external_body]
pub(crate) fn is_match(pattern: &str, haystack: &str) -> (found: bool)
    requires
        regex_compiles(pattern@),
    ensures
        found == regex_is_match(pattern@, haystack@),
{
    Regex::new(pattern).unwrap().is_match(haystack)
}

/// The capture groups of the first match of `pattern` in `haystack`.
///
/// Trusted: the body compiles `pattern` with `Regex::new`, calls
/// `Regex::captures` and copies out the text of every group that
/// `Captures::iter` yields, in order, keeping `None` for a group that did not
/// take part.  The precondition rules out the patterns that do not compile;
/// the answer depends on pattern and haystack alone.
#[verifier::external_body]
pub(crate) fn captures(pattern: &str, haystack: &str) -> (groups: Option<Vec<Option<String>>>)
    requires
        regex_compiles(pattern@),
    ensures
        groups.deep_view() == regex_captures(pattern@, haystack@),
{
    let re = Regex::new(pattern).unwrap();
    re.captures(haystack)
        .map(|caps| caps.iter().map(|g| g.map(|m| m.as_str().to_string())).collect())
}

/// Puts a backslash before each meta character of `text`.
///
/// Trusted: the body is one call of `regex::escape`, which walks the
/// characters of its argument and writes a backslash before each of the
/// eighteen meta characters listed in `is_meta_character`.
#[verifier::external_body]
pub(crate) fn escape(text: &str) -> (escaped: String)
    ensures
        escaped@ == spec_escape(text@),
{
    regex::escape(text)
}

} // verus!
