//! Regular-expression matching through the regex crate.

use vstd::prelude::*;

verus! {

/// Whether the regex crate finds a match of `pattern` in `text`; `None`
/// where `pattern` is not a valid regular expression.
pub uninterp spec fn regex_match_result(pattern: Seq<char>, text: Seq<char>) -> Option<bool>;

/// Calls `regex::Regex::new(pattern)` and, where it compiles,
/// `Regex::is_match(text)`; the answer depends on the two strings alone and
/// is named `regex_match_result`.
#[verifier::external_body]
pub fn regex_match(pattern: &str, text: &str) -> (r: Option<bool>)
    ensures
        r == regex_match_result(pattern@, text@),
{
    match regex::Regex::new(pattern) {
        Ok(re) => Some(re.is_match(text)),
        Err(_) => None,
    }
}

/// What the regex crate's error says of `pattern`: `None` where it
/// compiles.
pub uninterp spec fn regex_error_text(pattern: Seq<char>) -> Option<Seq<char>>;

/// Calls `regex::Regex::new(pattern)` and gives the error's text where it
/// fails; the answer depends on the pattern alone and is named
/// `regex_error_text`. A pattern that compiles answers every match query,
/// one that fails none, as `regex_match` calls the same constructor.
#[verifier::external_body]
pub fn regex_error(pattern: &str) -> (r: Option<String>)
    ensures
        match r {
            Some(e) => regex_error_text(pattern@) == Some(e@)
                && forall|t: Seq<char>| #[trigger] regex_match_result(pattern@, t) is None,
            None => regex_error_text(pattern@) is None
                && forall|t: Seq<char>| #[trigger] regex_match_result(pattern@, t) is Some,
        },
{
    match regex::Regex::new(pattern) {
        Ok(_) => None,
        Err(e) => Some(e.to_string()),
    }
}

} // verus!
