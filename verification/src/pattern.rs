//! Regular-expression matching, done by the `regex` crate. Nothing in this
//! file is proved.

use regex::Regex;
use vstd::prelude::*;

verus! {

/// Whether the regular expression `pattern`, in the syntax of the `regex`
/// crate, matches somewhere in `text`; `None` if the crate does not accept
/// `pattern` as a regular expression.
pub uninterp spec fn regex_match(pattern: Seq<char>, text: Seq<char>) -> Option<bool>;

/// `Regex::new` followed by `Regex::is_match`: compiles `pattern` and searches
/// `text` for a match. Both depend on the two strings alone. The outcome is
/// `None` where `Regex::new` returns an error.
#[verifier::external_body]
pub(crate) fn regex_is_match(pattern: &str, text: &str) -> (matched: Option<bool>)
    ensures
        matched == regex_match(pattern@, text@),
{
    match Regex::new(pattern) {
        Ok(regex) => Some(regex.is_match(text)),
        Err(_) => None,
    }
}

} // verus!
