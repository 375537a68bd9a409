//! Regular-expression matching, done by the `regex` crate.
use vstd::prelude::*;

verus! {

/// Whether `regex` compiles `pattern` and finds a match in `text`: `None` when the pattern does
/// not compile, else whether `Regex::is_match` finds one.
pub uninterp spec fn spec_regex_match(pattern: Seq<char>, text: Seq<char>) -> Option<bool>;

/// Compiles `pattern` with `regex::Regex::new` and tests `text` with `Regex::is_match`.
/// The contract only names the outcome (`spec_regex_match`): the regex semantics are the
/// crate's, and nothing here states them.
#[verifier::external_body]
pub(crate) fn regex_match(pattern: &str, text: &str) -> (r: Option<bool>)
    ensures
        r == spec_regex_match(pattern@, text@),
{
    match regex::Regex::new(pattern) {
        Ok(re) => Some(re.is_match(text)),
        Err(_) => None,
    }
}

} // verus!
