//! Replacement of regular-expression matches.

use vstd::prelude::*;

verus! {

/// `regex::Error`, why a pattern was not compiled; opaque here.
#[verifier::external_type_specification]
#[verifier::external_body]
pub struct ExRegexError(regex::Error);

/// Whether `regex::Regex::new` accepts `pattern`.
pub uninterp spec fn regex_compiles(pattern: Seq<char>) -> bool;

/// What `regex::Regex::replace_all` makes of `haystack` for the expression
/// compiled from `pattern`: every non-overlapping match, from the left,
/// replaced by the expansion of `replacement`.
pub uninterp spec fn regex_replaced(
    pattern: Seq<char>,
    haystack: Seq<char>,
    replacement: Seq<char>,
) -> Seq<char>;

/// `regex::Regex::new` on `pattern`, then `regex::Regex::replace_all` on
/// `haystack`. It fails exactly where the pattern does not compile, which
/// depends on the pattern alone; the text that comes back depends on the three
/// arguments alone.
#[verifier::external_body]
pub(crate) fn replace_matches(pattern: &str, haystack: &str, replacement: &str) -> (r: Result<
    String,
    regex::Error,
>)
    ensures
        r is Ok <==> regex_compiles(pattern@),
        r matches Ok(text) ==> text@ == regex_replaced(pattern@, haystack@, replacement@),
{
    let re = regex::Regex::new(pattern)?;
    Ok(re.replace_all(haystack, replacement).into_owned())
}

} // verus!
