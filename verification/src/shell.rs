//! Shell-style splitting and quoting of argument lists.

use vstd::prelude::*;

verus! {

/// `shlex::QuoteError`, why words were not joined; opaque here.
#[verifier::external_type_specification]
#[verifier::external_body]
pub struct ExQuoteError(shlex::QuoteError);

/// The words that `shlex::split` reads from a line, or `None` where the line
/// cannot be tokenized.
pub uninterp spec fn shell_words(line: Seq<char>) -> Option<Seq<Seq<char>>>;

/// The line that `shlex::try_join` makes of words it accepts: each word quoted
/// where the shell needs it, the words separated by single spaces.
pub uninterp spec fn shell_line(words: Seq<Seq<char>>) -> Seq<char>;

/// Whether some word holds a nul character.
pub open spec fn has_nul(words: Seq<Seq<char>>) -> bool {
    exists|i: int, j: int|
        0 <= i < words.len() && 0 <= j < words[i].len() && #[trigger] words[i][j] == '\0'
}

/// `shlex::split`: the words of `line` by the rules of the POSIX shell.
/// The outcome depends on the line alone.
#[verifier::external_body]
pub(crate) fn shell_split(line: &str) -> (r: Option<Vec<String>>)
    ensures
        r.deep_view() == shell_words(line@),
{
    shlex::split(line)
}

/// `shlex::try_join`: one line that the shell splits back into `words`. It
/// fails exactly where a word holds a nul character; otherwise the line
/// depends on the words alone.
#[verifier::external_body]
pub(crate) fn shell_join(words: &Vec<String>) -> (r: Result<String, shlex::QuoteError>)
    ensures
        r is Err <==> has_nul(words.deep_view()),
        r matches Ok(line) ==> line@ == shell_line(words.deep_view()),
{
    shlex::try_join(words.iter().map(String::as_str))
}

} // verus!
