use vstd::prelude::*;

use crate::model::texts;

verus! {

/// The command line that `shell_words::join` makes of a list of words.
pub uninterp spec fn shell_join(words: Seq<Seq<char>>) -> Seq<char>;

/// A character that `shell_words::split` treats specially inside or at the
/// start of an unquoted word: a quote, a backslash or a delimiter.
pub open spec fn splits_specially(c: char) -> bool {
    c == '\'' || c == '"' || c == '\\' || c == ' ' || c == '\t' || c == '\n'
}

/// A word that `shell_words::split` reads as it stands: not empty, not
/// starting a comment, and free of quotes, backslashes and delimiters.
pub open spec fn plain_word(w: Seq<char>) -> bool {
    &&& w.len() > 0
    &&& w[0] != '#'
    &&& forall|i: int| 0 <= i < w.len() ==> !splits_specially(#[trigger] w[i])
}

/// Calls `shell_words::join`, which quotes each word for a Unix shell and
/// joins them with single spaces. Its result is named, not described; the
/// contract also claims what the crate documents of it, that `split` gives
/// the words back, and what its source shows of `split` on a plain word and
/// a space put before the line: that word comes first, then the words.
#[verifier::external_body]
pub(crate) fn join_words(words: &Vec<String>) -> (line: String)
    ensures
        line@ == shell_join(texts(words@)),
        shell_split(line@) == Some(texts(words@)),
        forall|w: Seq<char>|
            plain_word(w) ==> #[trigger] shell_split(w + seq![' '] + line@) == Some(
                seq![w] + texts(words@),
            ),
{
    shell_words::join(words)
}


/// The error type of `shell_words::split`.
#[verifier::external_type_specification]
#[verifier::external_body]
pub struct ExShellParseError(shell_words::ParseError);

/// The words that `shell_words::split` finds in a line (`None`: the line is
/// refused, as with an unmatched quote).
pub uninterp spec fn shell_split(line: Seq<char>) -> Option<Seq<Seq<char>>>;

/// Calls `shell_words::split`, which splits a line into words as a Unix shell
/// would (quote removal, no expansion). Its result is named, not described.
#[verifier::external_body]
pub(crate) fn split_words(line: &str) -> (r: Result<Vec<String>, shell_words::ParseError>)
    ensures
        match r {
            Ok(words) => shell_split(line@) == Some(texts(words@)),
            Err(_) => shell_split(line@) is None,
        },
{
    shell_words::split(line)
}

} // verus!
