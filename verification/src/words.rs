//! Word characters and whole-word occurrences.
//!
//! An occurrence of a word in a text is *whole* when a word boundary stands
//! on both sides of it: the character before it and its first character
//! differ in being word characters, and so do its last character and the
//! character after it. The ends of the text count as no word character.

use vstd::prelude::*;
use crate::text::{chars_occur_at, occurs_at};

verus! {

/// Whether `c` is a Unicode word character: alphabetic, a mark, a decimal
/// digit, connector punctuation or a join control. The table that decides
/// this belongs to `regex_syntax`; it is the class that regular expressions
/// write `\w`.
pub uninterp spec fn word_char(c: char) -> bool;

/// Calls `regex_syntax::is_word_character`. The contract only names the
/// result. The call panics only where `regex_syntax` is built without its
/// `unicode-perl` tables; they are part of its default features, which this
/// crate keeps.
#[verifier::external_body]
pub(crate) fn is_word_char(c: char) -> (r: bool)
    ensures
        r == word_char(c),
{
    regex_syntax::is_word_character(c)
}

/// Whether a word character stands just before position `at`.
pub open spec fn word_before(text: Seq<char>, at: int) -> bool {
    0 < at <= text.len() && word_char(text[at - 1])
}

/// Whether a word character stands at position `at`.
pub open spec fn word_after(text: Seq<char>, at: int) -> bool {
    0 <= at < text.len() && word_char(text[at])
}

/// Whether position `at` of `text` is a word boundary.
pub open spec fn boundary(text: Seq<char>, at: int) -> bool {
    word_before(text, at) != word_after(text, at)
}

/// Whether `word` occurs in `text` at position `at` as a whole word. The
/// empty word occurs nowhere.
pub open spec fn word_at(text: Seq<char>, word: Seq<char>, at: int) -> bool {
    &&& word.len() > 0
    &&& occurs_at(text, word, at)
    &&& boundary(text, at)
    &&& boundary(text, at + word.len())
}

/// Whether `word` has a word character at position `i`.
pub open spec fn word_char_at(word: Seq<char>, i: int) -> bool {
    0 <= i < word.len() && word_char(word[i])
}

/// Whether `word` is made of word characters only, and of at least one.
pub open spec fn is_identifier(word: Seq<char>) -> bool {
    &&& word.len() > 0
    &&& forall|i: int| 0 <= i < word.len() ==> #[trigger] word_char_at(word, i)
}

/// Decides [`boundary`].
pub fn is_boundary(text: &Vec<char>, at: usize) -> (r: bool)
    ensures
        r == boundary(text@, at as int),
{
    if at > text.len() {
        return false;
    }
    let before = at > 0 && is_word_char(text[at - 1]);
    let after = at < text.len() && is_word_char(text[at]);
    before != after
}

/// Decides [`word_at`].
pub fn is_word_at(text: &Vec<char>, word: &Vec<char>, at: usize) -> (r: bool)
    ensures
        r == word_at(text@, word@, at as int),
{
    if word.len() == 0 || word.len() > text.len() || at > text.len() - word.len() {
        return false;
    }
    let occurs = chars_occur_at(text, word, at);
    if !occurs {
        return false;
    }
    let starts = is_boundary(text, at);
    let ends = is_boundary(text, at + word.len());
    starts && ends
}

} // verus!
