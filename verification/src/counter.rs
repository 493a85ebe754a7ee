//! The counting functions.

use vstd::prelude::*;
use vstd::string::StringSliceAdditionalSpecFns;
use crate::laws::{
    lemma_byte_count_covers_chars, lemma_line_count_empty, lemma_line_count_push,
    lemma_word_count_empty, lemma_word_count_push,
};
use crate::model::{byte_count, line_count, word_count};
use crate::whitespace::{is_space, is_whitespace};

verus! {

/// The three counts of one text.
#[derive(Clone, Copy, Debug, PartialEq, Eq, Structural)]
pub struct WcResult {
    /// The number of line terminators.
    pub lines: usize,
    /// The number of words.
    pub words: usize,
    /// The number of bytes.
    pub bytes: usize,
}

impl WcResult {
    /// Whether these are the counts of the text `s`.
    pub open spec fn counts(self, s: Seq<char>) -> bool {
        &&& self.lines == line_count(s)
        &&& self.words == word_count(s)
        &&& self.bytes == byte_count(s)
    }
}

/// Counts the line terminators of `text`: the occurrences of `'\n'`. A last
/// line that no terminator ends is not counted.
pub fn count_lines(text: &str) -> (n: usize)
    ensures
        n == line_count(text@),
{
    let bytes = text.as_bytes().len();
    let mut n: usize = 0;
    let chars = text.chars();
    proof {
        lemma_byte_count_covers_chars(text@);
        lemma_line_count_empty();
        assert(text@.take(0) =~= Seq::empty());
    }
    for c in it: chars
        invariant
            it.seq() == text@,
            text@.len() <= bytes,
            n == line_count(text@.take(it.index())),
            n <= it.index(),
    {
        proof {
            let i = it.index();
            assert(text@.take(i + 1) =~= text@.take(i).push(c));
            lemma_line_count_push(text@.take(i), c);
        }
        if c == '\n' {
            n = n + 1;
        }
    }
    assert(text@.take(text@.len() as int) =~= text@);
    n
}

/// Counts the words of `text`: the maximal runs of characters that are not
/// whitespace. Whitespace at either end, or repeated, makes no empty word.
pub fn count_words(text: &str) -> (n: usize)
    ensures
        n == word_count(text@),
{
    let bytes = text.as_bytes().len();
    let mut n: usize = 0;
    let mut in_word = false;
    let chars = text.chars();
    proof {
        lemma_byte_count_covers_chars(text@);
        lemma_word_count_empty();
        assert(text@.take(0) =~= Seq::empty());
    }
    for c in it: chars
        invariant
            it.seq() == text@,
            text@.len() <= bytes,
            n == word_count(text@.take(it.index())),
            n <= it.index(),
            in_word == (it.index() > 0 && !is_space(text@[it.index() - 1])),
    {
        proof {
            let i = it.index();
            assert(text@.take(i + 1) =~= text@.take(i).push(c));
            lemma_word_count_push(text@.take(i), c);
        }
        let space = is_whitespace(c);
        if !space && !in_word {
            n = n + 1;
        }
        in_word = !space;
    }
    assert(text@.take(text@.len() as int) =~= text@);
    n
}

/// The length of `text` in bytes, as it is stored: in UTF-8. A character
/// beyond ASCII counts with each of its bytes.
pub fn count_bytes(text: &str) -> (n: usize)
    ensures
        n == byte_count(text@),
{
    text.as_bytes().len()
}

/// All three counts of `text` at once.
pub fn count_all(text: &str) -> (r: WcResult)
    ensures
        r.counts(text@),
{
    WcResult { lines: count_lines(text), words: count_words(text), bytes: count_bytes(text) }
}

/// The counts of a text are determined by its characters: two records that
/// each hold the counts of one text hold the same three numbers, whenever
/// and from whichever buffer of these characters they were taken.
pub proof fn lemma_counts_determined(s: Seq<char>, x: WcResult, y: WcResult)
    requires
        x.counts(s),
        y.counts(s),
    ensures
        x == y,
{
}

} // verus!
