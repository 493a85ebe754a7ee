//! Words counted by where they begin.
//!
//! A word is known by its first character: one that is not whitespace and
//! stands first in the text or right after whitespace. This module shows
//! that the words of a text and these positions correspond one to one, so
//! that a single pass over the text, which only ever sees where a word
//! begins, counts the words.

use vstd::prelude::*;
use vstd::set_lib::{lemma_int_range, lemma_len_subset, lemma_map_size, set_int_range};
use crate::model::{is_word, word_count, words};
use crate::whitespace::is_space;

verus! {

/// Whether a word begins at position `i` of `s`: the character there is not
/// whitespace, and it is the first of the text or follows whitespace.
pub open spec fn is_word_start(s: Seq<char>, i: int) -> bool {
    &&& 0 <= i < s.len()
    &&& !is_space(s[i])
    &&& (i == 0 || is_space(s[i - 1]))
}

/// The positions of `s` at which a word begins.
pub open spec fn word_starts(s: Seq<char>) -> Set<int> {
    Set::new(|i: int| is_word_start(s, i))
}

/// The first position from `i` on that holds whitespace, or the length of
/// `s` if there is none: where a word that covers position `i` ends.
pub open spec fn word_end(s: Seq<char>, i: int) -> int
    decreases s.len() - i,
{
    if 0 <= i < s.len() && !is_space(s[i]) {
        word_end(s, i + 1)
    } else {
        i
    }
}

/// The word that begins at `i`, if one does.
pub open spec fn word_at(s: Seq<char>, i: int) -> (int, int) {
    (i, word_end(s, i))
}

/// From `i` up to `word_end(s, i)` there is no whitespace, and the run stops
/// at whitespace or at the end of the text.
pub proof fn lemma_word_end(s: Seq<char>, i: int)
    requires
        0 <= i <= s.len(),
    ensures
        i <= word_end(s, i) <= s.len(),
        forall|k: int| i <= k < word_end(s, i) ==> !is_space(#[trigger] s[k]),
        word_end(s, i) == s.len() || is_space(s[word_end(s, i)]),
    decreases s.len() - i,
{
    if i < s.len() && !is_space(s[i]) {
        lemma_word_end(s, i + 1);
    }
}

/// A run without whitespace that stops at whitespace or at the end of the
/// text stops at `word_end`.
pub proof fn lemma_word_end_unique(s: Seq<char>, i: int, j: int)
    requires
        0 <= i <= j <= s.len(),
        forall|k: int| i <= k < j ==> !is_space(#[trigger] s[k]),
        j == s.len() || is_space(s[j]),
    ensures
        word_end(s, i) == j,
    decreases j - i,
{
    if i < j {
        lemma_word_end_unique(s, i + 1, j);
    }
}

/// A word begins where `is_word_start` says, and at each such position
/// exactly one word begins: the one that reaches to `word_end`.
pub proof fn lemma_word_at_start(s: Seq<char>, lo: int, hi: int)
    ensures
        is_word(s, lo, hi) <==> is_word_start(s, lo) && hi == word_end(s, lo),
{
    if is_word(s, lo, hi) {
        lemma_word_end_unique(s, lo, hi);
    }
    if is_word_start(s, lo) {
        lemma_word_end(s, lo);
    }
}

/// There are at most as many word starts as characters.
pub proof fn lemma_word_starts_finite(s: Seq<char>)
    ensures
        word_starts(s).finite(),
        word_starts(s).len() <= s.len(),
{
    lemma_int_range(0, s.len() as int);
    lemma_len_subset(word_starts(s), set_int_range(0, s.len() as int));
}

/// A text has as many words as positions at which a word begins.
pub proof fn lemma_words_by_starts(s: Seq<char>)
    ensures
        words(s).finite(),
        word_count(s) == word_starts(s).len(),
{
    let f = |i: int| word_at(s, i);
    lemma_word_starts_finite(s);
    assert forall|w: (int, int)| words(s).contains(w) <==> word_starts(s).map(f).contains(w) by {
        lemma_word_at_start(s, w.0, w.1);
        if words(s).contains(w) {
            assert(word_starts(s).contains(w.0) && f(w.0) == w);
        }
    }
    assert(word_starts(s).map(f) =~= words(s));
    assert(vstd::relations::injective_on(f, word_starts(s)));
    lemma_map_size(word_starts(s), words(s), f);
}

} // verus!
