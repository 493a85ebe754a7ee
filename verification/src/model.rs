//! What the three counts of a text are, stated over its characters.

use vstd::prelude::*;
use vstd::utf8::encode_utf8;
use crate::whitespace::is_space;

verus! {

/// The number of line terminators in `s`: how often `'\n'` occurs in it.
///
/// Terminators are counted, not lines: text after the last terminator adds
/// nothing.
pub open spec fn line_count(s: Seq<char>) -> nat {
    s.to_multiset().count('\n')
}

/// Whether the characters of `s` from `lo` up to, not including, `hi` are a
/// word: a run of characters that are not whitespace, not empty, and
/// maximal, so that it is bounded on each side by whitespace or by an end
/// of the text.
pub open spec fn is_word(s: Seq<char>, lo: int, hi: int) -> bool {
    &&& 0 <= lo < hi <= s.len()
    &&& forall|k: int| lo <= k < hi ==> !is_space(#[trigger] s[k])
    &&& (lo == 0 || is_space(s[lo - 1]))
    &&& (hi == s.len() || is_space(s[hi]))
}

/// The words of `s`, each given by where it begins and where it ends.
pub open spec fn words(s: Seq<char>) -> Set<(int, int)> {
    Set::new(|w: (int, int)| is_word(s, w.0, w.1))
}

/// The number of words in `s`.
pub open spec fn word_count(s: Seq<char>) -> nat {
    words(s).len()
}

/// The number of bytes that `s` takes in UTF-8.
pub open spec fn byte_count(s: Seq<char>) -> nat {
    encode_utf8(s).len()
}

} // verus!
