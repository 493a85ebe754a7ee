//! Laws of the three counts: how each behaves as text grows.

use vstd::prelude::*;
use vstd::multiset::Multiset;
use vstd::seq_lib::{lemma_multiset_commutative, to_multiset_build, to_multiset_len};
use vstd::utf8::{encode_scalar, encode_utf8, is_ascii_chars, is_ascii_chars_encode_utf8};
use crate::model::{byte_count, line_count, word_count};
use crate::starts::{is_word_start, lemma_word_starts_finite, lemma_words_by_starts, word_starts};
use crate::whitespace::is_space;

verus! {

/// What one character adds to the line count: one if it is a terminator.
pub open spec fn line_step(c: char) -> nat {
    if c == '\n' {
        1
    } else {
        0
    }
}

/// What the character `c` adds to the word count of `s` when it is appended:
/// one if a word begins with it.
pub open spec fn word_step(s: Seq<char>, c: char) -> nat {
    if !is_space(c) && (s.len() == 0 || is_space(s.last())) {
        1
    } else {
        0
    }
}

/// What is lost when `a` and `b` are joined: one word, if the last word of
/// `a` and the first of `b` run together.
pub open spec fn word_seam(a: Seq<char>, b: Seq<char>) -> nat {
    if a.len() > 0 && b.len() > 0 && !is_space(a.last()) && !is_space(b.first()) {
        1
    } else {
        0
    }
}

/// Empty text has no line terminator.
pub proof fn lemma_line_count_empty()
    ensures
        line_count(Seq::empty()) == 0,
{
    to_multiset_len(Seq::<char>::empty());
    assert(Seq::<char>::empty().to_multiset() =~= Multiset::empty());
}

/// A character appended to a text adds one to its line count if it is a
/// terminator, and nothing otherwise.
pub proof fn lemma_line_count_push(s: Seq<char>, c: char)
    ensures
        line_count(s.push(c)) == line_count(s) + line_step(c),
{
    to_multiset_build(s, c);
}

/// The line count of two texts joined is the sum of their line counts.
pub proof fn lemma_line_count_concat(a: Seq<char>, b: Seq<char>)
    ensures
        line_count(a + b) == line_count(a) + line_count(b),
{
    lemma_multiset_commutative(a, b);
}

/// Text appended to a text never lowers its line count, and an appended
/// line terminator raises it by one.
pub proof fn lemma_line_count_monotone(a: Seq<char>, b: Seq<char>)
    ensures
        line_count(a) <= line_count(a + b),
        line_count(a.push('\n')) == line_count(a) + 1,
{
    lemma_line_count_concat(a, b);
    lemma_line_count_push(a, '\n');
}

/// A text has no more line terminators than characters.
pub proof fn lemma_line_count_bounded(s: Seq<char>)
    ensures
        line_count(s) <= s.len(),
    decreases s.len(),
{
    if s.len() == 0 {
        assert(s =~= Seq::empty());
        lemma_line_count_empty();
    } else {
        assert(s =~= s.drop_last().push(s.last()));
        lemma_line_count_bounded(s.drop_last());
        lemma_line_count_push(s.drop_last(), s.last());
    }
}

/// Empty text has no word.
pub proof fn lemma_word_count_empty()
    ensures
        word_count(Seq::empty()) == 0,
{
    lemma_words_by_starts(Seq::empty());
    lemma_word_starts_finite(Seq::empty());
}

/// A character appended to a text adds one to its word count if a word
/// begins with it, and nothing otherwise.
pub proof fn lemma_word_count_push(s: Seq<char>, c: char)
    ensures
        word_count(s.push(c)) == word_count(s) + word_step(s, c),
{
    let t = s.push(c);
    lemma_words_by_starts(s);
    lemma_words_by_starts(t);
    lemma_word_starts_finite(s);
    assert forall|i: int| 0 <= i < s.len() implies (is_word_start(s, i) <==> is_word_start(t, i)) by {
        assert(t[i] == s[i]);
        if i > 0 {
            assert(t[i - 1] == s[i - 1]);
        }
    }
    if word_step(s, c) == 1 {
        assert(is_word_start(t, s.len() as int));
        assert(word_starts(t) =~= word_starts(s).insert(s.len() as int));
    } else {
        assert(!is_word_start(t, s.len() as int));
        assert(word_starts(t) =~= word_starts(s));
    }
}

/// The word count of two texts joined is the sum of their word counts, less
/// one if a word of the first runs on into the second.
pub proof fn lemma_word_count_concat(a: Seq<char>, b: Seq<char>)
    ensures
        word_count(a + b) == word_count(a) + word_count(b) - word_seam(a, b),
    decreases b.len(),
{
    if b.len() == 0 {
        assert(a + b =~= a);
        assert(b =~= Seq::empty());
        lemma_word_count_empty();
    } else {
        let head = b.drop_last();
        let c = b.last();
        assert(b =~= head.push(c));
        assert(a + b =~= (a + head).push(c));
        lemma_word_count_concat(a, head);
        lemma_word_count_push(a + head, c);
        lemma_word_count_push(head, c);
        if head.len() == 0 {
            assert(a + head =~= a);
            assert(head =~= Seq::empty());
            lemma_word_count_empty();
        } else {
            assert((a + head).last() == head.last());
            assert(head.first() == b.first());
        }
    }
}

/// Text appended to a text never lowers its word count.
pub proof fn lemma_word_count_monotone(a: Seq<char>, b: Seq<char>)
    ensures
        word_count(a) <= word_count(a + b),
{
    lemma_word_count_concat(a, b);
    if word_seam(a, b) == 1 {
        lemma_words_by_starts(b);
        lemma_word_starts_finite(b);
        assert(word_starts(b).contains(0));
    }
}

/// A text has no more words than characters.
pub proof fn lemma_word_count_bounded(s: Seq<char>)
    ensures
        word_count(s) <= s.len(),
{
    lemma_words_by_starts(s);
    lemma_word_starts_finite(s);
}

/// The number of bytes that the character `c` takes in UTF-8: from one, for
/// ASCII, to four.
pub open spec fn char_width(c: char) -> nat {
    if c <= '\u{7F}' {
        1
    } else if c <= '\u{7FF}' {
        2
    } else if c <= '\u{FFFF}' {
        3
    } else {
        4
    }
}

/// The encoding of two texts joined is their encodings joined.
pub proof fn lemma_encode_concat(a: Seq<char>, b: Seq<char>)
    ensures
        encode_utf8(a + b) == encode_utf8(a) + encode_utf8(b),
    decreases a.len(),
{
    if a.len() == 0 {
        assert(a + b =~= b);
        assert(encode_utf8(a) + encode_utf8(b) =~= encode_utf8(b));
    } else {
        assert((a + b).drop_first() =~= a.drop_first() + b);
        lemma_encode_concat(a.drop_first(), b);
        assert(encode_utf8(a + b) =~= encode_utf8(a) + encode_utf8(b));
    }
}

/// Empty text takes no byte.
pub proof fn lemma_byte_count_empty()
    ensures
        byte_count(Seq::empty()) == 0,
{
}

/// The byte count of two texts joined is the sum of their byte counts.
pub proof fn lemma_byte_count_concat(a: Seq<char>, b: Seq<char>)
    ensures
        byte_count(a + b) == byte_count(a) + byte_count(b),
{
    lemma_encode_concat(a, b);
}

/// A character appended to a text adds its width to the byte count.
pub proof fn lemma_byte_count_push(s: Seq<char>, c: char)
    ensures
        byte_count(s.push(c)) == byte_count(s) + char_width(c),
{
    let one = seq![c];
    assert(s.push(c) =~= s + one);
    lemma_byte_count_concat(s, one);
    assert(one.drop_first().len() == 0);
    assert(encode_utf8(one.drop_first()).len() == 0);
    assert(encode_utf8(one) =~= encode_scalar(c as u32));
}

/// Every character takes at least one byte.
pub proof fn lemma_byte_count_covers_chars(s: Seq<char>)
    ensures
        s.len() <= byte_count(s),
    decreases s.len(),
{
    if s.len() > 0 {
        lemma_byte_count_covers_chars(s.drop_first());
    }
}

/// Text that is all ASCII takes one byte for each character.
pub proof fn lemma_byte_count_ascii(s: Seq<char>)
    requires
        is_ascii_chars(s),
    ensures
        byte_count(s) == s.len(),
{
    is_ascii_chars_encode_utf8(s);
}

} // verus!
