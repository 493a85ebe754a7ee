//! Classification of characters into whitespace and everything else.

use vstd::prelude::*;

verus! {

/// Whether `c` carries the Unicode `White_Space` property.
///
/// These are the characters that separate words: the ASCII controls from
/// tab to carriage return, the space, and the spaces and line separators
/// beyond ASCII.
pub open spec fn is_space(c: char) -> bool {
    ||| '\u{0009}' <= c <= '\u{000D}'
    ||| c == '\u{0020}'
    ||| c == '\u{0085}'
    ||| c == '\u{00A0}'
    ||| c == '\u{1680}'
    ||| '\u{2000}' <= c <= '\u{200A}'
    ||| c == '\u{2028}'
    ||| c == '\u{2029}'
    ||| c == '\u{202F}'
    ||| c == '\u{205F}'
    ||| c == '\u{3000}'
}

/// Tells whether `c` is whitespace.
pub fn is_whitespace(c: char) -> (b: bool)
    ensures
        b == is_space(c),
{
    ('\u{0009}' <= c && c <= '\u{000D}') || c == '\u{0020}' || c == '\u{0085}' || c == '\u{00A0}'
        || c == '\u{1680}' || ('\u{2000}' <= c && c <= '\u{200A}') || c == '\u{2028}' || c
        == '\u{2029}' || c == '\u{202F}' || c == '\u{205F}' || c == '\u{3000}'
}

} // verus!
