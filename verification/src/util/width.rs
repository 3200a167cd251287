use unicode_width::UnicodeWidthChar;
use unicode_width::UnicodeWidthStr;
use vstd::prelude::*;

verus! {

/// The number of terminal columns that `unicode_width` assigns to a single
/// character, or `None` where it assigns none.
pub uninterp spec fn char_width(c: char) -> Option<usize>;

/// The number of terminal columns that `unicode_width` assigns to a whole
/// string. It is not the sum of the widths of the characters: some
/// sequences are narrower or wider than their parts.
pub uninterp spec fn str_width(s: Seq<char>) -> usize;

/// Display width of one character, or `None` where it has none, as a
/// control character. Calls `unicode_width::UnicodeWidthChar::width`.
///
/// Trusted: the result is the width that the crate assigns to `c`.
#[verifier::external_body]
pub(crate) fn unicode_char_width(c: char) -> (r: Option<usize>)
    ensures
        r == char_width(c),
{
    UnicodeWidthChar::width(c)
}

/// Display width of a line of text. Calls
/// `unicode_width::UnicodeWidthStr::width` on the string made of `s`.
///
/// Trusted: the result is the width that the crate assigns to that string.
#[verifier::external_body]
pub(crate) fn unicode_str_width(s: &Vec<char>) -> (r: usize)
    ensures
        r == str_width(s@),
{
    let text: String = s.iter().collect();
    UnicodeWidthStr::width(text.as_str())
}

/// The characters with the Unicode property `White_Space`.
pub open spec fn is_blank(c: char) -> bool {
    ||| ('\u{9}' <= c && c <= '\u{d}')
    ||| c == ' '
    ||| c == '\u{85}'
    ||| c == '\u{a0}'
    ||| c == '\u{1680}'
    ||| ('\u{2000}' <= c && c <= '\u{200a}')
    ||| c == '\u{2028}'
    ||| c == '\u{2029}'
    ||| c == '\u{202f}'
    ||| c == '\u{205f}'
    ||| c == '\u{3000}'
}

/// Whether `c` is white space, which a transparent shape does not draw.
pub fn is_blank_char(c: char) -> (r: bool)
    ensures
        r == is_blank(c),
{
    ('\u{9}' <= c && c <= '\u{d}') || c == ' ' || c == '\u{85}' || c == '\u{a0}' || c
        == '\u{1680}' || ('\u{2000}' <= c && c <= '\u{200a}') || c == '\u{2028}' || c
        == '\u{2029}' || c == '\u{202f}' || c == '\u{205f}' || c == '\u{3000}'
}

} // verus!
