//! Characters and numbers in text.

use vstd::prelude::*;
use vstd::string::*;

verus! {

/// The characters with the Unicode property `White_Space`.
pub open spec fn white_space(c: char) -> bool {
    ||| '\u{9}' <= c <= '\u{d}'
    ||| c == '\u{20}'
    ||| c == '\u{85}'
    ||| c == '\u{a0}'
    ||| c == '\u{1680}'
    ||| '\u{2000}' <= c <= '\u{200a}'
    ||| c == '\u{2028}'
    ||| c == '\u{2029}'
    ||| c == '\u{202f}'
    ||| c == '\u{205f}'
    ||| c == '\u{3000}'
}

/// Text without a visible character.
pub open spec fn blank(s: Seq<char>) -> bool {
    forall|i: int| 0 <= i < s.len() ==> white_space(#[trigger] s[i])
}

pub fn is_white_space(c: char) -> (r: bool)
    ensures
        r == white_space(c),
{
    ('\u{9}' <= c && c <= '\u{d}') || c == '\u{20}' || c == '\u{85}' || c == '\u{a0}' || c
        == '\u{1680}' || ('\u{2000}' <= c && c <= '\u{200a}') || c == '\u{2028}' || c == '\u{2029}'
        || c == '\u{202f}' || c == '\u{205f}' || c == '\u{3000}'
}

/// Whether nothing is left of the text when white space is taken off its ends.
pub fn is_blank(s: &str) -> (r: bool)
    ensures
        r == blank(s@),
{
    let n: usize = s.unicode_len();
    let mut i: usize = 0;
    while i < n
        invariant
            i <= n,
            n == s@.len(),
            forall|k: int| 0 <= k < i ==> white_space(#[trigger] s@[k]),
        decreases n - i,
    {
        if !is_white_space(s.get_char(i)) {
            return false;
        }
        i = i + 1;
    }
    true
}

/// Blanks, tabs and line ends are white space; nothing else below the code point
/// 128 is.
pub proof fn law_white_space_in_ascii(c: char)
    requires
        c as u32 <= 127,
    ensures
        white_space(c) <==> c == ' ' || c == '\t' || c == '\n' || c == '\r' || c as u32 == 11
            || c as u32 == 12,
{
}

/// One visible character is enough for a text not to be blank, and white space
/// around a text makes no difference.
pub proof fn law_white_space_around_makes_no_difference(s: Seq<char>, c: char)
    ensures
        !white_space(c) ==> !blank(s.push(c)) && !blank(seq![c] + s),
        white_space(c) ==> blank(s.push(c)) == blank(s) && blank(seq![c] + s) == blank(s),
{
    let after = s.push(c);
    let before = seq![c] + s;
    assert(after[s.len() as int] == c && before[0] == c);
    assert forall|i: int| 0 <= i < s.len() implies after[i] == s[i] && before[i + 1] == s[i] by {}
    if blank(after) {
        assert forall|i: int| 0 <= i < s.len() implies white_space(#[trigger] s[i]) by {
            assert(after[i] == s[i]);
        }
    }
    if blank(before) {
        assert forall|i: int| 0 <= i < s.len() implies white_space(#[trigger] s[i]) by {
            assert(before[i + 1] == s[i]);
        }
    }
    if blank(s) && white_space(c) {
        assert forall|i: int| 0 <= i < before.len() implies white_space(#[trigger] before[i]) by {
            if i > 0 {
                assert(before[i] == s[i - 1]);
            }
        }
    }
}

/// Beyond ASCII the white space is the next line character, the space that does not
/// break, the spaces of typography and the separators of lines and paragraphs.
pub proof fn law_white_space_beyond_ascii(c: char)
    requires
        c as u32 > 127,
    ensures
        c as u32 == 0x85 || c as u32 == 0xa0 || c as u32 == 0x1680 || c as u32 == 0x3000
            ==> white_space(c),
        0x2000 <= c as u32 <= 0x205f ==> (white_space(c) <==> c as u32 <= 0x200a || c as u32
            == 0x2028 || c as u32 == 0x2029 || c as u32 == 0x202f || c as u32 == 0x205f),
        c as u32 > 0x3000 ==> !white_space(c),
        0xa0 < (c as u32) && (c as u32) < 0x1680 ==> !white_space(c),
        0x1680 < (c as u32) && (c as u32) < 0x2000 ==> !white_space(c),
        0x205f < (c as u32) && (c as u32) < 0x3000 ==> !white_space(c),
{
}

} // verus!
