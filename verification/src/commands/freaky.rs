//! `/freaky`: text rewritten in bold script letters.
use vstd::prelude::*;

verus! {

/// The bold script letter for an ASCII letter (`a`..`z` from U+1D4EA,
/// `A`..`Z` from U+1D4D0); every other character is kept.
pub open spec fn freaky_char(c: char) -> char {
    if 'a' <= c && c <= 'z' {
        ((c as u32) + 119945) as char
    } else if 'A' <= c && c <= 'Z' {
        ((c as u32) + 119951) as char
    } else {
        c
    }
}

/// The bold script letter for `c`.
pub fn freaktionary(c: char) -> (r: char)
    ensures
        r == freaky_char(c),
{
    match c {
        'a'=> '𝓪',
        'b'=> '𝓫',
        'c'=> '𝓬',
        'd'=> '𝓭',
        'e'=> '𝓮',
        'f'=> '𝓯',
        'g'=> '𝓰',
        'h'=> '𝓱',
        'i'=> '𝓲',
        'j'=> '𝓳',
        'k'=> '𝓴',
        'l'=> '𝓵',
        'm'=> '𝓶',
        'n'=> '𝓷',
        'o'=> '𝓸',
        'p'=> '𝓹',
        'q'=> '𝓺',
        'r'=> '𝓻',
        's'=> '𝓼',
        't'=> '𝓽',
        'u'=> '𝓾',
        'v'=> '𝓿',
        'w'=> '𝔀',
        'x'=> '𝔁',
        'y'=> '𝔂',
        'z'=> '𝔃',
        'A'=> '𝓐',
        'B'=> '𝓑',
        'C'=> '𝓒',
        'D'=> '𝓓',
        'E'=> '𝓔',
        'F'=> '𝓕',
        'G'=> '𝓖',
        'H'=> '𝓗',
        'I'=> '𝓘',
        'J'=> '𝓙',
        'K'=> '𝓚',
        'L'=> '𝓛',
        'M'=> '𝓜',
        'N'=> '𝓝',
        'O'=> '𝓞',
        'P'=> '𝓟',
        'Q'=> '𝓠',
        'R'=> '𝓡',
        'S'=> '𝓢',
        'T'=> '𝓣',
        'U'=> '𝓤',
        'V'=> '𝓥',
        'W'=> '𝓦',
        'X'=> '𝓧',
        'Y'=> '𝓨',
        'Z'=> '𝓩',
        ' ' => ' ',
        _ => c,
    }
}

/// The text `/freaky` replies with: every letter of `text` in bold script.
pub fn run(text: &str) -> (r: String)
    ensures
        r@ == text@.map_values(|c: char| freaky_char(c)),
{
    let cs = crate::text::chars_of(text);
    let mut out = String::new();
    let mut i: usize = 0;
    while i < cs.len()
        invariant
            i <= cs.len(),
            cs@ == text@,
            out@ == text@.take(i as int).map_values(|c: char| freaky_char(c)),
        decreases cs.len() - i,
    {
        let f = freaktionary(cs[i]);
        crate::text::push_char(&mut out, f);
        i = i + 1;
        assert(out@ == text@.take(i as int).map_values(|c: char| freaky_char(c)));
    }
    assert(text@.take(cs.len() as int) == text@);
    out
}

/// Styling a character twice is styling it once: the bold script letters
/// are kept as they are.
pub proof fn freaky_char_idempotent(c: char)
    ensures
        freaky_char(freaky_char(c)) == freaky_char(c),
{
}

/// Styling a text twice is styling it once, and styling keeps its length.
pub proof fn freaky_text_idempotent(text: Seq<char>)
    ensures
        text.map_values(|c: char| freaky_char(c)).len() == text.len(),
        text.map_values(|c: char| freaky_char(c)).map_values(|c: char| freaky_char(c))
            == text.map_values(|c: char| freaky_char(c)),
{
    let once = text.map_values(|c: char| freaky_char(c));
    let twice = once.map_values(|c: char| freaky_char(c));
    assert forall|i: int| 0 <= i < twice.len() implies twice[i] == once[i] by {
        freaky_char_idempotent(text[i]);
    }
    assert(twice =~= once);
}

/// Each lowercase ASCII letter becomes the bold script small letter at the
/// same place from U+1D4EA (MATHEMATICAL BOLD SCRIPT SMALL A), each
/// uppercase one the capital from U+1D4D0, and every other character is
/// left as it is.
pub proof fn freaky_letters_are_bold_script(c: char)
    ensures
        'a' <= c <= 'z' ==> freaky_char(c) as u32 == 0x1D4EA + (c as u32 - 'a' as u32),
        'A' <= c <= 'Z' ==> freaky_char(c) as u32 == 0x1D4D0 + (c as u32 - 'A' as u32),
        !('a' <= c <= 'z') && !('A' <= c <= 'Z') ==> freaky_char(c) == c,
{
}

/// `/freaky` styles each character of the text on its own, in place.
pub proof fn freaky_text_styles_each_character(text: Seq<char>, i: int)
    requires
        0 <= i < text.len(),
    ensures
        text.map_values(|c: char| freaky_char(c)).len() == text.len(),
        ('a' <= text[i] <= 'z') ==> text.map_values(|c: char| freaky_char(c))[i] as u32 == 0x1D4EA
            + (text[i] as u32 - 'a' as u32),
        ('A' <= text[i] <= 'Z') ==> text.map_values(|c: char| freaky_char(c))[i] as u32 == 0x1D4D0
            + (text[i] as u32 - 'A' as u32),
        !('a' <= text[i] <= 'z') && !('A' <= text[i] <= 'Z') ==> text.map_values(
            |c: char| freaky_char(c),
        )[i] == text[i],
{
    freaky_letters_are_bold_script(text[i]);
}

} // verus!
