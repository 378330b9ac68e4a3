//! Recognition of chapter heading lines. A trimmed line is a heading when it
//! has the CJK ordinal form (`第`, one or more numerals, one unit glyph of
//! chapter/section/round/volume, then anything) or the Latin form (`Chapter`,
//! whitespace, a decimal digit, then anything).
use crate::text::{check_space, is_space};
use vstd::prelude::*;

verus! {

/// An ASCII decimal digit.
pub open spec fn is_digit(c: char) -> bool {
    '0' as u32 <= c as u32 && c as u32 <= '9' as u32
}

/// Runtime test for [`is_digit`].
pub fn check_digit(c: char) -> (r: bool)
    ensures
        r == is_digit(c),
{
    '0' as u32 <= c as u32 && c as u32 <= '9' as u32
}

/// A character allowed in the ordinal of a CJK heading: an ASCII digit or
/// one of the CJK numeral glyphs.
pub open spec fn is_numeral(c: char) -> bool {
    is_digit(c) || c == '\u{96F6}' || c == '\u{4E00}' || c == '\u{4E8C}' || c == '\u{4E09}'
        || c == '\u{56DB}' || c == '\u{4E94}' || c == '\u{516D}' || c == '\u{4E03}'
        || c == '\u{516B}' || c == '\u{4E5D}' || c == '\u{5341}' || c == '\u{767E}'
        || c == '\u{5343}' || c == '\u{4E07}'
}

/// Runtime test for [`is_numeral`].
pub fn check_numeral(c: char) -> (r: bool)
    ensures
        r == is_numeral(c),
{
    check_digit(c) || c == '\u{96F6}' || c == '\u{4E00}' || c == '\u{4E8C}' || c == '\u{4E09}'
        || c == '\u{56DB}' || c == '\u{4E94}' || c == '\u{516D}' || c == '\u{4E03}'
        || c == '\u{516B}' || c == '\u{4E5D}' || c == '\u{5341}' || c == '\u{767E}'
        || c == '\u{5343}' || c == '\u{4E07}'
}

/// A unit glyph closing the ordinal of a CJK heading: chapter, section,
/// round or volume.
pub open spec fn is_unit(c: char) -> bool {
    c == '\u{7AE0}' || c == '\u{8282}' || c == '\u{56DE}' || c == '\u{5377}'
}

/// Runtime test for [`is_unit`].
pub fn check_unit(c: char) -> (r: bool)
    ensures
        r == is_unit(c),
{
    c == '\u{7AE0}' || c == '\u{8282}' || c == '\u{56DE}' || c == '\u{5377}'
}

/// The CJK heading form: `第`, one or more numerals, one unit glyph, then
/// arbitrary trailing text.
pub open spec fn is_cjk_heading(l: Seq<char>) -> bool {
    l.len() >= 3 && l[0] == '\u{7B2C}' && exists|j: int|
        2 <= j < l.len() && #[trigger] is_unit(l[j]) && (forall|k: int|
            1 <= k < j ==> is_numeral(#[trigger] l[k]))
}

/// The Latin heading form: the word `Chapter`, one or more whitespace
/// characters, a decimal digit, then arbitrary trailing text.
pub open spec fn is_latin_heading(l: Seq<char>) -> bool {
    l.len() >= 9 && l[0] == 'C' && l[1] == 'h' && l[2] == 'a' && l[3] == 'p' && l[4] == 't'
        && l[5] == 'e' && l[6] == 'r' && exists|j: int|
        8 <= j < l.len() && #[trigger] is_digit(l[j]) && (forall|k: int|
            7 <= k < j ==> is_space(#[trigger] l[k]))
}

/// A line is a chapter heading when it has either form.
pub open spec fn is_heading(l: Seq<char>) -> bool {
    is_cjk_heading(l) || is_latin_heading(l)
}

fn check_cjk_heading(l: &Vec<char>) -> (r: bool)
    ensures
        r == is_cjk_heading(l@),
{
    if l.len() < 3 || l[0] != '\u{7B2C}' {
        return false;
    }
    let mut i: usize = 1;
    while i < l.len() && check_numeral(l[i])
        invariant
            1 <= i <= l@.len(),
            forall|k: int| 1 <= k < i ==> is_numeral(#[trigger] l@[k]),
        decreases l@.len() - i,
    {
        i += 1;
    }
    // i is the end of the maximal numeral run after the ordinal marker.
    let hit = i >= 2 && i < l.len() && check_unit(l[i]);
    proof {
        if hit {
            assert(is_cjk_heading(l@));
        } else {
            if is_cjk_heading(l@) {
                let j = choose|j: int|
                    2 <= j < l@.len() && #[trigger] is_unit(l@[j]) && (forall|k: int|
                        1 <= k < j ==> is_numeral(#[trigger] l@[k]));
                if i < l@.len() {
                    // the run stopped on a non-numeral character
                    assert(!is_numeral(l@[i as int]));
                    if j < i {
                        assert(is_numeral(l@[j]));
                        assert(false);
                    } else if j > i {
                        assert(is_numeral(l@[i as int]));
                        assert(false);
                    } else {
                        assert(false);
                    }
                } else {
                    assert(is_numeral(l@[j]));
                    assert(false);
                }
            }
        }
    }
    hit
}

fn check_latin_heading(l: &Vec<char>) -> (r: bool)
    ensures
        r == is_latin_heading(l@),
{
    if l.len() < 9 || l[0] != 'C' || l[1] != 'h' || l[2] != 'a' || l[3] != 'p' || l[4] != 't'
        || l[5] != 'e' || l[6] != 'r' {
        return false;
    }
    let mut i: usize = 7;
    while i < l.len() && check_space(l[i])
        invariant
            7 <= i <= l@.len(),
            forall|k: int| 7 <= k < i ==> is_space(#[trigger] l@[k]),
        decreases l@.len() - i,
    {
        i += 1;
    }
    // i is the end of the maximal whitespace run after the word.
    let hit = i >= 8 && i < l.len() && check_digit(l[i]);
    proof {
        if hit {
            assert(is_latin_heading(l@));
        } else {
            if is_latin_heading(l@) {
                let j = choose|j: int|
                    8 <= j < l@.len() && #[trigger] is_digit(l@[j]) && (forall|k: int|
                        7 <= k < j ==> is_space(#[trigger] l@[k]));
                if i < l@.len() {
                    assert(!is_space(l@[i as int]));
                    if j < i {
                        assert(is_space(l@[j]));
                        assert(false);
                    } else if j > i {
                        assert(is_space(l@[i as int]));
                        assert(false);
                    } else {
                        assert(false);
                    }
                } else {
                    assert(is_space(l@[j]));
                    assert(false);
                }
            }
        }
    }
    hit
}

/// Runtime test for [`is_heading`], applied to an already trimmed line.
pub fn check_heading(l: &Vec<char>) -> (r: bool)
    ensures
        r == is_heading(l@),
{
    let cjk = check_cjk_heading(l);
    if cjk {
        true
    } else {
        check_latin_heading(l)
    }
}

} // verus!
