//! From characters to the glyphs of a font.

use vstd::prelude::*;

use ab_glyph::{Font, FontRef};

use crate::face::{is_plain_face, plain_face};

verus! {

/// The greeting on every display.
pub const GREETING: &'static str = "Hello World";

/// Whether `ab_glyph` reads these bytes, those of a plain face, as a font.
pub uninterp spec fn is_font(data: Seq<u8>) -> bool;

/// The number of the glyph that `ab_glyph` shows for a character, in the font that these bytes
/// hold.
pub uninterp spec fn glyph_number(data: Seq<u8>, c: char) -> u16;

/// Calls `ab_glyph::FontRef::try_from_slice` and tells whether it read a font. Trusted: that the
/// bytes alone decide it, and that it returns on every plain face, as long as there is memory for
/// its list of the subtables. On other bytes it may panic.
#[verifier::external_body]
fn reads_as_font(data: &[u8]) -> (readable: bool)
    requires
        plain_face(data@),
    ensures
        readable == is_font(data@),
{
    FontRef::try_from_slice(data).is_ok()
}

/// Calls `ab_glyph::Font::glyph_id` on the font that `data` holds. Trusted: that the bytes and the
/// character alone decide the glyph, and that the call returns on every plain face that is a font,
/// as long as there is memory for its list of the subtables. A character that the font lacks gives
/// some glyph too.
#[verifier::external_body]
fn look_up_glyph(data: &[u8], c: char) -> (number: u16)
    requires
        plain_face(data@),
        is_font(data@),
    ensures
        number == glyph_number(data@, c),
{
    FontRef::try_from_slice(data).unwrap().glyph_id(c).0
}

/// The greeting, letter by letter.
pub proof fn law_greeting()
    ensures
        GREETING@ == seq!['H', 'e', 'l', 'l', 'o', ' ', 'W', 'o', 'r', 'l', 'd'],
{
    reveal_strlit("Hello World");
}

/// The glyphs that show `text` in the font that `data` holds, in reading order. There are none
/// where the bytes are no plain face or no font.
pub fn text_glyphs(data: &[u8], text: &str) -> (glyphs: Option<Vec<u16>>)
    ensures
        glyphs is Some <==> plain_face(data@) && is_font(data@),
        glyphs matches Some(numbers) ==> {
            &&& numbers@.len() == text@.len()
            &&& forall|i: int|
                0 <= i < numbers@.len() ==> #[trigger] numbers@[i] == glyph_number(
                    data@,
                    text@[i],
                )
        },
{
    if !is_plain_face(data) || !reads_as_font(data) {
        return None;
    }
    let mut numbers: Vec<u16> = Vec::new();
    for c in chars: text.chars()
        invariant
            plain_face(data@),
            is_font(data@),
            chars.seq() == text@,
            numbers@.len() == chars.index(),
            forall|i: int|
                0 <= i < numbers@.len() ==> #[trigger] numbers@[i] == glyph_number(
                    data@,
                    text@[i],
                ),
    {
        numbers.push(look_up_glyph(data, c));
    }
    Some(numbers)
}

/// The glyphs of the greeting in the font that `data` holds. There are none where the bytes are no
/// plain face or no font.
pub fn greeting_glyphs(data: &[u8]) -> (glyphs: Option<Vec<u16>>)
    ensures
        glyphs is Some <==> plain_face(data@) && is_font(data@),
        glyphs matches Some(numbers) ==> {
            &&& numbers@.len() == GREETING@.len()
            &&& forall|i: int|
                0 <= i < numbers@.len() ==> #[trigger] numbers@[i] == glyph_number(
                    data@,
                    GREETING@[i],
                )
        },
{
    text_glyphs(data, GREETING)
}

} // verus!
