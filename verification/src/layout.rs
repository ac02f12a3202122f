//! Where the greeting and the cursor stand on a display.

use vstd::prelude::*;

use crate::crosshair::CURSOR_SIDE;

verus! {

/// A picture that a frame shows.
#[derive(Clone, Copy, Debug, PartialEq, Eq, Structural)]
pub enum Picture {
    Text,
    Cursor,
}

/// A picture and where its upper left corner stands on the display.
#[derive(Clone, Copy, Debug, PartialEq, Eq, Structural)]
pub struct Element {
    pub picture: Picture,
    pub x: i64,
    pub y: i64,
}

/// A place on a display.
#[derive(Clone, Copy, Debug, PartialEq, Eq, Structural)]
pub struct Place {
    pub x: i32,
    pub y: i32,
}

/// The size of a display in pixels.
#[derive(Clone, Copy, Debug, PartialEq, Eq, Structural)]
pub struct Extent {
    pub width: i32,
    pub height: i32,
}

/// `n / d`, with what is left of a unit dropped on either side of zero.
pub open spec fn quotient(n: int, d: int) -> int
    recommends
        d > 0,
{
    if n < 0 {
        -((-n) / d)
    } else {
        n / d
    }
}

/// A text of this width can be centred on a display of this size.
pub open spec fn text_fits(display: Extent, text_width: u32) -> bool {
    &&& text_width <= i32::MAX
    &&& i32::MIN <= display.width - text_width
}

/// The text: centred, a quarter of the display below the top.
pub open spec fn text_element(display: Extent, text_width: int) -> Element {
    Element {
        picture: Picture::Text,
        x: quotient(display.width - text_width, 2) as i64,
        y: quotient(display.height as int, 4) as i64,
    }
}

/// The cursor: its image centred on the pointer.
pub open spec fn cursor_element(pointer: Place) -> Element {
    Element {
        picture: Picture::Cursor,
        x: (pointer.x - CURSOR_SIDE / 2) as i64,
        y: (pointer.y - CURSOR_SIDE / 2) as i64,
    }
}

/// What a display shows, in the order in which it is handed to the renderer: the text, where
/// there is one, then the cursor, where there is one.
pub open spec fn frame_elements(
    display: Extent,
    text_width: Option<u32>,
    cursor: bool,
    pointer: Place,
) -> Seq<Element> {
    let text = match text_width {
        Some(width) => seq![text_element(display, width as int)],
        None => Seq::empty(),
    };
    if cursor {
        text.push(cursor_element(pointer))
    } else {
        text
    }
}

/// Places the text, where its width is given, and the cursor, where it is shown, on a display.
pub fn arrange(
    display: Extent,
    text_width: Option<u32>,
    cursor: bool,
    pointer: Place,
) -> (elements: Vec<Element>)
    requires
        text_width matches Some(width) ==> text_fits(display, width),
    ensures
        elements@ == frame_elements(display, text_width, cursor, pointer),
        text_width matches Some(width) ==> {
            &&& elements@.len() > 0
            &&& elements@[0].picture == Picture::Text
            &&& -1 <= display.width - width - 2 * elements@[0].x <= 1
            &&& -3 <= display.height - 4 * elements@[0].y <= 3
        },
        cursor ==> {
            &&& elements@.len() > 0
            &&& elements@.last().picture == Picture::Cursor
            &&& elements@.last().x + 17 == pointer.x
            &&& elements@.last().y + 17 == pointer.y
        },
{
    let mut elements: Vec<Element> = Vec::new();
    if let Some(width) = text_width {
        let x: i32 = (display.width - width as i32) / 2;
        let y: i32 = display.height / 4;
        elements.push(Element { picture: Picture::Text, x: x as i64, y: y as i64 });
    }
    if cursor {
        let half: i64 = CURSOR_SIDE as i64 / 2;
        elements.push(
            Element {
                picture: Picture::Cursor,
                x: pointer.x as i64 - half,
                y: pointer.y as i64 - half,
            },
        );
    }
    elements
}

/// The text is centred: the room to its left and the room to its right differ by one pixel at
/// most, also where it is wider than the display.
pub proof fn law_text_is_centred(display: Extent, text_width: u32)
    requires
        text_fits(display, text_width),
    ensures
        ({
            let left = text_element(display, text_width as int).x;
            let right = display.width - text_width - left;
            -1 <= left - right <= 1
        }),
{
}

/// The text starts a quarter of the display below its top, to the pixel.
pub proof fn law_text_height(display: Extent, text_width: u32)
    requires
        0 <= display.height,
    ensures
        ({
            let top = text_element(display, text_width as int).y;
            0 <= top && 4 * top <= display.height < 4 * top + 4
        }),
{
}

/// The pointer points at the centre of the cursor image.
pub proof fn law_cursor_is_centred(pointer: Place)
    ensures
        cursor_element(pointer).x + CURSOR_SIDE / 2 == pointer.x,
        cursor_element(pointer).y + CURSOR_SIDE / 2 == pointer.y,
{
}

/// What a display shows, by the numbers. The text comes first and stands in the middle of this very
/// display, or half a pixel off towards its left edge, a quarter of this display below the top,
/// rounded towards it; where a difference is negative, it is rounded towards zero too. The cursor
/// comes last, 17 pixels to the left of the pointer and above it. There is nothing else.
pub proof fn law_frame_by_numbers(
    display: Extent,
    text_width: Option<u32>,
    cursor: bool,
    pointer: Place,
)
    ensures
        ({
            let shown = frame_elements(display, text_width, cursor, pointer);
            &&& text_width is None && !cursor ==> shown.len() == 0
            &&& text_width is Some && !cursor ==> shown.len() == 1
            &&& text_width is None && cursor ==> shown.len() == 1
            &&& text_width is Some && cursor ==> shown.len() == 2
            &&& text_width matches Some(width) ==> {
                let text = shown[0];
                &&& text.picture == Picture::Text
                &&& display.width >= width ==> 0 <= display.width - width - 2 * text.x <= 1
                &&& display.width < width ==> -1 <= display.width - width - 2 * text.x <= 0
                &&& display.height >= 0 ==> 4 * text.y <= display.height < 4 * text.y + 4
                &&& display.height < 0 ==> 4 * text.y - 4 < display.height <= 4 * text.y
            }
            &&& cursor ==> {
                let last = shown[shown.len() - 1];
                &&& last.picture == Picture::Cursor
                &&& last.x + 17 == pointer.x
                &&& last.y + 17 == pointer.y
            }
        }),
{
}

/// A wider display moves the text to the right by half of what it is wider, a higher one moves it
/// down by a quarter, to the pixel, and where the pointer goes the cursor goes.
pub proof fn law_frame_follows_its_display(
    display: Extent,
    other: Extent,
    text_width: u32,
    pointer: Place,
    moved: Place,
)
    requires
        text_width <= display.width <= other.width,
        0 <= display.height <= other.height,
    ensures
        ({
            let here = frame_elements(display, Some(text_width), true, pointer);
            let there = frame_elements(other, Some(text_width), true, moved);
            &&& -1 <= other.width - display.width - 2 * (there[0].x - here[0].x) <= 1
            &&& -3 <= other.height - display.height - 4 * (there[0].y - here[0].y) <= 3
            &&& there[1].x - here[1].x == moved.x - pointer.x
            &&& there[1].y - here[1].y == moved.y - pointer.y
        }),
{
}

/// Every text can be centred on every display with no negative side, as long as an `i32` holds its
/// width.
pub proof fn law_texts_fit_displays(display: Extent, text_width: u32)
    requires
        0 <= display.width,
        text_width <= i32::MAX,
    ensures
        text_fits(display, text_width),
{
}

/// The text stands still: where the pointer is has no part in it, and where the display ends has
/// no part in the place of the cursor.
pub proof fn law_elements_are_independent(
    a: Extent,
    b: Extent,
    text_width: Option<u32>,
    from: Place,
    to: Place,
)
    ensures
        frame_elements(a, text_width, false, from) == frame_elements(a, text_width, false, to),
        frame_elements(a, text_width, true, from).last() == frame_elements(
            b,
            text_width,
            true,
            from,
        ).last(),
{
}

} // verus!
