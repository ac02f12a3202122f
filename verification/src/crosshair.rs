//! The picture of the cursor: a white crosshair.

use vstd::prelude::*;

use crate::pixels::{Pixel, PixelBuffer};

verus! {

/// The width of the hub of the cursor, between two opposite arms.
pub const CURSOR_SIZE: u32 = 6;

/// How far the bars of the cursor reach to either side of their axis.
pub const CURSOR_THICKNESS: u32 = 4;

/// The length of an arm of the cursor.
pub const CURSOR_ARM: u32 = 14;

/// The length of a side of the cursor image, which is square.
pub const CURSOR_SIDE: u32 = 34;

/// The longest side of a square image whose bytes a `u32` can count.
pub const LONGEST_SIDE: u32 = 32767;

/// The length of a side of a crosshair image, which is square.
pub open spec fn crosshair_side(size: int, arm: int) -> int {
    arm * 2 + size
}

/// How far two coordinates are apart.
pub open spec fn distance(a: int, b: int) -> int {
    if a < b {
        b - a
    } else {
        a - b
    }
}

/// Whether the crosshair covers column `x` of row `y`: the place lies on the upright bar or
/// on the level bar. A bar is the set of places less than `thickness` off its axis and less
/// than `arm + size / 2` off the centre of the image along that axis.
pub open spec fn on_crosshair(size: int, thickness: int, arm: int, x: int, y: int) -> bool {
    let centre = crosshair_side(size, arm) / 2;
    let reach = arm + size / 2;
    let dx = distance(x, centre);
    let dy = distance(y, centre);
    (dx < thickness && dy < reach) || (dy < thickness && dx < reach)
}

/// The pixel of a crosshair image in column `x` of row `y`.
pub open spec fn crosshair_pixel(size: int, thickness: int, arm: int, x: int, y: int) -> Pixel {
    if on_crosshair(size, thickness, arm, x, y) {
        crate::pixels::white(255)
    } else {
        crate::pixels::transparent()
    }
}

/// `image` is the picture of the crosshair with these measures.
pub open spec fn is_crosshair(
    image: PixelBuffer,
    size: int,
    thickness: int,
    arm: int,
) -> bool {
    &&& image.wf()
    &&& image.width == crosshair_side(size, arm)
    &&& image.height == crosshair_side(size, arm)
    &&& forall|x: int, y: int| #[trigger]
        image.covers(x, y) ==> image.pixel(x, y) == crosshair_pixel(size, thickness, arm, x, y)
}

fn absolute_difference(a: u32, b: u32) -> (d: u32)
    ensures
        d == distance(a as int, b as int),
{
    if a < b {
        b - a
    } else {
        a - b
    }
}

/// Draws an opaque white crosshair on a transparent square.
pub fn create_crosshair_buffer(size: u32, thickness: u32, arm: u32) -> (image: Option<PixelBuffer>)
    requires
        crosshair_side(size as int, arm as int) <= LONGEST_SIDE,
    ensures
        image is Some,
        is_crosshair(image->0, size as int, thickness as int, arm as int),
        image->0.width == 2 * arm + size,
        image->0.height == 2 * arm + size,
{
    proof {
        law_longest_side(crosshair_side(size as int, arm as int));
    }
    let w: u32 = arm * 2 + size;
    let h: u32 = arm * 2 + size;
    let mut image = PixelBuffer::new(w, h);
    let cx: u32 = w / 2;
    let cy: u32 = h / 2;
    let reach: u32 = arm + size / 2;

    let mut y: u32 = 0;
    while y < h
        invariant
            y <= h,
            w == crosshair_side(size as int, arm as int),
            h == w,
            cx == w / 2,
            cy == h / 2,
            reach == arm + size / 2,
            image.wf(),
            image.width == w,
            image.height == h,
            forall|px: int, py: int| #[trigger]
                image.covers(px, py) ==> image.pixel(px, py) == (if py < y {
                    crosshair_pixel(size as int, thickness as int, arm as int, px, py)
                } else {
                    crate::pixels::transparent()
                }),
        decreases h - y,
    {
        let mut x: u32 = 0;
        while x < w
            invariant
                x <= w,
                y < h,
                w == crosshair_side(size as int, arm as int),
                h == w,
                cx == w / 2,
                cy == h / 2,
                reach == arm + size / 2,
                image.wf(),
                image.width == w,
                image.height == h,
                forall|px: int, py: int| #[trigger]
                    image.covers(px, py) ==> image.pixel(px, py) == (if py < y || (py == y && px
                        < x) {
                        crosshair_pixel(size as int, thickness as int, arm as int, px, py)
                    } else {
                        crate::pixels::transparent()
                    }),
            decreases w - x,
        {
            let dx: u32 = absolute_difference(x, cx);
            let dy: u32 = absolute_difference(y, cy);
            let on = (dx < thickness && dy < reach) || (dy < thickness && dx < reach);
            let ghost before = image;
            if on {
                image.put(x, y, Pixel { red: 255, green: 255, blue: 255, alpha: 255 });
            }
            assert forall|px: int, py: int| #[trigger] image.covers(px, py) implies image.pixel(
                px,
                py,
            ) == (if py < y || (py == y && px < x + 1) {
                crosshair_pixel(size as int, thickness as int, arm as int, px, py)
            } else {
                crate::pixels::transparent()
            }) by {
                assert(before.covers(px, py));
            }
            x = x + 1;
        }
        y = y + 1;
    }
    Some(image)
}

/// Draws the cursor.
pub fn cursor_image() -> (image: Option<PixelBuffer>)
    ensures
        image is Some,
        is_crosshair(
            image->0,
            CURSOR_SIZE as int,
            CURSOR_THICKNESS as int,
            CURSOR_ARM as int,
        ),
        image->0.width == CURSOR_SIDE,
        image->0.height == CURSOR_SIDE,
{
    create_crosshair_buffer(CURSOR_SIZE, CURSOR_THICKNESS, CURSOR_ARM)
}

/// `LONGEST_SIDE` is the limit: the bytes of a square image are few enough for a `u32` exactly
/// where its side is no longer.
pub proof fn law_longest_side(side: int)
    requires
        0 <= side,
    ensures
        side * side * 4 <= u32::MAX <==> side <= LONGEST_SIDE,
{
    if side <= LONGEST_SIDE {
        assert(side * side <= 32767 * 32767) by (nonlinear_arith)
            requires
                0 <= side <= 32767,
        ;
    } else {
        assert(side * side >= 32768 * 32768) by (nonlinear_arith)
            requires
                side >= 32768,
        ;
    }
}

/// A place on a bar of the crosshair is opaque white. The bars cross in the middle of the image;
/// each is all that is less than `thickness` off its axis, and ends where it is `arm` and half of
/// `size` off the middle.
pub proof fn law_bars_are_white(
    image: PixelBuffer,
    size: int,
    thickness: int,
    arm: int,
    along: int,
    across: int,
    c: int,
)
    requires
        is_crosshair(image, size, thickness, arm),
        0 <= c < 4,
        0 <= along < image.width,
        0 <= across < image.width,
        -thickness < across - image.width as int / 2 < thickness,
        -(arm + size / 2) < along - image.width as int / 2 < arm + size / 2,
    ensures
        image.data@[4 * (along * image.width + across) + c] == 255,
        image.data@[4 * (across * image.width + along) + c] == 255,
{
    assert(image.covers(across, along));
    assert(image.covers(along, across));
    assert(image.pixel(across, along) == crate::pixels::white(255));
    assert(image.pixel(along, across) == crate::pixels::white(255));
    assert(c == 0 || c == 1 || c == 2 || c == 3);
}

/// A place off both bars of the crosshair is transparent: one at least `thickness` off both axes,
/// one off an axis and past the end of the bar that lies across it, and one past the ends of both
/// bars.
pub proof fn law_corners_are_transparent(
    image: PixelBuffer,
    size: int,
    thickness: int,
    arm: int,
    x: int,
    y: int,
    c: int,
)
    requires
        is_crosshair(image, size, thickness, arm),
        0 <= x < image.width,
        0 <= y < image.height,
        0 <= c < 4,
        ({
            let dx = x - image.width as int / 2;
            let dy = y - image.height as int / 2;
            let end = arm + size / 2;
            ||| (dx >= thickness || -dx >= thickness) && (dy >= thickness || -dy >= thickness)
            ||| (dx >= thickness || -dx >= thickness) && (dx >= end || -dx >= end)
            ||| (dy >= thickness || -dy >= thickness) && (dy >= end || -dy >= end)
            ||| (dx >= end || -dx >= end) && (dy >= end || -dy >= end)
        }),
    ensures
        image.data@[4 * (y * image.width + x) + c] == 0,
{
    assert(image.covers(x, y));
    assert(image.pixel(x, y) == crate::pixels::transparent());
    assert(c == 0 || c == 1 || c == 2 || c == 3);
}

/// The image of a crosshair is a square of two arms and the hub between them, and holds four bytes
/// for each of its pixels.
pub proof fn law_crosshair_is_square(image: PixelBuffer, size: int, thickness: int, arm: int)
    requires
        is_crosshair(image, size, thickness, arm),
    ensures
        image.width == 2 * arm + size,
        image.height == 2 * arm + size,
        image.data@.len() == 4 * ((2 * arm + size) * (2 * arm + size)),
{
}

/// The cursor: a square of 34 pixels with bars of seven pixels, of which the first row and the
/// first column stay free.
pub proof fn law_cursor_bars(image: PixelBuffer, x: int, y: int, c: int)
    requires
        is_crosshair(
            image,
            CURSOR_SIZE as int,
            CURSOR_THICKNESS as int,
            CURSOR_ARM as int,
        ),
        0 <= x < 34,
        0 <= y < 34,
        0 <= c < 4,
    ensures
        image.data@.len() == 34 * 34 * 4,
        image.data@[4 * (34 * y + x) + c] == (if 0 < x && 0 < y && (14 <= x <= 20 || 14 <= y <= 20) {
            255u8
        } else {
            0u8
        }),
{
    assert(image.covers(x, y));
    assert(y * image.width == 34 * y) by (nonlinear_arith)
        requires
            image.width == 34,
    ;
    assert(c == 0 || c == 1 || c == 2 || c == 3);
}

/// A crosshair is its own mirror image across the falling diagonal.
pub proof fn law_crosshair_transposes(
    image: PixelBuffer,
    size: int,
    thickness: int,
    arm: int,
    x: int,
    y: int,
)
    requires
        is_crosshair(image, size, thickness, arm),
        image.covers(x, y),
    ensures
        image.covers(y, x),
        image.pixel(y, x) == image.pixel(x, y),
{
    assert(image.covers(y, x));
}

/// A crosshair is its own mirror image across both of its axes: turning a column over the
/// centre, or a row, changes no pixel as long as the place stays inside the image.
pub proof fn law_crosshair_mirrors(
    image: PixelBuffer,
    size: int,
    thickness: int,
    arm: int,
    x: int,
    y: int,
)
    requires
        is_crosshair(image, size, thickness, arm),
        image.covers(x, y),
    ensures
        ({
            let turned = 2 * (crosshair_side(size, arm) / 2) - x;
            image.covers(turned, y) ==> image.pixel(turned, y) == image.pixel(x, y)
        }),
        ({
            let turned = 2 * (crosshair_side(size, arm) / 2) - y;
            image.covers(x, turned) ==> image.pixel(x, turned) == image.pixel(x, y)
        }),
{
}

/// A crosshair holds two kinds of pixel only: opaque white ones and transparent ones.
pub proof fn law_crosshair_colours(
    image: PixelBuffer,
    size: int,
    thickness: int,
    arm: int,
    x: int,
    y: int,
)
    requires
        is_crosshair(image, size, thickness, arm),
        image.covers(x, y),
    ensures
        image.pixel(x, y) == crate::pixels::white(255) || image.pixel(x, y)
            == crate::pixels::transparent(),
{
}

/// The side that places the cursor on a frame is the side of the image that is drawn for it,
/// and the centre of the image is painted.
pub proof fn law_cursor_side(image: PixelBuffer)
    requires
        is_crosshair(
            image,
            CURSOR_SIZE as int,
            CURSOR_THICKNESS as int,
            CURSOR_ARM as int,
        ),
    ensures
        image.width == CURSOR_SIDE,
        image.height == CURSOR_SIDE,
        image.pixel(CURSOR_SIDE as int / 2, CURSOR_SIDE as int / 2) == crate::pixels::white(255),
{
    assert(image.covers(CURSOR_SIDE as int / 2, CURSOR_SIDE as int / 2));
}

} // verus!
