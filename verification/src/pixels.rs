//! Pixel images with four bytes per pixel.

use vstd::prelude::*;

verus! {

/// One pixel, its bytes in the order in which they lie in memory.
#[derive(Clone, Copy, Debug, PartialEq, Eq, Structural)]
pub struct Pixel {
    pub red: u8,
    pub green: u8,
    pub blue: u8,
    pub alpha: u8,
}

/// The pixel of a fresh image: nothing shows.
pub open spec fn transparent() -> Pixel {
    Pixel { red: 0, green: 0, blue: 0, alpha: 0 }
}

/// White, as opaque as `alpha` says.
pub open spec fn white(alpha: u8) -> Pixel {
    Pixel { red: 255, green: 255, blue: 255, alpha }
}

/// Where the first byte of the pixel in column `x` of row `y` lies, in an image
/// that is `width` pixels wide.
pub open spec fn byte_offset(width: int, x: int, y: int) -> int {
    4 * (y * width + x)
}

/// An image of `width` by `height` pixels, row after row, without padding.
#[derive(Debug)]
pub struct PixelBuffer {
    pub width: u32,
    pub height: u32,
    pub data: Vec<u8>,
}

impl PixelBuffer {
    /// The bytes are those of `width * height` pixels, and a `u32` counts them.
    pub open spec fn wf(self) -> bool {
        &&& self.data@.len() == self.width * self.height * 4
        &&& self.width * self.height * 4 <= u32::MAX
    }

    /// Whether the image has a pixel in column `x` of row `y`.
    pub open spec fn covers(self, x: int, y: int) -> bool {
        0 <= x < self.width && 0 <= y < self.height
    }

    /// The pixel in column `x` of row `y`.
    pub open spec fn pixel(self, x: int, y: int) -> Pixel {
        let at = byte_offset(self.width as int, x, y);
        Pixel {
            red: self.data@[at],
            green: self.data@[at + 1],
            blue: self.data@[at + 2],
            alpha: self.data@[at + 3],
        }
    }

    /// An image in which every pixel is transparent.
    pub fn new(width: u32, height: u32) -> (image: PixelBuffer)
        requires
            width * height * 4 <= u32::MAX,
        ensures
            image.wf(),
            image.width == width,
            image.height == height,
            forall|x: int, y: int| #[trigger]
                image.covers(x, y) ==> image.pixel(x, y) == transparent(),
            image.data@.len() == width * height * 4,
            forall|i: int| 0 <= i < image.data@.len() ==> image.data@[i] == 0,
    {
        assert(0 <= width * height) by (nonlinear_arith);
        let length: usize = (width * height * 4) as usize;
        let image = PixelBuffer { width, height, data: vec![0u8; length] };
        assert forall|x: int, y: int| #[trigger] image.covers(x, y) implies image.pixel(x, y)
            == transparent() by {
            lemma_offset_in_range(image.width as int, image.height as int, x, y);
        }
        image
    }

    /// Paints the pixel in column `x` of row `y` and no other.
    pub fn put(&mut self, x: u32, y: u32, pixel: Pixel)
        requires
            old(self).wf(),
            old(self).covers(x as int, y as int),
        ensures
            final(self).wf(),
            final(self).width == old(self).width,
            final(self).height == old(self).height,
            final(self).pixel(x as int, y as int) == pixel,
            forall|px: int, py: int| #[trigger]
                old(self).covers(px, py) && (px != x || py != y) ==> final(self).pixel(px, py)
                    == old(self).pixel(px, py),
            final(self).data@ == old(self).data@.update(
                4 * (y * old(self).width + x),
                pixel.red,
            ).update(4 * (y * old(self).width + x) + 1, pixel.green).update(
                4 * (y * old(self).width + x) + 2,
                pixel.blue,
            ).update(4 * (y * old(self).width + x) + 3, pixel.alpha),
    {
        proof {
            lemma_offset_in_range(self.width as int, self.height as int, x as int, y as int);
            assert(y * (self.width * 4) == 4 * (y * self.width)) by (nonlinear_arith);
            assert(0 <= y * self.width) by (nonlinear_arith);
            lemma_stride_fits(self.width as int, self.height as int);
        }
        let stride: usize = self.width as usize * 4;
        let at: usize = y as usize * stride + x as usize * 4;
        self.data[at] = pixel.red;
        self.data[at + 1] = pixel.green;
        self.data[at + 2] = pixel.blue;
        self.data[at + 3] = pixel.alpha;
        assert forall|px: int, py: int| #[trigger]
            old(self).covers(px, py) && (px != x || py != y) implies self.pixel(px, py) == old(
            self,
        ).pixel(px, py) by {
            lemma_offset_in_range(self.width as int, self.height as int, px, py);
            lemma_offsets_apart(self.width as int, x as int, y as int, px, py);
        }
    }
}

/// The four bytes of a pixel lie inside the image.
proof fn lemma_offset_in_range(width: int, height: int, x: int, y: int)
    requires
        0 <= x < width,
        0 <= y < height,
    ensures
        0 <= byte_offset(width, x, y),
        byte_offset(width, x, y) + 4 <= width * height * 4,
{
    assert(0 <= y * width) by (nonlinear_arith)
        requires
            0 <= y,
            0 < width,
    ;
    assert(y * width + width <= width * height) by (nonlinear_arith)
        requires
            y + 1 <= height,
            0 < width,
    ;
}

/// Two pixels share no byte.
proof fn lemma_offsets_apart(width: int, x: int, y: int, px: int, py: int)
    requires
        0 <= x < width,
        0 <= px < width,
        px != x || py != y,
    ensures
        byte_offset(width, x, y) + 4 <= byte_offset(width, px, py) || byte_offset(width, px, py) + 4
            <= byte_offset(width, x, y),
{
    if y < py {
        assert(y * width + width <= py * width) by (nonlinear_arith)
            requires
                y + 1 <= py,
                0 < width,
        ;
    } else if py < y {
        assert(py * width + width <= y * width) by (nonlinear_arith)
            requires
                py + 1 <= y,
                0 < width,
        ;
    }
}

/// The rows of an image lie one after the other, a pixel is four bytes in its row, and the image
/// has a pixel in every column of every row.
pub proof fn law_pixel_bytes(image: PixelBuffer, x: int, y: int)
    ensures
        image.covers(x, y) <==> 0 <= x && x < image.width && 0 <= y && y < image.height,
        image.pixel(x, y).red == image.data@[4 * (y * image.width + x)],
        image.pixel(x, y).green == image.data@[4 * (y * image.width + x) + 1],
        image.pixel(x, y).blue == image.data@[4 * (y * image.width + x) + 2],
        image.pixel(x, y).alpha == image.data@[4 * (y * image.width + x) + 3],
        image.wf() ==> image.data@.len() == 4 * (image.width * image.height),
{
}

/// An image whose bytes are those of its pixels, few enough for a `u32`, is well formed.
pub proof fn law_image_is_its_bytes(image: PixelBuffer)
    requires
        image.data@.len() == 4 * (image.width * image.height),
        image.data@.len() <= u32::MAX,
    ensures
        image.wf(),
{
}

/// The size of an image and its pixels determine its bytes.
pub proof fn law_pixels_determine_bytes(a: PixelBuffer, b: PixelBuffer)
    requires
        a.wf(),
        b.wf(),
        a.width == b.width,
        a.height == b.height,
        forall|x: int, y: int| #[trigger] a.covers(x, y) ==> a.pixel(x, y) == b.pixel(x, y),
    ensures
        a.data@ == b.data@,
{
    assert forall|i: int| 0 <= i < a.data@.len() implies a.data@[i] == b.data@[i] by {
        let width = a.width as int;
        let height = a.height as int;
        let place = i / 4;
        assert(width > 0) by (nonlinear_arith)
            requires
                0 <= i < width * height * 4,
                0 <= width,
        ;
        vstd::arithmetic::div_mod::lemma_fundamental_div_mod(place, width);
        let x = place % width;
        let y = place / width;
        assert(0 <= x < width && 0 <= y && y * width + x == place) by (nonlinear_arith)
            requires
                0 <= place,
                0 < width,
                x == place % width,
                y == place / width,
                place == width * y + x,
        ;
        assert(y < height) by (nonlinear_arith)
            requires
                y * width + x == place,
                0 <= x,
                place < width * height,
                0 < width,
        ;
        assert(a.covers(x, y));
        assert(a.pixel(x, y) == b.pixel(x, y));
        assert(byte_offset(width, x, y) == 4 * place);
        let step = i - 4 * place;
        assert(step == 0 || step == 1 || step == 2 || step == 3);
    }
}

/// A row is no longer than the image.
proof fn lemma_stride_fits(width: int, height: int)
    requires
        0 <= width,
        0 < height,
    ensures
        width * 4 <= width * height * 4,
{
    assert(width <= width * height) by (nonlinear_arith)
        requires
            0 <= width,
            1 <= height,
    ;
}

} // verus!
