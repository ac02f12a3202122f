//! The picture of a line of text, painted from the coverage of its glyphs.

use vstd::prelude::*;

use crate::pixels::{Pixel, PixelBuffer};

verus! {

/// How much of one place of the picture a glyph covers.
#[derive(Clone, Copy, Debug, PartialEq, Eq, Structural)]
pub struct Coverage {
    pub x: u32,
    pub y: u32,
    pub alpha: u8,
}

impl Coverage {
    /// Whether it is about column `x` of row `y`.
    pub open spec fn hits(self, x: int, y: int) -> bool {
        self.x == x && self.y == y
    }
}

/// What one glyph covers: nothing where it has no outline.
pub open spec fn glyph_ink(glyph: Option<Vec<Coverage>>) -> Seq<Coverage> {
    match glyph {
        Some(places) => places@,
        None => Seq::empty(),
    }
}

/// What a line of glyphs covers, glyph after glyph.
pub open spec fn line_ink(glyphs: Seq<Option<Vec<Coverage>>>) -> Seq<Coverage>
    decreases glyphs.len(),
{
    if glyphs.len() == 0 {
        Seq::empty()
    } else {
        line_ink(glyphs.drop_last()) + glyph_ink(glyphs.last())
    }
}

/// The pixel in column `x` of row `y` once `ink` is painted: white, as opaque as the last
/// coverage of that place says, or transparent where there is none.
pub open spec fn inked_pixel(ink: Seq<Coverage>, x: int, y: int) -> Pixel
    decreases ink.len(),
{
    if ink.len() == 0 {
        crate::pixels::transparent()
    } else if ink.last().hits(x, y) {
        crate::pixels::white(ink.last().alpha)
    } else {
        inked_pixel(ink.drop_last(), x, y)
    }
}

/// `image` shows `ink` and nothing else.
pub open spec fn shows_ink(image: PixelBuffer, ink: Seq<Coverage>) -> bool {
    forall|x: int, y: int| #[trigger]
        image.covers(x, y) ==> image.pixel(x, y) == inked_pixel(ink, x, y)
}

/// Paints one coverage, which goes unseen where it lies outside the image.
fn ink_place(image: &mut PixelBuffer, place: Coverage, Ghost(ink): Ghost<Seq<Coverage>>)
    requires
        old(image).wf(),
        shows_ink(*old(image), ink),
    ensures
        final(image).wf(),
        final(image).width == old(image).width,
        final(image).height == old(image).height,
        shows_ink(*final(image), ink.push(place)),
{
    if place.x < image.width && place.y < image.height {
        image.put(
            place.x,
            place.y,
            Pixel { red: 255, green: 255, blue: 255, alpha: place.alpha },
        );
    }
    assert forall|x: int, y: int| #[trigger] image.covers(x, y) implies image.pixel(x, y)
        == inked_pixel(ink.push(place), x, y) by {
        assert(ink.push(place).drop_last() == ink);
        assert(old(image).covers(x, y));
    }
}

/// Paints the line of text whose glyphs cover these places on an image of `width` by `height`
/// pixels, and returns it with its size. There is no image where it would hold no pixel.
pub fn create_hello_world_buffer(
    width: u32,
    height: u32,
    glyphs: &Vec<Option<Vec<Coverage>>>,
) -> (text: Option<(PixelBuffer, (u32, u32))>)
    requires
        width * height * 4 <= u32::MAX,
    ensures
        text is None <==> width == 0 || height == 0,
        text matches Some((image, size)) ==> {
            &&& size == (width, height)
            &&& image.wf()
            &&& image.width == width
            &&& image.height == height
            &&& shows_ink(image, line_ink(glyphs@))
        },
{
    if width == 0 || height == 0 {
        return None;
    }
    let mut image = PixelBuffer::new(width, height);
    let mut g: usize = 0;
    while g < glyphs.len()
        invariant
            g <= glyphs@.len(),
            image.wf(),
            image.width == width,
            image.height == height,
            shows_ink(image, line_ink(glyphs@.take(g as int))),
        decreases glyphs@.len() - g,
    {
        let ghost before = line_ink(glyphs@.take(g as int));
        proof {
            assert(glyphs@.take(g + 1).drop_last() == glyphs@.take(g as int));
        }
        if let Some(places) = &glyphs[g] {
            let mut p: usize = 0;
            while p < places.len()
                invariant
                    p <= places@.len(),
                    image.wf(),
                    image.width == width,
                    image.height == height,
                    shows_ink(image, before + places@.take(p as int)),
                decreases places@.len() - p,
            {
                ink_place(&mut image, places[p], Ghost(before + places@.take(p as int)));
                proof {
                    assert((before + places@.take(p as int)).push(places@[p as int]) == before
                        + places@.take(p + 1));
                }
                p = p + 1;
            }
            proof {
                assert(places@.take(places@.len() as int) == places@);
            }
        }
        g = g + 1;
    }
    proof {
        assert(glyphs@.take(glyphs@.len() as int) == glyphs@);
    }
    Some((image, (width, height)))
}

/// Where ink is painted, the last coverage of a place is the one that shows.
pub proof fn law_last_coverage_shows(ink: Seq<Coverage>, i: int)
    requires
        0 <= i < ink.len(),
        forall|j: int| i < j < ink.len() ==> !(#[trigger] ink[j]).hits(ink[i].x as int, ink[i].y as int),
    ensures
        inked_pixel(ink, ink[i].x as int, ink[i].y as int) == crate::pixels::white(ink[i].alpha),
    decreases ink.len(),
{
    if i < ink.len() - 1 {
        assert(!ink.last().hits(ink[i].x as int, ink[i].y as int));
        law_last_coverage_shows(ink.drop_last(), i);
    }
}

/// A place that no coverage is about stays transparent.
pub proof fn law_uncovered_place_stays_transparent(ink: Seq<Coverage>, x: int, y: int)
    requires
        forall|j: int| 0 <= j < ink.len() ==> !(#[trigger] ink[j]).hits(x, y),
    ensures
        inked_pixel(ink, x, y) == crate::pixels::transparent(),
    decreases ink.len(),
{
    if ink.len() > 0 {
        assert(!ink.last().hits(x, y));
        law_uncovered_place_stays_transparent(ink.drop_last(), x, y);
    }
}

/// A glyph with an outline puts down its own coverage, place after place, behind that of the glyphs
/// before it, and nothing else; without glyphs there is none.
pub proof fn law_glyph_puts_down_its_coverage(
    before: Seq<Option<Vec<Coverage>>>,
    places: Vec<Coverage>,
)
    ensures
        line_ink(before.push(Some(places))) == line_ink(before) + places@,
        line_ink(before.push(None)) == line_ink(before),
        line_ink(Seq::empty()) == Seq::<Coverage>::empty(),
{
    assert(before.push(Some(places)).drop_last() == before);
    assert(before.push(None).drop_last() == before);
}

/// The text shows what its glyphs cover: a place inside the image is white and as opaque as the
/// coverage at `p` of the glyph at `g` says, where no later coverage is about the same place.
pub proof fn law_text_shows_its_glyphs(
    image: PixelBuffer,
    glyphs: Seq<Option<Vec<Coverage>>>,
    g: int,
    p: int,
)
    requires
        shows_ink(image, line_ink(glyphs)),
        0 <= g < glyphs.len(),
        glyphs[g] is Some,
        0 <= p < glyphs[g]->0@.len(),
        glyphs[g]->0@[p].x < image.width,
        glyphs[g]->0@[p].y < image.height,
        forall|h: int, q: int|
            #![trigger glyphs[h]->0@[q]]
            g <= h < glyphs.len() && (h == g ==> p < q) && glyphs[h] is Some && 0 <= q
                < glyphs[h]->0@.len() ==> glyphs[h]->0@[q].x != glyphs[g]->0@[p].x
                || glyphs[h]->0@[q].y != glyphs[g]->0@[p].y,
    ensures
        ({
            let place = glyphs[g]->0@[p];
            let at = 4 * (place.y * image.width + place.x);
            &&& image.data@[at] == 255
            &&& image.data@[at + 1] == 255
            &&& image.data@[at + 2] == 255
            &&& image.data@[at + 3] == place.alpha
        }),
{
    let place = glyphs[g]->0@[p];
    lemma_last_glyph_shows(glyphs, g, p);
    assert(image.covers(place.x as int, place.y as int));
    assert(image.pixel(place.x as int, place.y as int) == crate::pixels::white(place.alpha));
}

/// A place of the text that no glyph covers is transparent.
pub proof fn law_text_is_clear_elsewhere(
    image: PixelBuffer,
    glyphs: Seq<Option<Vec<Coverage>>>,
    x: int,
    y: int,
    c: int,
)
    requires
        shows_ink(image, line_ink(glyphs)),
        0 <= x < image.width,
        0 <= y < image.height,
        0 <= c < 4,
        forall|h: int, q: int|
            #![trigger glyphs[h]->0@[q]]
            0 <= h < glyphs.len() && glyphs[h] is Some && 0 <= q < glyphs[h]->0@.len()
                ==> glyphs[h]->0@[q].x != x || glyphs[h]->0@[q].y != y,
    ensures
        image.data@[4 * (y * image.width + x) + c] == 0,
{
    lemma_bare_place(glyphs, x, y);
    assert(image.covers(x, y));
    assert(image.pixel(x, y) == crate::pixels::transparent());
    assert(c == 0 || c == 1 || c == 2 || c == 3);
}

/// Ink about other places changes nothing about a place.
proof fn lemma_ink_elsewhere(before: Seq<Coverage>, after: Seq<Coverage>, x: int, y: int)
    requires
        forall|q: int| 0 <= q < after.len() ==> !(#[trigger] after[q]).hits(x, y),
    ensures
        inked_pixel(before + after, x, y) == inked_pixel(before, x, y),
    decreases after.len(),
{
    if after.len() == 0 {
        assert(before + after == before);
    } else {
        assert(!after[after.len() - 1].hits(x, y));
        lemma_ink_elsewhere(before, after.drop_last(), x, y);
        assert((before + after).drop_last() == before + after.drop_last());
    }
}

/// The last coverage of a place in a line of glyphs is the one that shows.
proof fn lemma_last_glyph_shows(glyphs: Seq<Option<Vec<Coverage>>>, g: int, p: int)
    requires
        0 <= g < glyphs.len(),
        glyphs[g] is Some,
        0 <= p < glyphs[g]->0@.len(),
        forall|h: int, q: int|
            #![trigger glyphs[h]->0@[q]]
            g <= h < glyphs.len() && (h == g ==> p < q) && glyphs[h] is Some && 0 <= q
                < glyphs[h]->0@.len() ==> glyphs[h]->0@[q].x != glyphs[g]->0@[p].x
                || glyphs[h]->0@[q].y != glyphs[g]->0@[p].y,
    ensures
        inked_pixel(
            line_ink(glyphs),
            glyphs[g]->0@[p].x as int,
            glyphs[g]->0@[p].y as int,
        ) == crate::pixels::white(glyphs[g]->0@[p].alpha),
    decreases glyphs.len(),
{
    let last = glyphs.len() - 1;
    let shorter = glyphs.drop_last();
    let place = glyphs[g]->0@[p];
    let before = line_ink(shorter);
    if g == last {
        let places = glyphs[g]->0@;
        let ink = before + places;
        assert forall|j: int| before.len() + p < j < ink.len() implies !(#[trigger] ink[j]).hits(
            place.x as int,
            place.y as int,
        ) by {
            assert(ink[j] == glyphs[g]->0@[j - before.len()]);
        }
        assert(ink[before.len() + p] == place);
        law_last_coverage_shows(ink, before.len() + p);
    } else {
        assert forall|h: int, q: int|
            #![trigger shorter[h]->0@[q]]
            g <= h < shorter.len() && (h == g ==> p < q) && shorter[h] is Some && 0 <= q
                < shorter[h]->0@.len() implies shorter[h]->0@[q].x != place.x
            || shorter[h]->0@[q].y != place.y by {
            assert(shorter[h] == glyphs[h]);
            assert(glyphs[h]->0@[q] == shorter[h]->0@[q]);
        }
        assert(shorter[g] == glyphs[g]);
        lemma_last_glyph_shows(shorter, g, p);
        let after = glyph_ink(glyphs[last]);
        assert forall|q: int| 0 <= q < after.len() implies !(#[trigger] after[q]).hits(
            place.x as int,
            place.y as int,
        ) by {
            assert(after[q] == glyphs[last]->0@[q]);
        }
        lemma_ink_elsewhere(before, after, place.x as int, place.y as int);
    }
}

/// A place that no glyph of a line covers stays transparent.
proof fn lemma_bare_place(glyphs: Seq<Option<Vec<Coverage>>>, x: int, y: int)
    requires
        forall|h: int, q: int|
            #![trigger glyphs[h]->0@[q]]
            0 <= h < glyphs.len() && glyphs[h] is Some && 0 <= q < glyphs[h]->0@.len()
                ==> glyphs[h]->0@[q].x != x || glyphs[h]->0@[q].y != y,
    ensures
        inked_pixel(line_ink(glyphs), x, y) == crate::pixels::transparent(),
    decreases glyphs.len(),
{
    if glyphs.len() > 0 {
        let shorter = glyphs.drop_last();
        let last = glyphs.len() - 1;
        assert forall|h: int, q: int|
            #![trigger shorter[h]->0@[q]]
            0 <= h < shorter.len() && shorter[h] is Some && 0 <= q
                < shorter[h]->0@.len() implies shorter[h]->0@[q].x != x || shorter[h]->0@[q].y
            != y by {
            assert(glyphs[h]->0@[q] == shorter[h]->0@[q]);
        }
        lemma_bare_place(shorter, x, y);
        let after = glyph_ink(glyphs[last]);
        assert forall|q: int| 0 <= q < after.len() implies !(#[trigger] after[q]).hits(x, y) by {
            assert(after[q] == glyphs[last]->0@[q]);
        }
        lemma_ink_elsewhere(line_ink(shorter), after, x, y);
    }
}

/// A text holds white pixels, more or less opaque, and transparent ones.
pub proof fn law_text_colours(ink: Seq<Coverage>, x: int, y: int)
    ensures
        inked_pixel(ink, x, y) == crate::pixels::transparent() || inked_pixel(ink, x, y)
            == crate::pixels::white(inked_pixel(ink, x, y).alpha),
    decreases ink.len(),
{
    if ink.len() > 0 {
        law_text_colours(ink.drop_last(), x, y);
    }
}

/// Coverage outside an image leaves no trace on it, wherever in the line it comes.
pub proof fn law_outside_coverage_is_unseen(
    image: PixelBuffer,
    before: Seq<Coverage>,
    outside: Coverage,
    after: Seq<Coverage>,
)
    requires
        !image.covers(outside.x as int, outside.y as int),
    ensures
        shows_ink(image, before.push(outside) + after) <==> shows_ink(image, before + after),
{
    assert forall|x: int, y: int| #[trigger] image.covers(x, y) implies inked_pixel(
        before.push(outside) + after,
        x,
        y,
    ) == inked_pixel(before + after, x, y) by {
        lemma_drop_one(before, outside, after, x, y);
    }
}

proof fn lemma_drop_one(
    before: Seq<Coverage>,
    extra: Coverage,
    after: Seq<Coverage>,
    x: int,
    y: int,
)
    requires
        !extra.hits(x, y),
    ensures
        inked_pixel(before.push(extra) + after, x, y) == inked_pixel(before + after, x, y),
    decreases after.len(),
{
    if after.len() == 0 {
        assert(before.push(extra).drop_last() == before);
    } else {
        lemma_drop_one(before, extra, after.drop_last(), x, y);
        assert((before.push(extra) + after).drop_last() == before.push(extra) + after.drop_last());
        assert((before + after).drop_last() == before + after.drop_last());
    }
}

/// A glyph without an outline leaves no trace, wherever in the line it stands.
pub proof fn law_blank_glyph_is_unseen(
    before: Seq<Option<Vec<Coverage>>>,
    after: Seq<Option<Vec<Coverage>>>,
)
    ensures
        line_ink(before.push(None) + after) == line_ink(before + after),
    decreases after.len(),
{
    if after.len() == 0 {
        assert(before.push(None).drop_last() == before);
    } else {
        law_blank_glyph_is_unseen(before, after.drop_last());
        assert((before.push(None) + after).drop_last() == before.push(None) + after.drop_last());
        assert((before + after).drop_last() == before + after.drop_last());
    }
}

} // verus!
