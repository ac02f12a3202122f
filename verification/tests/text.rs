use crosshair_compositor::font::{greeting_glyphs, text_glyphs, GREETING};
use crosshair_compositor::text::{create_hello_world_buffer, Coverage};

fn table(font: &mut Vec<u8>, tag: &[u8; 4], offset: usize, length: usize) {
    font.extend_from_slice(tag);
    font.extend_from_slice(&[0; 4]);
    font.extend_from_slice(&(offset as u32).to_be_bytes());
    font.extend_from_slice(&(length as u32).to_be_bytes());
}

/// A font without outlines, in which a printable ASCII character has the glyph
/// whose number is its code minus 31.
fn ascii_font() -> Vec<u8> {
    let mut cmap: Vec<u8> = Vec::new();
    for word in [0u16, 1, 3, 1, 0, 12, 6, 10 + 2 * 95, 0, 32, 95] {
        cmap.extend_from_slice(&word.to_be_bytes());
    }
    for glyph in 1u16..=95 {
        cmap.extend_from_slice(&glyph.to_be_bytes());
    }
    let mut head = vec![0u8; 54];
    head[18..20].copy_from_slice(&1000u16.to_be_bytes());
    let hhea = vec![0u8; 36];
    let maxp = vec![0u8, 0, 0x50, 0, 0, 96];

    let start = 12 + 4 * 16;
    let mut font: Vec<u8> = vec![0, 1, 0, 0, 0, 4, 0, 0, 0, 0, 0, 0];
    let mut offset = start;
    table(&mut font, b"cmap", offset, cmap.len());
    offset += cmap.len();
    table(&mut font, b"head", offset, head.len());
    offset += head.len();
    table(&mut font, b"hhea", offset, hhea.len());
    offset += hhea.len();
    table(&mut font, b"maxp", offset, maxp.len());
    font.extend_from_slice(&cmap);
    font.extend_from_slice(&head);
    font.extend_from_slice(&hhea);
    font.extend_from_slice(&maxp);
    font
}

#[test]
fn text_maps_to_glyphs() {
    assert_eq!(text_glyphs(&ascii_font(), "A z"), Some(vec![34, 1, 91]));
    assert_eq!(text_glyphs(&ascii_font(), ""), Some(vec![]));
}

#[test]
fn missing_character_has_the_first_glyph() {
    assert_eq!(text_glyphs(&ascii_font(), "a\u{e9}"), Some(vec![66, 0]));
}

#[test]
fn greeting_maps_to_glyphs() {
    assert_eq!(GREETING, "Hello World");
    assert_eq!(
        greeting_glyphs(&ascii_font()),
        Some(vec![41, 70, 77, 77, 80, 1, 56, 80, 83, 77, 69])
    );
}

#[test]
fn bytes_that_are_no_font_have_no_glyphs() {
    assert_eq!(text_glyphs(&[], ""), None);
    assert_eq!(greeting_glyphs(b"no font at all"), None);
    let mut broken = ascii_font();
    broken.truncate(100);
    assert_eq!(text_glyphs(&broken, "a"), None);
}

fn at(x: u32, y: u32, alpha: u8) -> Coverage {
    Coverage { x, y, alpha }
}

#[test]
fn empty_text_has_no_image() {
    let glyphs = vec![Some(vec![at(0, 0, 9)])];
    assert!(create_hello_world_buffer(0, 5, &glyphs).is_none());
    assert!(create_hello_world_buffer(5, 0, &glyphs).is_none());
    assert!(create_hello_world_buffer(0, 0, &glyphs).is_none());
    assert!(create_hello_world_buffer(0, u32::MAX, &glyphs).is_none());
}

#[test]
fn text_without_glyphs_is_transparent() {
    let (image, size) = create_hello_world_buffer(2, 3, &vec![]).unwrap();
    assert_eq!(size, (2, 3));
    assert_eq!((image.width, image.height), (2, 3));
    assert_eq!(image.data, vec![0u8; 24]);
}

#[test]
fn coverage_is_painted_white() {
    let glyphs = vec![Some(vec![at(1, 0, 128), at(0, 1, 0)])];
    let (image, _) = create_hello_world_buffer(2, 2, &glyphs).unwrap();
    assert_eq!(
        image.data,
        vec![0, 0, 0, 0, 255, 255, 255, 128, 255, 255, 255, 0, 0, 0, 0, 0]
    );
}

#[test]
fn last_coverage_shows() {
    let glyphs = vec![
        Some(vec![at(0, 0, 10), at(1, 0, 20), at(0, 0, 30)]),
        Some(vec![at(1, 0, 0)]),
    ];
    let (image, _) = create_hello_world_buffer(2, 1, &glyphs).unwrap();
    assert_eq!(image.data, vec![255, 255, 255, 30, 255, 255, 255, 0]);
}

#[test]
fn outside_coverage_and_blank_glyphs_are_unseen() {
    let seen = vec![Some(vec![at(0, 0, 7)])];
    let more = vec![
        None,
        Some(vec![at(2, 0, 1), at(0, 0, 7), at(0, 1, 2), at(u32::MAX, u32::MAX, 3)]),
        None,
    ];
    let (a, _) = create_hello_world_buffer(2, 1, &seen).unwrap();
    let (b, _) = create_hello_world_buffer(2, 1, &more).unwrap();
    assert_eq!(a.data, b.data);
    assert_eq!(a.data, vec![255, 255, 255, 7, 0, 0, 0, 0]);
}
