use crosshair_compositor::crosshair::{
    create_crosshair_buffer, cursor_image, CURSOR_SIDE, LONGEST_SIDE,
};
use crosshair_compositor::pixels::{Pixel, PixelBuffer};

fn pixel(image: &PixelBuffer, x: u32, y: u32) -> [u8; 4] {
    let at = ((y * image.width + x) * 4) as usize;
    [image.data[at], image.data[at + 1], image.data[at + 2], image.data[at + 3]]
}

fn rows(image: &PixelBuffer) -> Vec<String> {
    let mut rows = Vec::new();
    for y in 0..image.height {
        let mut row = String::new();
        for x in 0..image.width {
            match pixel(image, x, y) {
                [255, 255, 255, 255] => row.push('#'),
                [0, 0, 0, 0] => row.push('.'),
                other => panic!("unexpected pixel {:?}", other),
            }
        }
        rows.push(row);
    }
    rows
}

#[test]
fn new_image_is_transparent() {
    let image = PixelBuffer::new(3, 2);
    assert_eq!((image.width, image.height), (3, 2));
    assert_eq!(image.data, vec![0u8; 24]);
}

#[test]
fn put_paints_one_pixel() {
    let mut image = PixelBuffer::new(3, 2);
    image.put(1, 1, Pixel { red: 1, green: 2, blue: 3, alpha: 4 });
    let mut expected = vec![0u8; 24];
    expected[16] = 1;
    expected[17] = 2;
    expected[18] = 3;
    expected[19] = 4;
    assert_eq!(image.data, expected);
}

#[test]
fn small_crosshair_is_drawn() {
    let image = create_crosshair_buffer(2, 1, 2).unwrap();
    assert_eq!(
        rows(&image),
        vec!["......", "...#..", "...#..", ".#####", "...#..", "...#.."]
    );
}

#[test]
fn odd_crosshair_is_drawn() {
    let image = create_crosshair_buffer(1, 1, 2).unwrap();
    assert_eq!(rows(&image), vec![".....", "..#..", ".###.", "..#..", "....."]);
}

#[test]
fn crosshair_without_thickness_is_blank() {
    let image = create_crosshair_buffer(2, 0, 1).unwrap();
    assert_eq!(rows(&image), vec!["....", "....", "....", "...."]);
}

#[test]
fn thick_crosshair_fills_all_but_a_corner() {
    let image = create_crosshair_buffer(2, u32::MAX, 1).unwrap();
    assert_eq!(rows(&image), vec![".###", "####", "####", "####"]);
}

#[test]
fn crosshair_of_no_size_is_an_empty_image() {
    let image = create_crosshair_buffer(0, 4, 0).unwrap();
    assert_eq!((image.width, image.height, image.data.len()), (0, 0, 0));
}

#[test]
fn cursor_image_has_the_side_that_places_it() {
    let image = cursor_image().unwrap();
    assert_eq!(CURSOR_SIDE, 34);
    assert_eq!((image.width, image.height), (CURSOR_SIDE, CURSOR_SIDE));
    assert_eq!(image.data.len(), 34 * 34 * 4);
    assert_eq!(pixel(&image, 17, 17), [255; 4]);
    assert_eq!(pixel(&image, 14, 1), [255; 4]);
    assert_eq!(pixel(&image, 20, 1), [255; 4]);
    assert_eq!(pixel(&image, 13, 1), [0; 4]);
    assert_eq!(pixel(&image, 21, 1), [0; 4]);
    assert_eq!(pixel(&image, 17, 0), [0; 4]);
    assert_eq!(pixel(&image, 33, 17), [255; 4]);
}

#[test]
fn cursor_image_is_symmetric() {
    let image = cursor_image().unwrap();
    for y in 0..CURSOR_SIDE {
        for x in 0..CURSOR_SIDE {
            assert_eq!(pixel(&image, x, y), pixel(&image, y, x));
            if x > 0 {
                assert_eq!(pixel(&image, x, y), pixel(&image, CURSOR_SIDE - x, y));
            }
            if y > 0 {
                assert_eq!(pixel(&image, x, y), pixel(&image, x, CURSOR_SIDE - y));
            }
        }
    }
}

#[test]
fn longest_side_is_the_limit() {
    let side = LONGEST_SIDE as u64;
    assert!(side * side * 4 <= u32::MAX as u64);
    assert!((side + 1) * (side + 1) * 4 > u32::MAX as u64);
}
