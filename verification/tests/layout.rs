use crosshair_compositor::layout::{arrange, Element, Extent, Picture, Place};

const FULL_HD: Extent = Extent { width: 1920, height: 1080 };
const START: Place = Place { x: 100, y: 100 };

#[test]
fn text_comes_first_and_the_cursor_follows() {
    assert_eq!(
        arrange(FULL_HD, Some(271), true, START),
        vec![
            Element { picture: Picture::Text, x: 824, y: 270 },
            Element { picture: Picture::Cursor, x: 83, y: 83 },
        ]
    );
}

#[test]
fn missing_pictures_are_left_out() {
    assert_eq!(arrange(FULL_HD, None, false, START), vec![]);
    assert_eq!(
        arrange(FULL_HD, None, true, START),
        vec![Element { picture: Picture::Cursor, x: 83, y: 83 }]
    );
    assert_eq!(
        arrange(FULL_HD, Some(20), false, START),
        vec![Element { picture: Picture::Text, x: 950, y: 270 }]
    );
}

#[test]
fn wide_text_sticks_out_on_both_sides() {
    let narrow = Extent { width: 100, height: 7 };
    assert_eq!(arrange(narrow, Some(105), false, START)[0].x, -2);
    assert_eq!(arrange(narrow, Some(106), false, START)[0].x, -3);
    assert_eq!(arrange(narrow, Some(101), false, START)[0].x, 0);
    assert_eq!(arrange(narrow, Some(101), false, START)[0].y, 1);
}

#[test]
fn cursor_may_hang_over_the_edge() {
    let corner = arrange(FULL_HD, None, true, Place { x: 0, y: 1080 });
    assert_eq!(corner, vec![Element { picture: Picture::Cursor, x: -17, y: 1063 }]);
    let far = arrange(FULL_HD, None, true, Place { x: i32::MIN, y: i32::MAX });
    assert_eq!((far[0].x, far[0].y), (-2147483665, 2147483630));
}

#[test]
fn text_stays_where_it_is_when_the_pointer_moves() {
    let a = arrange(FULL_HD, Some(300), true, START);
    let b = arrange(FULL_HD, Some(300), true, Place { x: 7, y: 9 });
    assert_eq!(a[0], b[0]);
    assert_ne!(a[1], b[1]);
}
