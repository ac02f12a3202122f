use crosshair_compositor::layout::{Element, Picture};
use crosshair_compositor::painting::{PaintAction, Painting};

fn elements() -> Vec<Element> {
    vec![
        Element { picture: Picture::Text, x: 3, y: -4 },
        Element { picture: Picture::Cursor, x: 50, y: 60 },
    ]
}

/// The actions of a frame whose actions end like this.
fn actions(elements: Vec<Element>, outcomes: &[bool]) -> Vec<PaintAction> {
    let mut painting = Painting::new(elements);
    let mut seen = vec![painting.action()];
    for worked in outcomes {
        painting.report(*worked);
        seen.push(painting.action());
    }
    seen
}

#[test]
fn frame_is_drawn_rendered_and_committed() {
    let frame = elements();
    assert_eq!(
        actions(frame.clone(), &[true; 6]),
        vec![
            PaintAction::FindRenderer,
            PaintAction::MakePicture(frame[0]),
            PaintAction::MakePicture(frame[1]),
            PaintAction::Render,
            PaintAction::Commit,
            PaintAction::Done,
            PaintAction::Done,
        ]
    );
}

#[test]
fn frame_without_a_renderer_is_passed_over() {
    assert_eq!(
        actions(elements(), &[false, true, true]),
        vec![
            PaintAction::FindRenderer,
            PaintAction::Done,
            PaintAction::Done,
            PaintAction::Done,
        ]
    );
}

#[test]
fn failed_pictures_are_left_out() {
    let frame = elements();
    assert_eq!(
        actions(frame.clone(), &[true, false, false, true]),
        vec![
            PaintAction::FindRenderer,
            PaintAction::MakePicture(frame[0]),
            PaintAction::MakePicture(frame[1]),
            PaintAction::Render,
            PaintAction::Commit,
        ]
    );
}

#[test]
fn failed_rendering_is_not_committed() {
    let frame = elements();
    assert_eq!(
        actions(frame, &[true, true, true, false, true])[3..],
        [PaintAction::Render, PaintAction::Done, PaintAction::Done]
    );
}

#[test]
fn failed_commit_ends_the_frame() {
    assert_eq!(
        actions(vec![], &[true, true, false, true]),
        vec![
            PaintAction::FindRenderer,
            PaintAction::Render,
            PaintAction::Commit,
            PaintAction::Done,
            PaintAction::Done,
        ]
    );
}
