use crosshair_compositor::compositor::{Compositor, Frame, InputKind};
use crosshair_compositor::connectors::{ConnectorInfo, ConnectorScan, ModeInfo, SetupOutcome};
use crosshair_compositor::layout::{Element, Extent, Picture, Place};

const POINTER: Place = Place { x: 100, y: 50 };

type State = Compositor<u8, &'static str>;

/// A finished walk in which each connector shows a screen of this width, set up or not.
fn walk(crtcs: Vec<u32>, screens: &[(u16, SetupOutcome)]) -> ConnectorScan {
    let connectors = (1..=screens.len() as u32).collect();
    let mut scan = ConnectorScan::new(Some((connectors, crtcs)));
    for (width, outcome) in screens {
        let plan = scan.connector_read(Some(ConnectorInfo {
            connected: true,
            modes: vec![ModeInfo { width: *width, height: 40, preferred: true }],
            interface: "DP".to_string(),
            interface_id: 1,
            physical_size: None,
        }));
        if plan.is_ok() {
            scan.output_set_up(*outcome);
        }
    }
    assert_eq!(scan.next_connector(), None);
    scan
}

fn ready(width: u16) -> (u16, SetupOutcome) {
    (width, SetupOutcome::Ready)
}

fn add(state: &mut State, node: u64, render: u8, scan: ConnectorScan) -> Vec<Frame<u8>> {
    match state.device_added::<()>(node, Ok((render, scan)), POINTER) {
        Ok(frames) => frames,
        Err(()) => unreachable!(),
    }
}

fn displays(frames: &[Frame<u8>]) -> Vec<(u64, u8, u32)> {
    let mut all: Vec<(u64, u8, u32)> =
        frames.iter().map(|f| (f.device, f.render_node, f.crtc)).collect();
    all.sort();
    all
}

#[test]
fn compositor_starts_empty_and_due() {
    let mut state = State::new();
    assert!(state.redraw(POINTER).is_empty());
    assert_eq!(state.output, Extent { width: 1920, height: 1080 });
    assert!(state.text_buffer.is_none());
    assert!(state.text_size.is_none());
    assert!(state.cursor_buffer.is_none());
    assert!(state.take_redraw());
}

#[test]
fn only_pointer_motion_asks_for_a_redraw() {
    let mut state = State::new();
    assert!(state.take_redraw());
    assert!(!state.take_redraw());
    for kind in [
        InputKind::Keyboard,
        InputKind::PointerButton,
        InputKind::DeviceAdded,
        InputKind::DeviceRemoved,
        InputKind::Other,
    ] {
        state.input(kind);
        assert!(!state.take_redraw());
    }
    state.input(InputKind::PointerMotion);
    state.input(InputKind::Keyboard);
    assert!(state.take_redraw());
    assert!(!state.take_redraw());
}

#[test]
fn added_device_is_painted_at_once() {
    let mut state = State::new();
    assert!(state.text_made(Some(("text", (20, 10)))));
    state.cursor_made(Some("cursor"));
    let frames = add(&mut state, 7, 3, walk(vec![40], &[ready(60)]));
    assert_eq!(displays(&frames), vec![(7, 3, 40)]);
    assert_eq!(
        frames[0].elements,
        vec![
            Element { picture: Picture::Text, x: 20, y: 10 },
            Element { picture: Picture::Cursor, x: 83, y: 33 },
        ]
    );
    assert_eq!(state.output, Extent { width: 60, height: 40 });
}

#[test]
fn frames_without_pictures_are_still_painted() {
    let mut state = State::new();
    assert!(!state.text_made(None));
    state.cursor_made(None);
    let frames = add(&mut state, 7, 3, walk(vec![40], &[ready(60)]));
    assert_eq!(displays(&frames), vec![(7, 3, 40)]);
    assert!(frames[0].elements.is_empty());
}

#[test]
fn a_missing_text_keeps_the_one_before() {
    let mut state = State::new();
    assert!(state.text_made(Some(("text", (20, 10)))));
    assert!(!state.text_made(None));
    assert_eq!(state.text_buffer, Some("text"));
    assert_eq!(state.text_size, Some((20, 10)));
}

#[test]
fn every_display_is_painted_once() {
    let mut state = State::new();
    add(&mut state, 7, 3, walk(vec![40, 41], &[ready(60), ready(70)]));
    let frames = add(&mut state, 8, 4, walk(vec![40, 50, 51], &[ready(1), ready(2), ready(3)]));
    let all = vec![(7, 3, 40), (7, 3, 41), (8, 4, 40), (8, 4, 50), (8, 4, 51)];
    assert_eq!(displays(&frames), all);
    assert_eq!(displays(&state.redraw(POINTER)), all);
    let nodes: Vec<u64> = frames.iter().map(|f| f.device).collect();
    assert!(nodes == vec![7, 7, 8, 8, 8] || nodes == vec![8, 8, 8, 7, 7]);
}

#[test]
fn failed_setups_leave_no_display() {
    let mut state = State::new();
    let scan = walk(
        vec![40, 41, 42],
        &[ready(60), (70, SetupOutcome::NoRenderer), ready(80), ready(90)],
    );
    let frames = add(&mut state, 7, 3, scan);
    assert_eq!(displays(&frames), vec![(7, 3, 40), (7, 3, 42)]);
    assert_eq!(state.output, Extent { width: 80, height: 40 });
}

#[test]
fn device_without_displays_keeps_the_bounds() {
    let mut state = State::new();
    let frames = add(&mut state, 7, 3, ConnectorScan::new(None));
    assert!(frames.is_empty());
    assert_eq!(state.backends.len(), 1);
    assert_eq!(state.output, Extent { width: 1920, height: 1080 });
}

#[test]
fn controller_that_is_listed_twice_shows_the_last_output() {
    let mut state = State::new();
    let frames = add(&mut state, 7, 3, walk(vec![40, 40], &[ready(60), ready(70)]));
    assert_eq!(displays(&frames), vec![(7, 3, 40)]);
    assert_eq!(state.backends[&7].surfaces[&40], Extent { width: 70, height: 40 });
}

#[test]
fn failed_device_changes_nothing() {
    let mut state = State::new();
    add(&mut state, 7, 3, walk(vec![40], &[ready(60)]));
    let answer = state.device_added(8, Err("no such device"), POINTER);
    assert_eq!(answer.err(), Some("no such device"));
    assert_eq!(displays(&state.redraw(POINTER)), vec![(7, 3, 40)]);
    assert_eq!(state.output, Extent { width: 60, height: 40 });
}

#[test]
fn device_with_the_same_number_takes_the_place() {
    let mut state = State::new();
    add(&mut state, 7, 3, walk(vec![40], &[ready(60)]));
    let frames = add(&mut state, 7, 5, walk(vec![41], &[ready(70)]));
    assert_eq!(displays(&frames), vec![(7, 5, 41)]);
}

#[test]
fn removed_device_is_not_painted() {
    let mut state = State::new();
    add(&mut state, 7, 3, walk(vec![40], &[ready(60)]));
    add(&mut state, 8, 4, walk(vec![50], &[ready(80)]));
    state.device_removed(7);
    assert_eq!(displays(&state.redraw(POINTER)), vec![(8, 4, 50)]);
    state.device_removed(9);
    assert_eq!(displays(&state.redraw(POINTER)), vec![(8, 4, 50)]);
    state.device_removed(8);
    assert!(state.redraw(POINTER).is_empty());
    assert_eq!(state.output, Extent { width: 80, height: 40 });
}

#[test]
fn changed_device_is_left_alone() {
    let mut state = State::new();
    add(&mut state, 7, 3, walk(vec![40], &[ready(60)]));
    state.device_changed(7);
    assert_eq!(displays(&state.redraw(POINTER)), vec![(7, 3, 40)]);
}
