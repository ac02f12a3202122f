use crosshair_compositor::connectors::{
    pick_mode, ConnectorInfo, ConnectorScan, ModeInfo, OutputPlan, SetupOutcome, Skip,
};
use crosshair_compositor::layout::Extent;

fn mode(width: u16, height: u16, preferred: bool) -> ModeInfo {
    ModeInfo { width, height, preferred }
}

fn connector(connected: bool, modes: Vec<ModeInfo>) -> Option<ConnectorInfo> {
    Some(ConnectorInfo {
        connected,
        modes,
        interface: "DP".to_string(),
        interface_id: 1,
        physical_size: None,
    })
}

fn screen(width: u16) -> Option<ConnectorInfo> {
    connector(true, vec![mode(width, 10, false)])
}

fn skipped(answer: Result<OutputPlan, Skip>) -> Skip {
    match answer {
        Err(skip) => skip,
        Ok(plan) => panic!("unexpected plan {:?}", plan),
    }
}

#[test]
fn first_preferred_mode_is_picked() {
    let modes = vec![mode(1, 1, false), mode(2, 2, true), mode(3, 3, true)];
    assert_eq!(pick_mode(&modes), 1);
}

#[test]
fn first_mode_is_picked_where_none_is_preferred() {
    assert_eq!(pick_mode(&vec![mode(1, 1, false), mode(2, 2, false)]), 0);
    assert_eq!(pick_mode(&vec![]), 0);
}

#[test]
fn device_without_resources_has_no_connectors() {
    let scan = ConnectorScan::new(None);
    assert_eq!(scan.next_connector(), None);
}

#[test]
fn plan_describes_the_output() {
    let mut scan = ConnectorScan::new(Some((vec![70, 71], vec![40, 41])));
    assert_eq!(scan.next_connector(), Some(70));
    let plan = scan
        .connector_read(Some(ConnectorInfo {
            connected: true,
            modes: vec![mode(640, 480, false), mode(2560, 1440, true)],
            interface: "HDMI-A".to_string(),
            interface_id: 12,
            physical_size: Some((600, 340)),
        }))
        .unwrap();
    assert_eq!(plan.connector, 70);
    assert_eq!(plan.crtc, 40);
    assert_eq!(plan.mode, 1);
    assert_eq!(plan.extent, Extent { width: 2560, height: 1440 });
    assert_eq!(plan.name, "HDMI-A-12");
    assert_eq!(plan.physical_size, (600, 340));
    scan.output_set_up(SetupOutcome::Ready);
    assert_eq!(scan.next_connector(), Some(71));
}

#[test]
fn unknown_physical_size_is_zero() {
    let mut scan = ConnectorScan::new(Some((vec![1], vec![2])));
    let plan = scan.connector_read(screen(u16::MAX)).unwrap();
    assert_eq!(plan.physical_size, (0, 0));
    assert_eq!(plan.extent, Extent { width: 65535, height: 10 });
    assert_eq!(plan.name, "DP-1");
}

#[test]
fn names_hold_zero_and_the_largest_number() {
    let mut scan = ConnectorScan::new(Some((vec![1, 2], vec![3, 4])));
    for (id, name) in [(0, "VGA-0"), (u32::MAX, "VGA-4294967295")] {
        let plan = scan
            .connector_read(Some(ConnectorInfo {
                connected: true,
                modes: vec![mode(1, 1, true)],
                interface: "VGA".to_string(),
                interface_id: id,
                physical_size: Some((u32::MAX, 0)),
            }))
            .unwrap();
        assert_eq!(plan.name, name);
        assert_eq!(plan.physical_size, (-1, 0));
        scan.output_set_up(SetupOutcome::NoPlanes);
    }
}

#[test]
fn unreadable_and_unused_connectors_take_no_controller() {
    let mut scan = ConnectorScan::new(Some((vec![1, 2, 3, 4], vec![9])));
    assert_eq!(skipped(scan.connector_read(None)), Skip::Unreadable);
    let unplugged = connector(false, vec![mode(1, 1, true)]);
    assert_eq!(skipped(scan.connector_read(unplugged)), Skip::Unused);
    assert_eq!(skipped(scan.connector_read(connector(true, vec![]))), Skip::Unused);
    assert_eq!(scan.next_connector(), Some(4));
    assert_eq!(scan.connector_read(screen(5)).unwrap().crtc, 9);
}

#[test]
fn unusable_connector_is_passed_over_wherever_it_is_listed() {
    for place in 0..3 {
        for unusable in [None, connector(false, vec![mode(1, 1, true)]), connector(true, vec![])] {
            let mut reports = vec![screen(5), screen(6)];
            reports.insert(place, unusable);
            let mut scan = ConnectorScan::new(Some((vec![1, 2, 3], vec![8, 9])));
            let mut given = Vec::new();
            for report in reports {
                if let Ok(plan) = scan.connector_read(report) {
                    given.push((plan.crtc, plan.mode));
                    scan.output_set_up(SetupOutcome::Ready);
                }
            }
            assert_eq!(given, vec![(8, 0), (9, 0)]);
            assert_eq!(scan.next_connector(), None);
        }
    }
}

#[test]
fn names_hold_every_digit() {
    let mut scan = ConnectorScan::new(Some((vec![1, 2], vec![3, 4])));
    for (id, name) in [(1234567890, "A-1-1234567890"), (10, "A-1-10")] {
        let plan = scan
            .connector_read(Some(ConnectorInfo {
                connected: true,
                modes: vec![mode(1, 1, true)],
                interface: "A-1".to_string(),
                interface_id: id,
                physical_size: None,
            }))
            .unwrap();
        assert_eq!(plan.name, name);
        scan.output_set_up(SetupOutcome::Ready);
    }
}

#[test]
fn failed_setup_keeps_its_controller() {
    for failure in [
        SetupOutcome::NoPlanes,
        SetupOutcome::NoRenderer,
        SetupOutcome::OutputRefused,
    ] {
        let mut scan = ConnectorScan::new(Some((vec![1, 2, 3], vec![8, 9])));
        assert_eq!(scan.connector_read(screen(5)).unwrap().crtc, 8);
        scan.output_set_up(failure);
        assert_eq!(scan.connector_read(screen(6)).unwrap().crtc, 9);
        scan.output_set_up(SetupOutcome::Ready);
        assert_eq!(skipped(scan.connector_read(screen(7))), Skip::NoController);
        assert_eq!(scan.next_connector(), None);
    }
}
