//! What a whole walk over the connectors of a device comes to.

use vstd::prelude::*;

use crate::connectors::{ConnectorInfo, ScanView};

verus! {

/// What the hardware answers at one connector: what was read from it, and whether an output could
/// be set up on it where one was planned.
pub struct Report {
    pub info: Option<ConnectorInfo>,
    pub ready: bool,
}

impl Report {
    /// The connector was read and is usable.
    pub open spec fn usable(self) -> bool {
        self.info is Some && crate::connectors::usable(self.info->0)
    }
}

/// The scan once one more connector has been dealt with.
pub open spec fn after_report(scan: ScanView, report: Report) -> ScanView {
    crate::connectors::after_setup(crate::connectors::after_read(scan, report.info), report.ready)
}

/// The scan once connectors that answer like this have been dealt with, one after the other.
pub open spec fn after_reports(scan: ScanView, reports: Seq<Report>) -> ScanView
    decreases reports.len(),
{
    if reports.len() == 0 {
        scan
    } else {
        after_report(after_reports(scan, reports.drop_last()), reports.last())
    }
}

/// A whole walk from the start.
pub open spec fn walk(connectors: Seq<u32>, crtcs: Seq<u32>, reports: Seq<Report>) -> ScanView {
    after_reports(crate::connectors::scan_start(connectors, crtcs), reports)
}

/// How many of the connectors are usable.
pub open spec fn usable_count(reports: Seq<Report>) -> int
    decreases reports.len(),
{
    if reports.len() == 0 {
        0
    } else {
        usable_count(reports.drop_last()) + (if reports.last().usable() {
            1int
        } else {
            0
        })
    }
}

/// The output of the `i`-th connector is set up, on controller `crtc`: the connector is usable, it
/// has a controller of its own rank among the usable ones, and the setup worked.
pub open spec fn set_up_on(crtcs: Seq<u32>, reports: Seq<Report>, i: int, crtc: u32) -> bool {
    &&& 0 <= i < reports.len()
    &&& reports[i].usable()
    &&& reports[i].ready
    &&& usable_count(reports.take(i)) < crtcs.len()
    &&& crtcs[usable_count(reports.take(i))] == crtc
}

/// A walk starts with nothing read, given out or set up, and every report is dealt with behind those
/// before it: the connector is read first, then the setup of its output ends.
pub proof fn law_reports_are_dealt_with_in_order(
    connectors: Seq<u32>,
    crtcs: Seq<u32>,
    reports: Seq<Report>,
    next: Report,
)
    ensures
        ({
            let start = walk(connectors, crtcs, Seq::empty());
            &&& start == crate::connectors::scan_start(connectors, crtcs)
            &&& start.connectors == connectors
            &&& start.crtcs == crtcs
            &&& start.read == 0
            &&& start.used == 0
            &&& start.pending is None
            &&& start.surfaces == Map::<u32, crate::layout::Extent>::empty()
            &&& start.bounds is None
        }),
        walk(connectors, crtcs, reports.push(next)) == crate::connectors::after_setup(
            crate::connectors::after_read(walk(connectors, crtcs, reports), next.info),
            next.ready,
        ),
        next.usable() <==> next.info is Some && next.info->0.connected && next.info->0.modes@.len()
            > 0,
{
    assert(reports.push(next).drop_last() == reports);
}

/// Where the first connector of a device is in use and its output could be set up, the output stands
/// on the first controller, has the width and the height of the mode of that connector, and bounds
/// the pointer.
pub proof fn law_first_display(
    connectors: Seq<u32>,
    crtcs: Seq<u32>,
    info: crate::connectors::ConnectorInfo,
    i: int,
)
    requires
        connectors.len() > 0,
        crtcs.len() > 0,
        info.connected,
        0 <= i < info.modes@.len(),
        info.modes@[i].preferred || i == 0,
        forall|j: int|
            0 <= j < info.modes@.len() && (j < i || !info.modes@[i].preferred)
                ==> !(#[trigger] info.modes@[j]).preferred,
    ensures
        ({
            let report = Report { info: Some(info), ready: true };
            let after = walk(connectors, crtcs, seq![report]);
            &&& after.surfaces.contains_key(crtcs[0])
            &&& after.surfaces[crtcs[0]].width == info.modes@[i].width
            &&& after.surfaces[crtcs[0]].height == info.modes@[i].height
            &&& after.bounds == Some(after.surfaces[crtcs[0]])
        }),
{
    let report = Report { info: Some(info), ready: true };
    assert(Seq::<Report>::empty().push(report) == seq![report]);
    law_reports_are_dealt_with_in_order(connectors, crtcs, Seq::empty(), report);
    crate::connectors::law_display_has_the_size_of_its_mode(info, i);
}

/// After any walk every connector reported on was read, no output is left half set up, and as many
/// controllers are taken as there were usable connectors, unless there are fewer. The invariant of
/// scans holds.
pub proof fn law_walk_counts(connectors: Seq<u32>, crtcs: Seq<u32>, reports: Seq<Report>)
    requires
        reports.len() <= connectors.len(),
    ensures
        walk(connectors, crtcs, reports).wf(),
        walk(connectors, crtcs, reports).connectors == connectors,
        walk(connectors, crtcs, reports).crtcs == crtcs,
        walk(connectors, crtcs, reports).read == reports.len(),
        walk(connectors, crtcs, reports).pending is None,
        walk(connectors, crtcs, reports).used == (if usable_count(reports) < crtcs.len() {
            usable_count(reports)
        } else {
            crtcs.len() as int
        }),
        0 <= usable_count(reports) <= reports.len(),
    decreases reports.len(),
{
    if reports.len() > 0 {
        law_walk_counts(connectors, crtcs, reports.drop_last());
        let before = walk(connectors, crtcs, reports.drop_last());
        lemma_report_keeps_wf(before, reports.last());
    }
}

/// Dealing with a connector keeps the invariant of scans.
proof fn lemma_report_keeps_wf(scan: ScanView, report: Report)
    requires
        scan.wf(),
        scan.pending is None,
        scan.read < scan.connectors.len(),
    ensures
        after_report(scan, report).wf(),
        after_report(scan, report).pending is None,
{
    let after = after_report(scan, report);
    if crate::connectors::gets_controller(scan, report.info) {
        let crtc = scan.crtcs[scan.used];
        assert(after.crtcs.take(after.used)[scan.used] == crtc);
        assert forall|c: u32| #[trigger] after.surfaces.contains_key(c) implies after.crtcs.take(
            after.used,
        ).contains(c) && crate::connectors::proper(after.surfaces[c]) by {
            if scan.surfaces.contains_key(c) {
                let given = scan.crtcs.take(scan.used);
                let i = choose|i: int| 0 <= i < given.len() && given[i] == c;
                assert(after.crtcs.take(after.used)[i] == c);
            }
        }
        if report.ready {
            assert(after.surfaces.contains_key(crtc));
        }
    }
}

/// Controllers are given out in order: a usable connector gets the controller whose place in the
/// list is the number of usable connectors before it, whether or not their setup worked, and it
/// goes without exactly where the list is too short.
pub proof fn law_controllers_go_in_order(
    connectors: Seq<u32>,
    crtcs: Seq<u32>,
    reports: Seq<Report>,
    next: Report,
)
    requires
        reports.len() < connectors.len(),
    ensures
        ({
            let scan = walk(connectors, crtcs, reports);
            let rank = usable_count(reports);
            &&& crate::connectors::gets_controller(scan, next.info) <==> next.usable() && rank
                < crtcs.len()
            &&& crate::connectors::gets_controller(scan, next.info) ==> scan.crtcs[scan.used]
                == crtcs[rank]
        }),
{
    law_walk_counts(connectors, crtcs, reports);
}

/// An output stands on a controller exactly where some connector was set up on it.
pub proof fn law_outputs_are_those_set_up(
    connectors: Seq<u32>,
    crtcs: Seq<u32>,
    reports: Seq<Report>,
    crtc: u32,
)
    requires
        reports.len() <= connectors.len(),
    ensures
        walk(connectors, crtcs, reports).surfaces.contains_key(crtc) <==> exists|i: int|
            set_up_on(crtcs, reports, i, crtc),
    decreases reports.len(),
{
    let after = walk(connectors, crtcs, reports);
    if reports.len() > 0 {
        let shorter = reports.drop_last();
        let last = reports.len() - 1;
        law_outputs_are_those_set_up(connectors, crtcs, shorter, crtc);
        law_walk_counts(connectors, crtcs, shorter);
        assert(reports.take(last) == shorter);
        if after.surfaces.contains_key(crtc) {
            if walk(connectors, crtcs, shorter).surfaces.contains_key(crtc) {
                let i = choose|i: int| set_up_on(crtcs, shorter, i, crtc);
                assert(shorter.take(i) == reports.take(i));
                assert(set_up_on(crtcs, reports, i, crtc));
            } else {
                assert(set_up_on(crtcs, reports, last, crtc));
            }
        }
        if exists|i: int| set_up_on(crtcs, reports, i, crtc) {
            let i = choose|i: int| set_up_on(crtcs, reports, i, crtc);
            if i < last {
                assert(shorter.take(i) == reports.take(i));
                assert(set_up_on(crtcs, shorter, i, crtc));
            }
        }
    } else {
        assert forall|i: int| !set_up_on(crtcs, reports, i, crtc) by {}
    }
}

/// The output on a controller has the size of the connector that was set up on it last.
pub proof fn law_last_setup_stands(
    connectors: Seq<u32>,
    crtcs: Seq<u32>,
    reports: Seq<Report>,
    i: int,
    crtc: u32,
)
    requires
        reports.len() <= connectors.len(),
        set_up_on(crtcs, reports, i, crtc),
        forall|j: int| i < j ==> !set_up_on(crtcs, reports, j, crtc),
    ensures
        walk(connectors, crtcs, reports).surfaces.contains_key(crtc),
        walk(connectors, crtcs, reports).surfaces[crtc] == crate::connectors::chosen_extent(
            reports[i].info->0,
        ),
    decreases reports.len(),
{
    let shorter = reports.drop_last();
    let last = reports.len() - 1;
    law_walk_counts(connectors, crtcs, shorter);
    assert(reports.take(last) == shorter);
    if i < last {
        assert(shorter.take(i) == reports.take(i));
        assert(set_up_on(crtcs, shorter, i, crtc));
        assert forall|j: int| i < j implies !set_up_on(crtcs, shorter, j, crtc) by {
            if set_up_on(crtcs, shorter, j, crtc) {
                assert(shorter.take(j) == reports.take(j));
                assert(set_up_on(crtcs, reports, j, crtc));
            }
        }
        law_last_setup_stands(connectors, crtcs, shorter, i, crtc);
        assert(!set_up_on(crtcs, reports, last, crtc));
    }
}

/// A connector that could not be read or used leaves no trace, wherever it is listed: the same
/// outputs stand on the same controllers, with the same bounds, and the other connectors keep their
/// ranks. Only one connector more has been read.
pub proof fn law_unusable_connector_is_passed_over(
    connectors: Seq<u32>,
    crtcs: Seq<u32>,
    before: Seq<Report>,
    unusable: Report,
    after: Seq<Report>,
)
    requires
        before.len() + 1 + after.len() <= connectors.len(),
        !unusable.usable(),
    ensures
        walk(connectors, crtcs, before.push(unusable) + after) == (ScanView {
            read: (before.len() + 1 + after.len()) as int,
            ..walk(connectors, crtcs, before + after)
        }),
        usable_count(before.push(unusable) + after) == usable_count(before + after),
    decreases after.len(),
{
    law_walk_counts(connectors, crtcs, before + after);
    if after.len() == 0 {
        assert(before.push(unusable) + after == before.push(unusable));
        assert(before.push(unusable).drop_last() == before);
        assert(before + after == before);
    } else {
        let shorter = after.drop_last();
        law_unusable_connector_is_passed_over(connectors, crtcs, before, unusable, shorter);
        law_walk_counts(connectors, crtcs, before + shorter);
        assert((before.push(unusable) + after).drop_last() == before.push(unusable) + shorter);
        assert((before + after).drop_last() == before + shorter);
    }
}

/// Where no controller is listed twice, no two connectors are set up on the same one.
pub proof fn law_controllers_are_not_shared(
    crtcs: Seq<u32>,
    reports: Seq<Report>,
    i: int,
    j: int,
    crtc: u32,
)
    requires
        crtcs.no_duplicates(),
        set_up_on(crtcs, reports, i, crtc),
        set_up_on(crtcs, reports, j, crtc),
    ensures
        i == j,
{
    if i < j {
        lemma_rank_grows(reports, i, j);
    } else if j < i {
        lemma_rank_grows(reports, j, i);
    }
}

/// A usable connector ranks below every later one.
proof fn lemma_rank_grows(reports: Seq<Report>, i: int, j: int)
    requires
        0 <= i < j <= reports.len(),
        reports[i].usable(),
    ensures
        0 <= usable_count(reports.take(i)) < usable_count(reports.take(j)),
    decreases j,
{
    assert(reports.take(j).drop_last() == reports.take(j - 1));
    if i < j - 1 {
        lemma_rank_grows(reports, i, j - 1);
    } else {
        lemma_rank_is_natural(reports.take(i));
    }
}

proof fn lemma_rank_is_natural(reports: Seq<Report>)
    ensures
        0 <= usable_count(reports),
    decreases reports.len(),
{
    if reports.len() > 0 {
        lemma_rank_is_natural(reports.drop_last());
    }
}

/// The bounds of the pointer are the size of the output that was set up last, on whichever
/// controller; there are none where no output was set up.
pub proof fn law_bounds_are_those_of_the_last_output(
    connectors: Seq<u32>,
    crtcs: Seq<u32>,
    reports: Seq<Report>,
)
    requires
        reports.len() <= connectors.len(),
    ensures
        forall|i: int, crtc: u32| #[trigger]
            set_up_on(crtcs, reports, i, crtc) && (forall|j: int, other: u32|
                i < j ==> !set_up_on(crtcs, reports, j, other)) ==> walk(
                connectors,
                crtcs,
                reports,
            ).bounds == Some(crate::connectors::chosen_extent(reports[i].info->0)),
        walk(connectors, crtcs, reports).bounds is None <==> forall|i: int, crtc: u32|
            !set_up_on(crtcs, reports, i, crtc),
    decreases reports.len(),
{
    if reports.len() == 0 {
        assert forall|i: int, crtc: u32| !set_up_on(crtcs, reports, i, crtc) by {}
    } else {
        let shorter = reports.drop_last();
        let last = reports.len() - 1;
        law_walk_counts(connectors, crtcs, shorter);
        law_bounds_are_those_of_the_last_output(connectors, crtcs, shorter);
        assert(reports.take(last) == shorter);
        assert forall|i: int, crtc: u32| i != last implies set_up_on(crtcs, reports, i, crtc)
            == set_up_on(crtcs, shorter, i, crtc) by {
            if 0 <= i < last {
                assert(shorter.take(i) == reports.take(i));
            }
        }
        let scan = walk(connectors, crtcs, shorter);
        if crate::connectors::gets_controller(scan, reports.last().info) && reports.last().ready {
            assert(set_up_on(crtcs, reports, last, scan.crtcs[scan.used]));
        } else {
            assert forall|crtc: u32| !set_up_on(crtcs, reports, last, crtc) by {}
            assert forall|i: int, crtc: u32| #[trigger]
                set_up_on(crtcs, reports, i, crtc) && (forall|j: int, other: u32|
                    i < j ==> !set_up_on(crtcs, reports, j, other)) implies walk(
                connectors,
                crtcs,
                reports,
            ).bounds == Some(crate::connectors::chosen_extent(reports[i].info->0)) by {
                assert(set_up_on(crtcs, shorter, i, crtc));
                assert forall|j: int, other: u32| i < j implies !set_up_on(
                    crtcs,
                    shorter,
                    j,
                    other,
                ) by {
                    assert(!set_up_on(crtcs, reports, j, other));
                }
            }
            if forall|i: int, crtc: u32| !set_up_on(crtcs, reports, i, crtc) {
                assert forall|i: int, crtc: u32| !set_up_on(crtcs, shorter, i, crtc) by {
                    assert(!set_up_on(crtcs, reports, i, crtc));
                }
            }
        }
    }
}

} // verus!
