//! Which connector drives which display controller, and in which mode.
//!
//! A [`ConnectorScan`] walks the connectors of a device in order. The caller looks at the hardware
//! and reports what it found; the scan decides what comes next.

use std::collections::HashMap;

use vstd::prelude::*;

use crate::layout::Extent;

verus! {

broadcast use vstd::std_specs::hash::group_hash_axioms;

/// A mode that a connector offers.
#[derive(Clone, Copy, Debug, PartialEq, Eq, Structural)]
pub struct ModeInfo {
    pub width: u16,
    pub height: u16,
    pub preferred: bool,
}

impl ModeInfo {
    /// The size of a display in this mode.
    pub open spec fn extent(self) -> Extent {
        Extent { width: self.width as i32, height: self.height as i32 }
    }
}

/// What a connector tells about itself.
#[derive(Debug)]
pub struct ConnectorInfo {
    pub connected: bool,
    pub modes: Vec<ModeInfo>,
    /// The name of the kind of connector.
    pub interface: String,
    /// The number of the connector among those of its kind.
    pub interface_id: u32,
    /// The size of the screen in millimetres, where it is known.
    pub physical_size: Option<(u32, u32)>,
}

/// Why a connector is passed over before any output is set up on it.
#[derive(Clone, Copy, Debug, PartialEq, Eq, Structural)]
pub enum Skip {
    /// It could not be read.
    Unreadable,
    /// Nothing is connected to it, or it offers no mode.
    Unused,
    /// Every controller is taken.
    NoController,
}

/// The output to set up on a connector.
#[derive(Debug)]
pub struct OutputPlan {
    pub connector: u32,
    pub crtc: u32,
    /// The place of the mode in the list that the connector offers.
    pub mode: usize,
    pub extent: Extent,
    pub name: String,
    /// The size of the screen in millimetres, zero where it is not known.
    pub physical_size: (i32, i32),
}

/// How the setup of a planned output ended.
#[derive(Clone, Copy, Debug, PartialEq, Eq, Structural)]
pub enum SetupOutcome {
    Ready,
    NoPlanes,
    NoRenderer,
    OutputRefused,
}

/// The mode at `i` is the first that is marked as preferred.
pub open spec fn is_first_preferred(modes: Seq<ModeInfo>, i: int) -> bool {
    &&& 0 <= i < modes.len()
    &&& modes[i].preferred
    &&& forall|j: int| 0 <= j < i ==> !(#[trigger] modes[j]).preferred
}

/// The place of the mode to use: that of the first preferred mode, or the first place where no
/// mode is preferred.
pub open spec fn chosen_mode(modes: Seq<ModeInfo>) -> int {
    if exists|i: int| is_first_preferred(modes, i) {
        choose|i: int| is_first_preferred(modes, i)
    } else {
        0
    }
}

/// Whether an output can be set up on a connector: something is connected, in some mode.
pub open spec fn usable(info: ConnectorInfo) -> bool {
    info.connected && info.modes@.len() > 0
}

/// The size of the display on a usable connector.
pub open spec fn chosen_extent(info: ConnectorInfo) -> Extent {
    info.modes@[chosen_mode(info.modes@)].extent()
}

/// The digits of `n` in base ten, without leading zeros.
pub open spec fn decimal(n: nat) -> Seq<char>
    decreases n,
{
    let digit = ('0' as int + n % 10) as char;
    if n < 10 {
        seq![digit]
    } else {
        decimal(n / 10).push(digit)
    }
}

/// The name of an output: the kind of its connector, a hyphen, the number of the connector.
pub open spec fn output_name(interface: Seq<char>, id: u32) -> Seq<char> {
    interface.push('-') + decimal(id as nat)
}

/// Appends one digit.
fn append_digit(name: &mut String, digit: u32)
    requires
        digit < 10,
    ensures
        final(name)@ == old(name)@ + decimal(digit as nat),
{
    proof {
        reveal_strlit("0");
        reveal_strlit("1");
        reveal_strlit("2");
        reveal_strlit("3");
        reveal_strlit("4");
        reveal_strlit("5");
        reveal_strlit("6");
        reveal_strlit("7");
        reveal_strlit("8");
        reveal_strlit("9");
    }
    match digit {
        0 => name.append("0"),
        1 => name.append("1"),
        2 => name.append("2"),
        3 => name.append("3"),
        4 => name.append("4"),
        5 => name.append("5"),
        6 => name.append("6"),
        7 => name.append("7"),
        8 => name.append("8"),
        _ => name.append("9"),
    }
}

/// Appends a number in base ten.
fn append_decimal(name: &mut String, number: u32)
    ensures
        final(name)@ == old(name)@ + decimal(number as nat),
    decreases number,
{
    if number >= 10 {
        append_decimal(name, number / 10);
    }
    append_digit(name, number % 10);
}

/// Writes the name of an output.
fn hyphenated(interface: &str, id: u32) -> (name: String)
    ensures
        name@ == output_name(interface@, id),
{
    let mut name = interface.to_owned();
    proof {
        reveal_strlit("-");
    }
    name.append("-");
    append_decimal(&mut name, id);
    name
}

/// Picks the mode of a connector.
pub fn pick_mode(modes: &Vec<ModeInfo>) -> (place: usize)
    ensures
        place == chosen_mode(modes@),
        modes@.len() > 0 ==> place < modes@.len(),
        forall|j: int| 0 <= j < place ==> !(#[trigger] modes@[j]).preferred,
        modes@.len() == 0 || !modes@[place as int].preferred ==> place == 0 && forall|j: int|
            0 <= j < modes@.len() ==> !(#[trigger] modes@[j]).preferred,
{
    let mut i: usize = 0;
    while i < modes.len()
        invariant
            i <= modes@.len(),
            forall|j: int| 0 <= j < i ==> !(#[trigger] modes@[j]).preferred,
        decreases modes@.len() - i,
    {
        if modes[i].preferred {
            proof {
                assert(is_first_preferred(modes@, i as int));
                let k = chosen_mode(modes@);
                assert(is_first_preferred(modes@, k));
                assert(k == i) by {
                    if k < i {
                        assert(!modes@[k].preferred);
                    } else if i < k {
                        assert(!modes@[i as int].preferred);
                    }
                }
            }
            return i;
        }
        i = i + 1;
    }
    assert forall|k: int| !is_first_preferred(modes@, k) by {
        if 0 <= k < modes@.len() {
            assert(!modes@[k].preferred);
        }
    }
    0
}

/// The state of a scan.
#[verifier::ext_equal]
pub struct ScanView {
    /// The connectors of the device, in order.
    pub connectors: Seq<u32>,
    /// Its controllers, in order.
    pub crtcs: Seq<u32>,
    /// How many connectors have been read.
    pub read: int,
    /// How many controllers have been given out.
    pub used: int,
    /// The output that is being set up: its controller and its size.
    pub pending: Option<(u32, Extent)>,
    /// The outputs that are set up, by controller.
    pub surfaces: Map<u32, Extent>,
    /// The size of the output that was set up last.
    pub bounds: Option<Extent>,
}

/// A scan that has read no connector.
pub open spec fn scan_start(connectors: Seq<u32>, crtcs: Seq<u32>) -> ScanView {
    ScanView {
        connectors,
        crtcs,
        read: 0,
        used: 0,
        pending: None,
        surfaces: Map::empty(),
        bounds: None,
    }
}

/// Whether a connector that was just read gets a controller.
pub open spec fn gets_controller(scan: ScanView, info: Option<ConnectorInfo>) -> bool {
    info is Some && usable(info->0) && scan.used < scan.crtcs.len()
}

/// The scan once the next connector was read, or could not be: a usable connector takes the next
/// controller, as long as there is one.
pub open spec fn after_read(scan: ScanView, info: Option<ConnectorInfo>) -> ScanView {
    if gets_controller(scan, info) {
        ScanView {
            read: scan.read + 1,
            used: scan.used + 1,
            pending: Some((scan.crtcs[scan.used], chosen_extent(info->0))),
            ..scan
        }
    } else {
        ScanView { read: scan.read + 1, ..scan }
    }
}

/// The scan once the setup of the pending output ended. One that failed leaves no output, and its
/// controller stays taken.
pub open spec fn after_setup(scan: ScanView, ready: bool) -> ScanView {
    match scan.pending {
        Some((crtc, extent)) => if ready {
            ScanView {
                pending: None,
                surfaces: scan.surfaces.insert(crtc, extent),
                bounds: Some(extent),
                ..scan
            }
        } else {
            ScanView { pending: None, ..scan }
        },
        None => scan,
    }
}

/// A walk over the connectors of a device.
pub struct ConnectorScan {
    pub(crate) connectors: Vec<u32>,
    pub(crate) crtcs: Vec<u32>,
    pub(crate) read: usize,
    pub(crate) used: usize,
    pub(crate) pending: Option<(u32, Extent)>,
    pub(crate) surfaces: HashMap<u32, Extent>,
    pub(crate) bounds: Option<Extent>,
}

impl View for ConnectorScan {
    type V = ScanView;

    closed spec fn view(&self) -> ScanView {
        ScanView {
            connectors: self.connectors@,
            crtcs: self.crtcs@,
            read: self.read as int,
            used: self.used as int,
            pending: self.pending,
            surfaces: self.surfaces@,
            bounds: self.bounds,
        }
    }
}

/// No side of a display is negative.
pub open spec fn proper(extent: Extent) -> bool {
    0 <= extent.width && 0 <= extent.height
}

/// One of these outputs has this size.
pub open spec fn has_output(surfaces: Map<u32, Extent>, extent: Extent) -> bool {
    exists|crtc: u32| #[trigger] surfaces.contains_key(crtc) && surfaces[crtc] == extent
}

impl ScanView {
    /// What holds of every scan: it is not past the end of either list, each connector that was
    /// read took one controller at most, every output stands on a controller that was given out,
    /// no side of a display is negative, and the bounds are the size of an output where there is
    /// one.
    pub open spec fn wf(self) -> bool {
        &&& 0 <= self.read <= self.connectors.len()
        &&& 0 <= self.used <= self.crtcs.len()
        &&& self.used <= self.read
        &&& self.pending matches Some((crtc, extent)) ==> {
            &&& self.used > 0
            &&& crtc == self.crtcs[self.used - 1]
            &&& proper(extent)
        }
        &&& forall|crtc: u32| #[trigger]
            self.surfaces.contains_key(crtc) ==> self.crtcs.take(self.used).contains(crtc)
                && proper(self.surfaces[crtc])
        &&& self.bounds matches Some(extent) ==> has_output(self.surfaces, extent)
        &&& self.bounds is None <==> self.surfaces.dom() == Set::<u32>::empty()
    }

    /// Every connector was read and no output is being set up.
    pub open spec fn finished(self) -> bool {
        self.read == self.connectors.len() && self.pending is None
    }
}

impl ConnectorScan {
    /// Starts a scan over the connectors and the controllers of a device. A device that could not
    /// list them has none.
    pub fn new(resources: Option<(Vec<u32>, Vec<u32>)>) -> (scan: ConnectorScan)
        ensures
            scan@.wf(),
            scan@ == match resources {
                Some((connectors, crtcs)) => scan_start(connectors@, crtcs@),
                None => scan_start(Seq::empty(), Seq::empty()),
            },
            resources matches Some((connectors, crtcs)) ==> scan@.connectors == connectors@
                && scan@.crtcs == crtcs@,
            resources is None ==> scan@.connectors.len() == 0,
            scan@.read == 0,
            scan@.used == 0,
            scan@.pending is None,
            scan@.surfaces == Map::<u32, Extent>::empty(),
            scan@.bounds is None,
    {
        let (connectors, crtcs) = match resources {
            Some((connectors, crtcs)) => (connectors, crtcs),
            None => (Vec::new(), Vec::new()),
        };
        ConnectorScan {
            connectors,
            crtcs,
            read: 0,
            used: 0,
            pending: None,
            surfaces: HashMap::new(),
            bounds: None,
        }
    }

    /// The connector to read next.
    pub fn next_connector(&self) -> (connector: Option<u32>)
        requires
            self@.wf(),
        ensures
            connector == (if self@.read < self@.connectors.len() {
                Some(self@.connectors[self@.read])
            } else {
                None
            }),
    {
        if self.read < self.connectors.len() {
            Some(self.connectors[self.read])
        } else {
            None
        }
    }

    /// Takes in what was read from the next connector, `None` where it could not be read, and says
    /// which output to set up on it or why there is none.
    pub fn connector_read(&mut self, info: Option<ConnectorInfo>) -> (plan: Result<OutputPlan, Skip>)
        requires
            old(self)@.wf(),
            old(self)@.pending is None,
            old(self)@.read < old(self)@.connectors.len(),
        ensures
            final(self)@.wf(),
            final(self)@ == after_read(old(self)@, info),
            plan is Ok <==> gets_controller(old(self)@, info),
            plan matches Ok(output) ==> {
                &&& output.connector == old(self)@.connectors[old(self)@.read]
                &&& output.crtc == old(self)@.crtcs[old(self)@.used]
                &&& output.mode == chosen_mode(info->0.modes@)
                &&& output.extent == chosen_extent(info->0)
                &&& output.name@ == output_name(info->0.interface@, info->0.interface_id)
                &&& output.physical_size == (match info->0.physical_size {
                    Some((width, height)) => (width as i32, height as i32),
                    None => (0i32, 0i32),
                })
            },
            plan matches Err(Skip::Unreadable) <==> info is None,
            plan matches Err(Skip::Unused) <==> info is Some && !usable(info->0),
            plan matches Err(Skip::NoController) <==> info is Some && usable(info->0)
                && old(self)@.used == old(self)@.crtcs.len(),
            plan is Ok <==> info is Some && info->0.connected && info->0.modes@.len() > 0
                && old(self)@.used < old(self)@.crtcs.len(),
            plan matches Err(Skip::Unused) <==> info is Some && (!info->0.connected
                || info->0.modes@.len() == 0),
            plan matches Ok(output) ==> {
                &&& output.mode < info->0.modes@.len()
                &&& output.extent.width == info->0.modes@[output.mode as int].width
                &&& output.extent.height == info->0.modes@[output.mode as int].height
                &&& info->0.modes@[output.mode as int].preferred || output.mode == 0
                &&& output.name@.len() > info->0.interface@.len()
                &&& output.name@.take(info->0.interface@.len() as int) == info->0.interface@
                &&& output.name@[info->0.interface@.len() as int] == '-'
            },
            final(self)@.connectors == old(self)@.connectors,
            final(self)@.crtcs == old(self)@.crtcs,
            final(self)@.read == old(self)@.read + 1,
            final(self)@.used == old(self)@.used + (if plan is Ok {
                1int
            } else {
                0
            }),
            final(self)@.pending == (match plan {
                Ok(output) => Some((output.crtc, output.extent)),
                Err(_) => None,
            }),
            final(self)@.surfaces == old(self)@.surfaces,
            final(self)@.bounds == old(self)@.bounds,
    {
        assert(self.read < self.connectors.len());
        let connector: u32 = self.connectors[self.read];
        self.read = self.read + 1;
        let info = match info {
            Some(info) => info,
            None => {
                return Err(Skip::Unreadable);
            },
        };
        if !info.connected || info.modes.len() == 0 {
            return Err(Skip::Unused);
        }
        let mode: usize = pick_mode(&info.modes);
        if self.used >= self.crtcs.len() {
            return Err(Skip::NoController);
        }
        let crtc: u32 = self.crtcs[self.used];
        self.used = self.used + 1;
        let extent = Extent {
            width: info.modes[mode].width as i32,
            height: info.modes[mode].height as i32,
        };
        self.pending = Some((crtc, extent));
        let name = hyphenated(info.interface.as_str(), info.interface_id);
        let physical_size = match info.physical_size {
            Some((width, height)) => (width as i32, height as i32),
            None => (0i32, 0i32),
        };
        proof {
            lemma_more_controllers(old(self)@);
        }
        Ok(OutputPlan { connector, crtc, mode, extent, name, physical_size })
    }

    /// Takes in how the setup of the planned output ended.
    pub fn output_set_up(&mut self, outcome: SetupOutcome)
        requires
            old(self)@.wf(),
            old(self)@.pending is Some,
        ensures
            final(self)@.wf(),
            final(self)@ == after_setup(old(self)@, outcome == SetupOutcome::Ready),
            final(self)@.connectors == old(self)@.connectors,
            final(self)@.crtcs == old(self)@.crtcs,
            final(self)@.read == old(self)@.read,
            final(self)@.used == old(self)@.used,
            final(self)@.pending is None,
            final(self)@.surfaces == (if outcome == SetupOutcome::Ready {
                old(self)@.surfaces.insert((old(self)@.pending->0).0, (old(self)@.pending->0).1)
            } else {
                old(self)@.surfaces
            }),
            final(self)@.bounds == (if outcome == SetupOutcome::Ready {
                Some((old(self)@.pending->0).1)
            } else {
                old(self)@.bounds
            }),
    {
        if let Some((crtc, extent)) = self.pending {
            self.pending = None;
            if let SetupOutcome::Ready = outcome {
                self.surfaces.insert(crtc, extent);
                self.bounds = Some(extent);
                proof {
                    assert(self@.crtcs.take(self@.used)[self@.used - 1] == crtc);
                    assert(self@.surfaces.contains_key(crtc));
                }
            }
        }
    }
}

/// The parts of a scan are those of its state.
pub(crate) proof fn lemma_scan_parts(scan: &ConnectorScan)
    ensures
        scan.surfaces@ == scan@.surfaces,
        scan.bounds == scan@.bounds,
{
}

/// Where a mode is preferred, the chosen mode is preferred, and no mode before it is; where none
/// is, it is the first. Either way it is one of the modes, where there are any.
pub proof fn law_chosen_mode(modes: Seq<ModeInfo>)
    ensures
        (exists|i: int| 0 <= i < modes.len() && (#[trigger] modes[i]).preferred)
            ==> is_first_preferred(modes, chosen_mode(modes)),
        !(exists|i: int| 0 <= i < modes.len() && (#[trigger] modes[i]).preferred) ==> chosen_mode(
            modes,
        ) == 0,
        modes.len() > 0 ==> 0 <= chosen_mode(modes) < modes.len(),
{
    if exists|i: int| 0 <= i < modes.len() && (#[trigger] modes[i]).preferred {
        let i = choose|i: int| 0 <= i < modes.len() && (#[trigger] modes[i]).preferred;
        lemma_first_preferred_exists(modes, i);
    }
}

/// The mode at `i` is chosen where it is the first preferred one, or the first of all and none is
/// preferred, and the display has its width and its height.
pub proof fn law_display_has_the_size_of_its_mode(info: ConnectorInfo, i: int)
    requires
        0 <= i < info.modes@.len(),
        info.modes@[i].preferred || i == 0,
        forall|j: int|
            0 <= j < info.modes@.len() && (j < i || !info.modes@[i].preferred)
                ==> !(#[trigger] info.modes@[j]).preferred,
    ensures
        chosen_mode(info.modes@) == i,
        chosen_extent(info).width == info.modes@[i].width,
        chosen_extent(info).height == info.modes@[i].height,
{
    let modes = info.modes@;
    law_chosen_mode(modes);
    let k = chosen_mode(modes);
    if modes[i].preferred {
        if k < i {
            assert(!modes[k].preferred);
        } else if i < k {
            assert(!modes[i].preferred);
        }
    }
}

/// No mode before the chosen one is preferred, and the chosen one is, unless none of them is.
pub proof fn law_first_preferred_mode_is_chosen(modes: Seq<ModeInfo>, j: int)
    requires
        0 <= j < modes.len(),
    ensures
        0 <= chosen_mode(modes) < modes.len(),
        j < chosen_mode(modes) ==> !modes[j].preferred,
        modes[j].preferred ==> modes[chosen_mode(modes)].preferred,
        !modes[chosen_mode(modes)].preferred ==> chosen_mode(modes) == 0,
{
    law_chosen_mode(modes);
}

/// Modes behind the first preferred one have no part in the choice.
pub proof fn law_later_modes_do_not_decide(modes: Seq<ModeInfo>, more: Seq<ModeInfo>, i: int)
    requires
        0 <= i < modes.len(),
        modes[i].preferred,
    ensures
        chosen_mode(modes + more) == chosen_mode(modes),
{
    law_chosen_mode(modes);
    law_chosen_mode(modes + more);
    let a = chosen_mode(modes);
    let b = chosen_mode(modes + more);
    assert((modes + more)[i] == modes[i]);
    assert((modes + more)[a] == modes[a]);
    assert(is_first_preferred(modes + more, b));
    if a < b {
        assert(!(modes + more)[a].preferred);
    } else if b < a {
        assert((modes + more)[b] == modes[b]);
        assert(!modes[b].preferred);
    }
}

/// Reading a connector moves on by one connector. One that is connected and offers a mode takes the
/// next controller, where one is left, for an output of the size of its mode; any other takes none.
/// What was set up before stays.
pub proof fn law_reading_gives_out_controllers(scan: ScanView, info: Option<ConnectorInfo>)
    requires
        scan.pending is None,
    ensures
        ({
            let after = after_read(scan, info);
            &&& after.connectors == scan.connectors
            &&& after.crtcs == scan.crtcs
            &&& after.surfaces == scan.surfaces
            &&& after.bounds == scan.bounds
            &&& after.read == scan.read + 1
            &&& info is None || !info->0.connected || info->0.modes@.len() == 0 || scan.used
                >= scan.crtcs.len() ==> after.used == scan.used && after.pending is None
            &&& info is Some && info->0.connected && info->0.modes@.len() > 0 && scan.used
                < scan.crtcs.len() ==> {
                let mode = info->0.modes@[chosen_mode(info->0.modes@)];
                &&& after.used == scan.used + 1
                &&& after.pending is Some
                &&& (after.pending->0).0 == scan.crtcs[scan.used]
                &&& (after.pending->0).1.width == mode.width
                &&& (after.pending->0).1.height == mode.height
            }
        }),
{
}

/// A setup that worked puts the output that was pending on its controller and bounds the pointer by
/// it; one that failed leaves the outputs and the bounds as they are. Either way nothing is pending
/// any more, and no controller and no connector comes back.
pub proof fn law_setup_keeps_the_other_outputs(
    scan: ScanView,
    ready: bool,
    crtc: u32,
    extent: Extent,
    other: u32,
)
    requires
        scan.pending == Some((crtc, extent)),
    ensures
        ({
            let after = after_setup(scan, ready);
            &&& after.pending is None
            &&& after.connectors == scan.connectors
            &&& after.crtcs == scan.crtcs
            &&& after.read == scan.read
            &&& after.used == scan.used
            &&& ready ==> after.surfaces.contains_key(crtc) && after.surfaces[crtc] == extent
                && after.bounds == Some(extent)
            &&& !ready ==> after.surfaces == scan.surfaces && after.bounds == scan.bounds
            &&& other != crtc ==> (after.surfaces.contains_key(other)
                <==> scan.surfaces.contains_key(other))
            &&& other != crtc && scan.surfaces.contains_key(other) ==> after.surfaces[other]
                == scan.surfaces[other]
        }),
{
}

/// A walk is at its end where every connector was read and no output is being set up.
pub proof fn law_walk_ends(scan: ScanView)
    ensures
        scan.finished() <==> scan.read == scan.connectors.len() && scan.pending is None,
{
}

/// Numbers are written in base ten: a number below ten is one digit, and any other is that of its
/// tens with one digit behind.
pub proof fn law_decimal(tens: nat, ones: nat)
    requires
        ones < 10,
    ensures
        decimal(ones).len() == 1,
        decimal(ones)[0] as int == 48 + ones,
        tens > 0 ==> decimal(10 * tens + ones) == decimal(tens) + decimal(ones),
{
    if tens > 0 {
        let number = 10 * tens + ones;
        assert(number / 10 == tens);
        assert(number % 10 == ones);
    }
}

/// The name of an output starts with the kind of its connector, then comes a hyphen, then the number
/// of the connector and nothing else.
pub proof fn law_output_name(interface: Seq<char>, id: u32)
    ensures
        output_name(interface, id).take(interface.len() as int) == interface,
        output_name(interface, id)[interface.len() as int] == '-',
        output_name(interface, id).skip(interface.len() as int + 1) == decimal(id as nat),
        output_name(interface, id).len() == interface.len() + 1 + decimal(id as nat).len(),
{
}

/// Two connectors of the same kind have outputs of different names.
pub proof fn law_names_differ(interface: Seq<char>, a: u32, b: u32)
    requires
        a != b,
    ensures
        output_name(interface, a) != output_name(interface, b),
{
    law_output_name(interface, a);
    law_output_name(interface, b);
    if decimal(a as nat) == decimal(b as nat) {
        lemma_decimal_tells_apart(a as nat, b as nat);
    }
}

/// Two numbers that are written alike are the same.
proof fn lemma_decimal_tells_apart(a: nat, b: nat)
    requires
        decimal(a) == decimal(b),
    ensures
        a == b,
    decreases a,
{
    lemma_last_digit(a);
    lemma_last_digit(b);
    assert(a % 10 == b % 10);
    if a >= 10 && b >= 10 {
        assert(decimal(a).drop_last() == decimal(a / 10));
        assert(decimal(b).drop_last() == decimal(b / 10));
        lemma_decimal_tells_apart(a / 10, b / 10);
    } else if a >= 10 {
        lemma_last_digit(a / 10);
        assert(decimal(a).len() == decimal(a / 10).len() + 1);
    } else if b >= 10 {
        lemma_last_digit(b / 10);
        assert(decimal(b).len() == decimal(b / 10).len() + 1);
    }
}

/// The last digit of a number is what is left of it beside its tens.
proof fn lemma_last_digit(n: nat)
    ensures
        decimal(n).len() > 0,
        decimal(n).last() as int == 48 + n % 10,
{
}

/// Where a mode is preferred, there is a first preferred mode.
proof fn lemma_first_preferred_exists(modes: Seq<ModeInfo>, i: int)
    requires
        0 <= i < modes.len(),
        modes[i].preferred,
    ensures
        exists|k: int| is_first_preferred(modes, k),
    decreases i,
{
    if exists|j: int| 0 <= j < i && (#[trigger] modes[j]).preferred {
        let j = choose|j: int| 0 <= j < i && (#[trigger] modes[j]).preferred;
        lemma_first_preferred_exists(modes, j);
    } else {
        assert(is_first_preferred(modes, i));
    }
}

/// A controller that was given out stays given out when the next one is.
proof fn lemma_more_controllers(scan: ScanView)
    requires
        scan.wf(),
        scan.used < scan.crtcs.len(),
    ensures
        forall|crtc: u32| #[trigger]
            scan.surfaces.contains_key(crtc) ==> scan.crtcs.take(scan.used + 1).contains(crtc),
{
    assert forall|crtc: u32| #[trigger] scan.surfaces.contains_key(crtc) implies scan.crtcs.take(
        scan.used + 1,
    ).contains(crtc) by {
        let given = scan.crtcs.take(scan.used);
        let i = choose|i: int| 0 <= i < given.len() && given[i] == crtc;
        assert(scan.crtcs.take(scan.used + 1)[i] == crtc);
    }
}

} // verus!
