//! The state of the compositor: which devices drive which displays, and what they show.

use std::collections::HashMap;
use std::hash::Hash;

use vstd::prelude::*;
use vstd::std_specs::hash::obeys_key_model;
use vstd::std_specs::iter::IteratorSpec;

use crate::connectors::{lemma_scan_parts, ConnectorScan, ScanView};
use crate::layout::{Element, Extent, Place};

verus! {

broadcast use vstd::std_specs::hash::group_hash_axioms;

/// A device and the displays that it drives.
pub struct Backend<N> {
    /// The node whose renderer paints for the device.
    pub render_node: N,
    /// The size of each display, by controller.
    pub surfaces: HashMap<u32, Extent>,
}

/// What a [`Backend`] stands for.
pub struct BackendView<N> {
    pub render_node: N,
    pub surfaces: Map<u32, Extent>,
}

impl<N> View for Backend<N> {
    type V = BackendView<N>;

    open spec fn view(&self) -> BackendView<N> {
        BackendView { render_node: self.render_node, surfaces: self.surfaces@ }
    }
}

/// What to paint on one display.
pub struct Frame<N> {
    pub device: u64,
    pub render_node: N,
    pub crtc: u32,
    pub elements: Vec<Element>,
}

/// The kinds of input event that are told apart.
#[derive(Clone, Copy, Debug, PartialEq, Eq, Structural)]
pub enum InputKind {
    Keyboard,
    PointerButton,
    PointerMotion,
    DeviceAdded,
    DeviceRemoved,
    Other,
}

/// The state of the compositor. `N` names render nodes, `B` is an uploaded picture.
pub struct Compositor<N, B> {
    /// The devices, by device number.
    pub backends: HashMap<u64, Backend<N>>,
    /// The size of the output that bounds the pointer.
    pub output: Extent,
    pub needs_redraw: bool,
    pub text_buffer: Option<B>,
    pub text_size: Option<(u32, u32)>,
    pub cursor_buffer: Option<B>,
}

/// What a [`Compositor`] stands for.
#[verifier::ext_equal]
pub struct CompositorView<N, B> {
    pub backends: Map<u64, BackendView<N>>,
    pub output: Extent,
    pub needs_redraw: bool,
    pub text_buffer: Option<B>,
    pub text_size: Option<(u32, u32)>,
    pub cursor_buffer: Option<B>,
}

impl<N, B> View for Compositor<N, B> {
    type V = CompositorView<N, B>;

    open spec fn view(&self) -> CompositorView<N, B> {
        CompositorView {
            backends: self.backends@.map_values(|backend: Backend<N>| backend@),
            output: self.output,
            needs_redraw: self.needs_redraw,
            text_buffer: self.text_buffer,
            text_size: self.text_size,
            cursor_buffer: self.cursor_buffer,
        }
    }
}

/// The size of a text image: it holds a pixel, and a `u32` counts its bytes.
pub open spec fn is_text_size(size: (u32, u32)) -> bool {
    0 < size.0 && 0 < size.1 && size.0 * size.1 * 4 <= u32::MAX
}

/// Among these devices, `node` drives a display on controller `crtc`.
pub open spec fn drives<N>(backends: Map<u64, BackendView<N>>, node: u64, crtc: u32) -> bool {
    backends.contains_key(node) && backends[node].surfaces.contains_key(crtc)
}

/// No side of a display is negative.
pub open spec fn displays_are_proper<N>(backends: Map<u64, BackendView<N>>) -> bool {
    forall|node: u64, crtc: u32| #[trigger]
        drives(backends, node, crtc) ==> crate::connectors::proper(backends[node].surfaces[crtc])
}

impl<N, B> CompositorView<N, B> {
    /// Device `node` drives a display on controller `crtc`.
    pub open spec fn drives(self, node: u64, crtc: u32) -> bool {
        drives(self.backends, node, crtc)
    }

    /// What holds of every state: no side of a display or of the bounds of the pointer is
    /// negative, and the size of the text is that of an image.
    pub open spec fn wf(self) -> bool {
        &&& crate::connectors::proper(self.output)
        &&& displays_are_proper(self.backends)
        &&& self.text_size matches Some(size) ==> is_text_size(size)
    }

    /// The width of the text, where there is one to show.
    pub open spec fn shown_text(self) -> Option<u32> {
        match self.text_size {
            Some((width, _)) => if self.text_buffer is Some {
                Some(width)
            } else {
                None
            },
            None => None,
        }
    }

    /// `frame` is what a display of this state shows.
    pub open spec fn shows(self, frame: Frame<N>, pointer: Place) -> bool {
        &&& self.drives(frame.device, frame.crtc)
        &&& frame.render_node == self.backends[frame.device].render_node
        &&& frame.elements@ == crate::layout::frame_elements(
            self.backends[frame.device].surfaces[frame.crtc],
            self.shown_text(),
            self.cursor_buffer is Some,
            pointer,
        )
    }

    /// `frames` paint every display of this state once, device after device. Neither the order of
    /// the devices nor that of the displays of a device is fixed.
    pub open spec fn painted_by(self, frames: Seq<Frame<N>>, pointer: Place) -> bool {
        &&& forall|i: int| 0 <= i < frames.len() ==> self.shows(#[trigger] frames[i], pointer)
        &&& forall|node: u64, crtc: u32| #[trigger]
            self.drives(node, crtc) ==> has_frame(frames, node, crtc)
        &&& forall|i: int, j: int|
            0 <= i < j < frames.len() ==> !same_display(#[trigger] frames[i], #[trigger] frames[j])
        &&& forall|i: int, j: int, k: int|
            #![trigger frames[i], frames[j], frames[k]]
            0 <= i < j < k < frames.len() && frames[i].device == frames[k].device
                ==> frames[j].device == frames[i].device
    }
}

/// Two frames are for the same display.
pub open spec fn same_display<N>(a: Frame<N>, b: Frame<N>) -> bool {
    a.device == b.device && a.crtc == b.crtc
}

/// One of the frames is for the display of device `node` on controller `crtc`.
pub open spec fn has_frame<N>(frames: Seq<Frame<N>>, node: u64, crtc: u32) -> bool {
    exists|i: int|
        0 <= i < frames.len() && (#[trigger] frames[i]).device == node && frames[i].crtc == crtc
}

/// The state once device `node` was brought in after this walk over its connectors. It takes the
/// place of one with the same number, and the output that was set up last bounds the pointer.
pub open spec fn after_device_added<N, B>(
    state: CompositorView<N, B>,
    node: u64,
    render_node: N,
    scan: ScanView,
) -> CompositorView<N, B> {
    CompositorView {
        backends: state.backends.insert(
            node,
            BackendView { render_node, surfaces: scan.surfaces },
        ),
        output: match scan.bounds {
            Some(extent) => extent,
            None => state.output,
        },
        ..state
    }
}

/// The state once device `node` is gone.
pub open spec fn after_device_removed<N, B>(
    state: CompositorView<N, B>,
    node: u64,
) -> CompositorView<N, B> {
    CompositorView { backends: state.backends.remove(node), ..state }
}

/// The state once an input event came: one that moves the pointer asks for a redraw.
pub open spec fn after_input<N, B>(
    state: CompositorView<N, B>,
    kind: InputKind,
) -> CompositorView<N, B> {
    CompositorView {
        needs_redraw: state.needs_redraw || kind == InputKind::PointerMotion,
        ..state
    }
}

/// The state once input events came, one after the other.
pub open spec fn after_inputs<N, B>(
    state: CompositorView<N, B>,
    kinds: Seq<InputKind>,
) -> CompositorView<N, B>
    decreases kinds.len(),
{
    if kinds.len() == 0 {
        state
    } else {
        after_input(after_inputs(state, kinds.drop_last()), kinds.last())
    }
}

/// The state once the question whether a redraw is due was settled.
pub open spec fn after_redraw_taken<N, B>(state: CompositorView<N, B>) -> CompositorView<N, B> {
    CompositorView { needs_redraw: false, ..state }
}

/// The keys of a map, in no particular order.
fn key_list<K: Copy + Eq + Hash, V>(map: &HashMap<K, V>) -> (list: Vec<K>)
    requires
        obeys_key_model::<K>(),
    ensures
        list@.no_duplicates(),
        forall|key: K| list@.contains(key) <==> #[trigger] map@.contains_key(key),
{
    let mut list: Vec<K> = Vec::new();
    let ghost all = map.keys().remaining().unref();
    assert(all.to_set() == map@.dom());
    for key in keys: map.keys()
        invariant
            keys.seq().unref() == all,
            list@ == all.take(keys.index()),
    {
        list.push(*key);
    }
    assert(list@ == all);
    assert forall|key: K| list@.contains(key) <==> #[trigger] map@.contains_key(key) by {
        assert(list@.to_set().contains(key) <==> map@.dom().contains(key));
    }
    list
}

impl<N: Copy, B> Compositor<N, B> {
    /// The frames of one device.
    fn device_frames(&self, node: u64, backend: &Backend<N>, pointer: Place) -> (frames: Vec<
        Frame<N>,
    >)
        requires
            self@.wf(),
            self.backends@.contains_key(node),
            self.backends@[node] == *backend,
        ensures
            forall|i: int|
                0 <= i < frames@.len() ==> self@.shows(#[trigger] frames@[i], pointer)
                    && frames@[i].device == node,
            forall|crtc: u32| #[trigger]
                self@.drives(node, crtc) ==> has_frame(frames@, node, crtc),
            forall|i: int, j: int|
                0 <= i < j < frames@.len() ==> !same_display(
                    #[trigger] frames@[i],
                    #[trigger] frames@[j],
                ),
    {
        let text_width: Option<u32> = match self.text_size {
            Some((width, height)) => {
                proof {
                    lemma_text_width(width as int, height as int);
                }
                if self.text_buffer.is_some() {
                    Some(width)
                } else {
                    None
                }
            },
            None => None,
        };
        let crtcs = key_list(&backend.surfaces);
        let mut frames: Vec<Frame<N>> = Vec::new();
        let mut i: usize = 0;
        while i < crtcs.len()
            invariant
                i <= crtcs@.len(),
                self@.wf(),
                self.backends@.contains_key(node),
                self.backends@[node] == *backend,
                text_width == self@.shown_text(),
                text_width matches Some(width) ==> width <= i32::MAX,
                crtcs@.no_duplicates(),
                forall|crtc: u32|
                    crtcs@.contains(crtc) <==> #[trigger] backend.surfaces@.contains_key(crtc),
                frames@.len() == i,
                forall|k: int|
                    0 <= k < frames@.len() ==> self@.shows(#[trigger] frames@[k], pointer)
                        && frames@[k].device == node && frames@[k].crtc == crtcs@[k],
            decreases crtcs@.len() - i,
        {
            let crtc: u32 = crtcs[i];
            assert(crtcs@.contains(crtc));
            assert(self@.drives(node, crtc));
            if let Some(extent) = backend.surfaces.get(&crtc) {
                let elements = crate::layout::arrange(
                    *extent,
                    text_width,
                    self.cursor_buffer.is_some(),
                    pointer,
                );
                frames.push(
                    Frame { device: node, render_node: backend.render_node, crtc, elements },
                );
            }
            i = i + 1;
        }
        assert forall|crtc: u32| #[trigger] self@.drives(node, crtc) implies has_frame(
            frames@,
            node,
            crtc,
        ) by {
            assert(crtcs@.contains(crtc));
            let k = choose|k: int| 0 <= k < crtcs@.len() && crtcs@[k] == crtc;
            assert(frames@[k].crtc == crtc);
        }
        frames
    }

    /// What to paint now, on every display of every device.
    pub fn redraw(&self, pointer: Place) -> (frames: Vec<Frame<N>>)
        requires
            self@.wf(),
        ensures
            self@.painted_by(frames@, pointer),
    {
        let nodes = key_list(&self.backends);
        let mut frames: Vec<Frame<N>> = Vec::new();
        let mut n: usize = 0;
        while n < nodes.len()
            invariant
                n <= nodes@.len(),
                self@.wf(),
                nodes@.no_duplicates(),
                forall|node: u64|
                    nodes@.contains(node) <==> #[trigger] self.backends@.contains_key(node),
                forall|i: int|
                    0 <= i < frames@.len() ==> self@.shows(#[trigger] frames@[i], pointer)
                        && nodes@.take(n as int).contains(frames@[i].device),
                forall|k: int, crtc: u32|
                    0 <= k < n && #[trigger] self@.drives(nodes@[k], crtc) ==> has_frame(
                        frames@,
                        nodes@[k],
                        crtc,
                    ),
                forall|i: int, j: int|
                    0 <= i < j < frames@.len() ==> !same_display(
                        #[trigger] frames@[i],
                        #[trigger] frames@[j],
                    ),
                forall|i: int, j: int, k: int|
                    #![trigger frames@[i], frames@[j], frames@[k]]
                    0 <= i < j < k < frames@.len() && frames@[i].device == frames@[k].device
                        ==> frames@[j].device == frames@[i].device,
            decreases nodes@.len() - n,
        {
            let node: u64 = nodes[n];
            assert(nodes@.contains(node));
            if let Some(backend) = self.backends.get(&node) {
                let ghost before = frames@;
                let mut more = self.device_frames(node, backend, pointer);
                let ghost added = more@;
                frames.append(&mut more);
                proof {
                    lemma_frames_extend(self@, nodes@, n as int, before, added, pointer);
                }
            }
            n = n + 1;
        }
        assert forall|node: u64, crtc: u32| #[trigger] self@.drives(node, crtc) implies has_frame(
            frames@,
            node,
            crtc,
        ) by {
            assert(nodes@.contains(node));
            let k = choose|k: int| 0 <= k < nodes@.len() && nodes@[k] == node;
            assert(self@.drives(nodes@[k], crtc));
        }
        frames
    }
}

impl<N, B> Compositor<N, B> {
    /// A compositor without devices and pictures, which is due to be painted.
    pub fn new() -> (state: Compositor<N, B>)
        ensures
            state@.wf(),
            state@ == (CompositorView {
                backends: Map::<u64, BackendView<N>>::empty(),
                output: Extent { width: 1920, height: 1080 },
                needs_redraw: true,
                text_buffer: None::<B>,
                text_size: None,
                cursor_buffer: None::<B>,
            }),
            state.backends@ == Map::<u64, Backend<N>>::empty(),
            state.output.width == 1920,
            state.output.height == 1080,
            state.needs_redraw,
            state.text_buffer is None,
            state.text_size is None,
            state.cursor_buffer is None,
    {
        Compositor {
            backends: HashMap::new(),
            output: Extent { width: 1920, height: 1080 },
            needs_redraw: true,
            text_buffer: None,
            text_size: None,
            cursor_buffer: None,
        }
    }

    /// Keeps the picture of the text, where one could be made, and tells whether it could.
    pub fn text_made(&mut self, text: Option<(B, (u32, u32))>) -> (kept: bool)
        ensures
            old(self)@.wf() && (text matches Some((_, size)) ==> is_text_size(size))
                ==> final(self)@.wf(),
            kept == (text is Some),
            final(self)@ == (match text {
                Some((buffer, size)) => CompositorView {
                    text_buffer: Some(buffer),
                    text_size: Some(size),
                    ..old(self)@
                },
                None => old(self)@,
            }),
            final(self).text_buffer == (if text is Some {
                Some((text->0).0)
            } else {
                old(self).text_buffer
            }),
            final(self).text_size == (if text is Some {
                Some((text->0).1)
            } else {
                old(self).text_size
            }),
            final(self).backends == old(self).backends,
            final(self).output == old(self).output,
            final(self).needs_redraw == old(self).needs_redraw,
            final(self).cursor_buffer == old(self).cursor_buffer,
    {
        match text {
            Some((buffer, size)) => {
                self.text_size = Some(size);
                self.text_buffer = Some(buffer);
                true
            },
            None => false,
        }
    }

    /// Keeps the picture of the cursor, or the lack of one.
    pub fn cursor_made(&mut self, cursor: Option<B>)
        ensures
            old(self)@.wf() ==> final(self)@.wf(),
            final(self)@ == (CompositorView { cursor_buffer: cursor, ..old(self)@ }),
            final(self).cursor_buffer == cursor,
            final(self).backends == old(self).backends,
            final(self).output == old(self).output,
            final(self).needs_redraw == old(self).needs_redraw,
            final(self).text_buffer == old(self).text_buffer,
            final(self).text_size == old(self).text_size,
    {
        self.cursor_buffer = cursor;
    }

    /// Takes in an input event. One that moves the pointer asks for a redraw.
    pub fn input(&mut self, kind: InputKind)
        ensures
            old(self)@.wf() ==> final(self)@.wf(),
            final(self)@ == after_input(old(self)@, kind),
            kind == InputKind::PointerMotion ==> final(self).needs_redraw,
            kind != InputKind::PointerMotion ==> final(self).needs_redraw == old(self).needs_redraw,
            final(self).backends == old(self).backends,
            final(self).output == old(self).output,
            final(self).text_buffer == old(self).text_buffer,
            final(self).text_size == old(self).text_size,
            final(self).cursor_buffer == old(self).cursor_buffer,
    {
        if let InputKind::PointerMotion = kind {
            self.needs_redraw = true;
        }
    }

    /// Whether a redraw is due. Asking settles it.
    pub fn take_redraw(&mut self) -> (due: bool)
        ensures
            old(self)@.wf() ==> final(self)@.wf(),
            due == old(self)@.needs_redraw,
            final(self)@ == after_redraw_taken(old(self)@),
            due == old(self).needs_redraw,
            !final(self).needs_redraw,
            final(self).backends == old(self).backends,
            final(self).output == old(self).output,
            final(self).text_buffer == old(self).text_buffer,
            final(self).text_size == old(self).text_size,
            final(self).cursor_buffer == old(self).cursor_buffer,
    {
        let due = self.needs_redraw;
        self.needs_redraw = false;
        due
    }

    /// A device that changed is left as it is.
    pub fn device_changed(&mut self, node: u64)
        ensures
            *final(self) == *old(self),
    {
        let _ = node;
    }

    /// Forgets a device and its displays.
    pub fn device_removed(&mut self, node: u64)
        ensures
            old(self)@.wf() ==> final(self)@.wf(),
            final(self)@ == after_device_removed(old(self)@, node),
            final(self).backends@ == old(self).backends@.remove(node),
            final(self).output == old(self).output,
            final(self).needs_redraw == old(self).needs_redraw,
            final(self).text_buffer == old(self).text_buffer,
            final(self).text_size == old(self).text_size,
            final(self).cursor_buffer == old(self).cursor_buffer,
    {
        if let Some(mut backend) = self.backends.remove(&node) {
            backend.surfaces.clear();
        }
        proof {
            assert(self@.backends == old(self)@.backends.remove(node));
            assert forall|n: u64, crtc: u32|
                old(self)@.wf() && #[trigger] drives(self@.backends, n, crtc) implies crate::connectors::proper(
                self@.backends[n].surfaces[crtc],
            ) by {
                assert(drives(old(self)@.backends, n, crtc));
            }
        }
    }
}

impl<N: Copy, B> Compositor<N, B> {
    /// Brings in device `node`, which came up with the node that renders for it and with a walk
    /// over its connectors, and says what to paint. A device that failed to come up changes
    /// nothing, and its error is handed on.
    pub fn device_added<E>(
        &mut self,
        node: u64,
        came_up: Result<(N, ConnectorScan), E>,
        pointer: Place,
    ) -> (frames: Result<Vec<Frame<N>>, E>)
        requires
            old(self)@.wf(),
            came_up matches Ok((_, scan)) ==> scan@.wf() && scan@.finished(),
        ensures
            final(self)@.wf(),
            match came_up {
                Ok((render_node, scan)) => {
                    &&& final(self)@ == after_device_added(old(self)@, node, render_node, scan@)
                    &&& frames is Ok
                    &&& final(self)@.painted_by(frames->Ok_0@, pointer)
                },
                Err(error) => final(self)@ == old(self)@ && frames == Err::<Vec<Frame<N>>, E>(error),
            },
            came_up matches Ok((render_node, scan)) ==> {
                &&& final(self).backends@.contains_key(node)
                &&& final(self).backends@[node].render_node == render_node
                &&& final(self).backends@[node].surfaces@ == scan@.surfaces
                &&& final(self).backends@.remove(node) == old(self).backends@.remove(node)
                &&& final(self).output == (if scan@.bounds is Some {
                    scan@.bounds->0
                } else {
                    old(self).output
                })
            },
            came_up is Err ==> final(self).backends == old(self).backends && final(self).output
                == old(self).output,
            final(self).needs_redraw == old(self).needs_redraw,
            final(self).text_buffer == old(self).text_buffer,
            final(self).text_size == old(self).text_size,
            final(self).cursor_buffer == old(self).cursor_buffer,
    {
        match came_up {
            Ok((render_node, scan)) => {
                proof {
                    lemma_scan_parts(&scan);
                }
                let ghost walked = scan@;
                if let Some(extent) = scan.bounds {
                    self.output = extent;
                }
                self.backends.insert(node, Backend { render_node, surfaces: scan.surfaces });
                proof {
                    assert(self@.backends == old(self)@.backends.insert(
                        node,
                        BackendView { render_node, surfaces: walked.surfaces },
                    ));
                    assert forall|n: u64, crtc: u32| #[trigger]
                        drives(self@.backends, n, crtc) implies crate::connectors::proper(
                        self@.backends[n].surfaces[crtc],
                    ) by {
                        if n == node {
                            assert(walked.surfaces.contains_key(crtc));
                        } else {
                            assert(drives(old(self)@.backends, n, crtc));
                        }
                    }
                }
                Ok(self.redraw(pointer))
            },
            Err(error) => Err(error),
        }
    }
}

/// A frame is for a display that is there, is painted by the renderer of its device, and shows what
/// belongs on that very display: the text, where there is one, in the middle of its width and a
/// quarter of its height down, then the cursor, where there is one, around the pointer, and nothing
/// else.
pub proof fn law_frame_belongs_to_its_display<N, B>(
    state: Compositor<N, B>,
    frames: Seq<Frame<N>>,
    pointer: Place,
    i: int,
)
    requires
        state@.painted_by(frames, pointer),
        0 <= i < frames.len(),
    ensures
        ({
            let frame = frames[i];
            let backend = state.backends@[frame.device];
            let display = backend.surfaces@[frame.crtc];
            let shown = frame.elements@;
            let text = state.text_buffer is Some && state.text_size is Some;
            let cursor = state.cursor_buffer is Some;
            &&& state.backends@.contains_key(frame.device)
            &&& backend.surfaces@.contains_key(frame.crtc)
            &&& frame.render_node == backend.render_node
            &&& shown.len() == (if text {
                1int
            } else {
                0
            }) + (if cursor {
                1int
            } else {
                0
            })
            &&& text ==> {
                let room = display.width - (state.text_size->0).0;
                &&& shown[0].picture == crate::layout::Picture::Text
                &&& room >= 0 ==> 0 <= room - 2 * shown[0].x <= 1
                &&& room < 0 ==> -1 <= room - 2 * shown[0].x <= 0
                &&& display.height >= 0 ==> 0 <= display.height - 4 * shown[0].y <= 3
            }
            &&& cursor ==> {
                let last = shown[shown.len() - 1];
                &&& last.picture == crate::layout::Picture::Cursor
                &&& last.x + 17 == pointer.x
                &&& last.y + 17 == pointer.y
            }
        }),
{
    let frame = frames[i];
    assert(state@.shows(frame, pointer));
    assert(state@.backends[frame.device] == state.backends@[frame.device]@);
    crate::layout::law_frame_by_numbers(
        state.backends@[frame.device].surfaces@[frame.crtc],
        state@.shown_text(),
        state.cursor_buffer is Some,
        pointer,
    );
}

/// Every display of every device has a frame, and it has no second one.
pub proof fn law_every_display_has_one_frame<N, B>(
    state: Compositor<N, B>,
    frames: Seq<Frame<N>>,
    pointer: Place,
    node: u64,
    crtc: u32,
)
    requires
        state@.painted_by(frames, pointer),
        state.backends@.contains_key(node),
        state.backends@[node].surfaces@.contains_key(crtc),
    ensures
        exists|i: int|
            0 <= i < frames.len() && (#[trigger] frames[i]).device == node && frames[i].crtc == crtc,
        forall|i: int, j: int|
            0 <= i < frames.len() && 0 <= j < frames.len() && (#[trigger] frames[i]).device == node
                && (#[trigger] frames[j]).device == node && frames[i].crtc == crtc && frames[j].crtc
                == crtc ==> i == j,
{
    assert(state@.backends[node] == state.backends@[node]@);
    assert(state@.drives(node, crtc));
    assert forall|i: int, j: int|
        0 <= i < frames.len() && 0 <= j < frames.len() && (#[trigger] frames[i]).device == node && (
        #[trigger] frames[j]).device == node && frames[i].crtc == crtc && frames[j].crtc
            == crtc implies i == j by {
        if i < j {
            assert(!same_display(frames[i], frames[j]));
        } else if j < i {
            assert(!same_display(frames[j], frames[i]));
        }
    }
}

/// The frames of a device come one after the other.
pub proof fn law_devices_are_painted_in_turn<N, B>(
    state: Compositor<N, B>,
    frames: Seq<Frame<N>>,
    pointer: Place,
    i: int,
    j: int,
    k: int,
)
    requires
        state@.painted_by(frames, pointer),
        0 <= i < j < k < frames.len(),
        frames[i].device == frames[k].device,
    ensures
        frames[j].device == frames[i].device,
{
}

/// A device that was brought in stands among the devices with its render node and with the displays
/// of its walk, in the place of one with the same number; the output that was set up last bounds the
/// pointer, and without one the bounds stay. The pictures and what is due stay as they are.
pub proof fn law_device_comes_with_its_displays<N, B>(
    state: CompositorView<N, B>,
    node: u64,
    render_node: N,
    scan: ScanView,
)
    ensures
        ({
            let after = after_device_added(state, node, render_node, scan);
            &&& after.backends.contains_key(node)
            &&& after.backends[node].render_node == render_node
            &&& after.backends[node].surfaces == scan.surfaces
            &&& scan.bounds is Some ==> after.output == scan.bounds->0
            &&& scan.bounds is None ==> after.output == state.output
            &&& after.needs_redraw == state.needs_redraw
            &&& after.text_buffer == state.text_buffer
            &&& after.text_size == state.text_size
            &&& after.cursor_buffer == state.cursor_buffer
        }),
{
}

/// Losing a device takes away its displays and nothing else: the bounds of the pointer, the pictures
/// and what is due stay.
pub proof fn law_device_goes_with_its_displays<N, B>(state: CompositorView<N, B>, node: u64)
    ensures
        ({
            let after = after_device_removed(state, node);
            &&& !after.backends.contains_key(node)
            &&& after.output == state.output
            &&& after.needs_redraw == state.needs_redraw
            &&& after.text_buffer == state.text_buffer
            &&& after.text_size == state.text_size
            &&& after.cursor_buffer == state.cursor_buffer
        }),
{
}

/// Every state is sound whose bounds and displays have no negative side and whose text, where there
/// is one, has the size of an image with a pixel.
pub proof fn law_sound_states<N, B>(state: Compositor<N, B>)
    requires
        0 <= state.output.width,
        0 <= state.output.height,
        forall|node: u64, crtc: u32|
            #![trigger state.backends@[node].surfaces@[crtc]]
            state.backends@.contains_key(node) && state.backends@[node].surfaces@.contains_key(crtc)
                ==> 0 <= state.backends@[node].surfaces@[crtc].width && 0
                <= state.backends@[node].surfaces@[crtc].height,
        state.text_size matches Some((width, height)) ==> 0 < width && 0 < height && width * height
            * 4 <= u32::MAX,
    ensures
        state@.wf(),
{
    assert forall|node: u64, crtc: u32| #[trigger]
        drives(state@.backends, node, crtc) implies crate::connectors::proper(
        state@.backends[node].surfaces[crtc],
    ) by {
        assert(state@.backends[node].surfaces[crtc] == state.backends@[node].surfaces@[crtc]);
    }
}

/// A device that comes and goes leaves no trace among the devices, unless it took the place of
/// one with the same number.
pub proof fn law_add_then_remove<N, B>(
    state: CompositorView<N, B>,
    node: u64,
    render_node: N,
    scan: ScanView,
)
    ensures
        after_device_removed(after_device_added(state, node, render_node, scan), node).backends
            == state.backends.remove(node),
        !state.backends.contains_key(node) ==> after_device_removed(
            after_device_added(state, node, render_node, scan),
            node,
        ).backends == state.backends,
{
}

/// Bringing in a device, or losing one, changes nothing about the others.
pub proof fn law_other_devices_are_untouched<N, B>(
    state: CompositorView<N, B>,
    node: u64,
    render_node: N,
    scan: ScanView,
    other: u64,
)
    requires
        other != node,
    ensures
        ({
            let added = after_device_added(state, node, render_node, scan).backends;
            let removed = after_device_removed(state, node).backends;
            &&& added.contains_key(other) <==> state.backends.contains_key(other)
            &&& removed.contains_key(other) <==> state.backends.contains_key(other)
            &&& state.backends.contains_key(other) ==> added[other] == state.backends[other]
                && removed[other] == state.backends[other]
        }),
{
}

/// A device that is gone is not painted, and every other display still is, with the same picture.
pub proof fn law_removed_device_is_not_painted<N, B>(
    state: CompositorView<N, B>,
    node: u64,
    frames: Seq<Frame<N>>,
    pointer: Place,
)
    requires
        after_device_removed(state, node).painted_by(frames, pointer),
    ensures
        forall|i: int|
            0 <= i < frames.len() ==> (#[trigger] frames[i]).device != node && state.shows(
                frames[i],
                pointer,
            ),
        forall|other: u64, crtc: u32| #[trigger]
            state.drives(other, crtc) && other != node ==> has_frame(frames, other, crtc),
{
    let after = after_device_removed(state, node);
    assert forall|i: int| 0 <= i < frames.len() implies (#[trigger] frames[i]).device != node
        && state.shows(frames[i], pointer) by {
        assert(after.shows(frames[i], pointer));
    }
    assert forall|other: u64, crtc: u32| #[trigger]
        state.drives(other, crtc) && other != node implies has_frame(frames, other, crtc) by {
        assert(after.drives(other, crtc));
    }
}

/// Every output that the walk over its connectors set up is painted once a device is brought in.
pub proof fn law_added_device_is_painted<N, B>(
    state: CompositorView<N, B>,
    node: u64,
    render_node: N,
    scan: ScanView,
    frames: Seq<Frame<N>>,
    pointer: Place,
    crtc: u32,
)
    requires
        after_device_added(state, node, render_node, scan).painted_by(frames, pointer),
        scan.surfaces.contains_key(crtc),
    ensures
        exists|i: int|
            0 <= i < frames.len() && (#[trigger] frames[i]).device == node && frames[i].crtc == crtc
                && frames[i].render_node == render_node && frames[i].elements@
                == crate::layout::frame_elements(
                scan.surfaces[crtc],
                state.shown_text(),
                state.cursor_buffer is Some,
                pointer,
            ),
{
    let after = after_device_added(state, node, render_node, scan);
    assert(after.drives(node, crtc));
    let i = choose|i: int|
        0 <= i < frames.len() && (#[trigger] frames[i]).device == node && frames[i].crtc == crtc;
    assert(after.shows(frames[i], pointer));
}

/// What bounds the pointer once a device was brought in is the size of one of its displays, or
/// what bounded it before where the device drives none.
pub proof fn law_bounds_are_those_of_a_display<N, B>(
    state: CompositorView<N, B>,
    node: u64,
    render_node: N,
    scan: ScanView,
)
    requires
        scan.wf(),
    ensures
        ({
            let after = after_device_added(state, node, render_node, scan);
            ||| exists|crtc: u32| #[trigger]
                after.drives(node, crtc) && after.backends[node].surfaces[crtc] == after.output
            ||| (forall|crtc: u32| !(#[trigger] after.drives(node, crtc))) && after.output
                == state.output
        }),
{
    let after = after_device_added(state, node, render_node, scan);
    match scan.bounds {
        Some(extent) => {
            let crtc = choose|crtc: u32| #[trigger]
                scan.surfaces.contains_key(crtc) && scan.surfaces[crtc] == extent;
            assert(after.drives(node, crtc));
        },
        None => {
            assert forall|crtc: u32| !(#[trigger] after.drives(node, crtc)) by {
                assert(!scan.surfaces.dom().contains(crtc));
            }
        },
    }
}

/// Once a redraw was taken, the next is due exactly where the pointer moved since, and no other
/// input changes anything.
pub proof fn law_redraw_follows_motion<N, B>(
    state: CompositorView<N, B>,
    kinds: Seq<InputKind>,
)
    ensures
        after_inputs(after_redraw_taken(state), kinds) == (CompositorView {
            needs_redraw: kinds.contains(InputKind::PointerMotion),
            ..state
        }),
    decreases kinds.len(),
{
    if kinds.len() > 0 {
        let earlier = kinds.drop_last();
        law_redraw_follows_motion(state, earlier);
        if earlier.contains(InputKind::PointerMotion) {
            let i = choose|i: int| 0 <= i < earlier.len() && earlier[i] == InputKind::PointerMotion;
            assert(kinds[i] == InputKind::PointerMotion);
        }
        if kinds.contains(InputKind::PointerMotion) {
            let i = choose|i: int| 0 <= i < kinds.len() && kinds[i] == InputKind::PointerMotion;
            assert(i == kinds.len() - 1 || earlier[i] == InputKind::PointerMotion);
        }
        if kinds.last() == InputKind::PointerMotion {
            assert(kinds[kinds.len() - 1] == InputKind::PointerMotion);
        }
    }
}

/// A compositor without devices paints nothing.
pub proof fn law_nothing_to_paint<N, B>(
    state: CompositorView<N, B>,
    frames: Seq<Frame<N>>,
    pointer: Place,
)
    requires
        state.backends == Map::<u64, BackendView<N>>::empty(),
        state.painted_by(frames, pointer),
    ensures
        frames.len() == 0,
{
    if frames.len() > 0 {
        assert(state.shows(frames[0], pointer));
    }
}

/// The width of a text image is far below the limit of `i32`.
proof fn lemma_text_width(width: int, height: int)
    requires
        0 <= width,
        0 < height,
        width * height * 4 <= u32::MAX,
    ensures
        width * 4 <= u32::MAX,
{
    assert(width <= width * height) by (nonlinear_arith)
        requires
            0 <= width,
            1 <= height,
    ;
}

/// The frames of one more device join those of the devices before it.
proof fn lemma_frames_extend<N, B>(
    state: CompositorView<N, B>,
    nodes: Seq<u64>,
    n: int,
    before: Seq<Frame<N>>,
    added: Seq<Frame<N>>,
    pointer: Place,
)
    requires
        0 <= n < nodes.len(),
        nodes.no_duplicates(),
        forall|i: int|
            0 <= i < before.len() ==> state.shows(#[trigger] before[i], pointer) && nodes.take(
                n,
            ).contains(before[i].device),
        forall|k: int, crtc: u32|
            0 <= k < n && #[trigger] state.drives(nodes[k], crtc) ==> has_frame(
                before,
                nodes[k],
                crtc,
            ),
        forall|i: int, j: int|
            0 <= i < j < before.len() ==> !same_display(#[trigger] before[i], #[trigger] before[j]),
        forall|i: int, j: int, k: int|
            #![trigger before[i], before[j], before[k]]
            0 <= i < j < k < before.len() && before[i].device == before[k].device
                ==> before[j].device == before[i].device,
        forall|i: int|
            0 <= i < added.len() ==> state.shows(#[trigger] added[i], pointer) && added[i].device
                == nodes[n],
        forall|crtc: u32| #[trigger]
            state.drives(nodes[n], crtc) ==> has_frame(added, nodes[n], crtc),
        forall|i: int, j: int|
            0 <= i < j < added.len() ==> !same_display(#[trigger] added[i], #[trigger] added[j]),
    ensures
        ({
            let all = before + added;
            &&& forall|i: int|
                0 <= i < all.len() ==> state.shows(#[trigger] all[i], pointer) && nodes.take(
                    n + 1,
                ).contains(all[i].device)
            &&& forall|k: int, crtc: u32|
                0 <= k < n + 1 && #[trigger] state.drives(nodes[k], crtc) ==> has_frame(
                    all,
                    nodes[k],
                    crtc,
                )
            &&& forall|i: int, j: int|
                0 <= i < j < all.len() ==> !same_display(#[trigger] all[i], #[trigger] all[j])
            &&& forall|i: int, j: int, k: int|
                #![trigger all[i], all[j], all[k]]
                0 <= i < j < k < all.len() && all[i].device == all[k].device ==> all[j].device
                    == all[i].device
        }),
{
    let all = before + added;
    let cut = before.len() as int;
    assert forall|i: int| 0 <= i < cut implies #[trigger] before[i].device != nodes[n] by {
        let place = choose|p: int| 0 <= p < n && nodes.take(n)[p] == before[i].device;
        assert(nodes[place] == before[i].device);
    }
    assert forall|i: int| 0 <= i < all.len() implies state.shows(#[trigger] all[i], pointer)
        && nodes.take(n + 1).contains(all[i].device) by {
        if i < cut {
            assert(all[i] == before[i]);
            let place = choose|p: int| 0 <= p < n && nodes.take(n)[p] == before[i].device;
            assert(nodes.take(n + 1)[place] == before[i].device);
        } else {
            assert(all[i] == added[i - cut]);
            assert(nodes.take(n + 1)[n] == nodes[n]);
        }
    }
    assert forall|k: int, crtc: u32|
        0 <= k < n + 1 && #[trigger] state.drives(nodes[k], crtc) implies has_frame(
        all,
        nodes[k],
        crtc,
    ) by {
        if k < n {
            let i = choose|i: int|
                0 <= i < before.len() && (#[trigger] before[i]).device == nodes[k] && before[i].crtc
                    == crtc;
            assert(all[i] == before[i]);
        } else {
            let i = choose|i: int|
                0 <= i < added.len() && (#[trigger] added[i]).device == nodes[k] && added[i].crtc
                    == crtc;
            assert(all[cut + i] == added[i]);
        }
    }
    assert forall|i: int, j: int| 0 <= i < j < all.len() implies !same_display(
        #[trigger] all[i],
        #[trigger] all[j],
    ) by {
        if j < cut {
            assert(all[i] == before[i] && all[j] == before[j]);
        } else if i < cut {
            assert(all[i] == before[i] && all[j] == added[j - cut]);
        } else {
            assert(all[i] == added[i - cut] && all[j] == added[j - cut]);
        }
    }
    assert forall|i: int, j: int, k: int|
        #![trigger all[i], all[j], all[k]]
        0 <= i < j < k < all.len() && all[i].device == all[k].device implies all[j].device
        == all[i].device by {
        if k < cut {
            assert(all[i] == before[i] && all[j] == before[j] && all[k] == before[k]);
        } else {
            assert(all[k] == added[k - cut]);
            if i < cut {
                assert(all[i] == before[i]);
            } else {
                assert(all[i] == added[i - cut] && all[j] == added[j - cut]);
            }
        }
    }
}

} // verus!
