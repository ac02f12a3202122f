//! Which devices and which nodes the compositor starts with.

use vstd::prelude::*;

verus! {

/// What EGL tells about the node that renders for a device.
#[derive(Debug)]
pub enum EglReport<N> {
    /// No display could be opened on the device.
    NoDisplay,
    /// The display names no device.
    NoDevice,
    /// The display names a device, with its render node where it has one.
    Device(Option<N>),
}

/// Picks the graphics card to start with: the primary one, or else the last of all.
pub fn choose_gpu<P>(primary: Option<P>, all: Option<Vec<P>>) -> (gpu: Option<P>)
    ensures
        gpu == (match (primary, all) {
            (Some(path), _) => Some(path),
            (None, Some(paths)) => if paths@.len() > 0 {
                Some(paths@.last())
            } else {
                None
            },
            (None, None) => None,
        }),
{
    match primary {
        Some(path) => Some(path),
        None => match all {
            Some(mut paths) => paths.pop(),
            None => None,
        },
    }
}

/// Picks the node that renders for device `node`: the one that EGL names, or else the device
/// itself.
pub fn choose_render_node<N>(node: N, egl: EglReport<N>) -> (render: N)
    ensures
        render == (match egl {
            EglReport::Device(Some(named)) => named,
            _ => node,
        }),
{
    match egl {
        EglReport::Device(Some(named)) => named,
        _ => node,
    }
}

/// `places` are the places of the devices in `ids` whose number is not `first`, in order.
pub open spec fn are_later_devices(first: Option<u64>, ids: Seq<u64>, places: Seq<usize>) -> bool {
    &&& forall|k: int|
        0 <= k < places.len() ==> (#[trigger] places[k]) < ids.len() && first != Some(
            ids[places[k] as int],
        )
    &&& forall|j: int, k: int|
        0 <= j < k < places.len() ==> (#[trigger] places[j]) < (#[trigger] places[k])
    &&& forall|i: int|
        0 <= i < ids.len() && first != Some(#[trigger] ids[i]) ==> exists|k: int|
            0 <= k < places.len() && (#[trigger] places[k]) == i
}

/// The devices that are brought in after the one that was brought in first.
pub fn later_devices(first: Option<u64>, ids: &Vec<u64>) -> (places: Vec<usize>)
    ensures
        are_later_devices(first, ids@, places@),
        places@.len() <= ids@.len(),
        forall|k: int| 0 <= k < places@.len() ==> (#[trigger] places@[k]) < ids@.len(),
        forall|i: int|
            0 <= i < ids@.len() ==> (places@.contains(i as usize) <==> first != Some(
                #[trigger] ids@[i],
            )),
{
    let mut places: Vec<usize> = Vec::new();
    let mut i: usize = 0;
    while i < ids.len()
        invariant
            i <= ids@.len(),
            forall|k: int|
                0 <= k < places@.len() ==> (#[trigger] places@[k]) < i && first != Some(
                    ids@[places@[k] as int],
                ),
            forall|j: int, k: int|
                0 <= j < k < places@.len() ==> (#[trigger] places@[j]) < (#[trigger] places@[k]),
            forall|p: int|
                0 <= p < i && first != Some(#[trigger] ids@[p]) ==> exists|k: int|
                    0 <= k < places@.len() && (#[trigger] places@[k]) == p,
        decreases ids@.len() - i,
    {
        let skip = match first {
            Some(id) => id == ids[i],
            None => false,
        };
        let ghost before = places@;
        if !skip {
            places.push(i);
        }
        assert forall|p: int| 0 <= p < i + 1 && first != Some(#[trigger] ids@[p]) implies exists|
            k: int,
        |
            0 <= k < places@.len() && (#[trigger] places@[k]) == p by {
            if p < i {
                let k = choose|k: int| 0 <= k < before.len() && (#[trigger] before[k]) == p;
                assert(places@[k] == p);
            } else {
                assert(places@[places@.len() - 1] == p);
            }
        }
        i = i + 1;
    }
    proof {
        lemma_places_are_few(places@, ids@.len() as int);
        assert forall|i: int| 0 <= i < ids@.len() implies (places@.contains(i as usize) <==> first
            != Some(#[trigger] ids@[i])) by {
            if first != Some(ids@[i]) {
                let k = choose|k: int| 0 <= k < places@.len() && (#[trigger] places@[k]) == i;
                assert(places@[k] == i as usize);
            }
        }
    }
    places
}

/// Places that grow and stay below a limit are no more than the limit.
proof fn lemma_places_are_few(places: Seq<usize>, limit: int)
    requires
        0 <= limit,
        forall|k: int| 0 <= k < places.len() ==> (#[trigger] places[k]) < limit,
        forall|j: int, k: int|
            0 <= j < k < places.len() ==> (#[trigger] places[j]) < (#[trigger] places[k]),
    ensures
        places.len() <= limit,
    decreases places.len(),
{
    if places.len() > 0 {
        let last = places.len() - 1;
        assert(places[last] < limit);
        lemma_places_are_few(places.drop_last(), places[last] as int);
    }
}

/// The devices that come later are all that have another number than the first, each once and in
/// the order in which they are listed; where there is no first one, they are all.
pub proof fn law_later_devices_are_all_the_others(
    first: Option<u64>,
    ids: Seq<u64>,
    places: Seq<usize>,
    i: int,
)
    requires
        are_later_devices(first, ids, places),
        0 <= i < ids.len(),
    ensures
        (exists|k: int| 0 <= k < places.len() && (#[trigger] places[k]) == i) <==> first is None
            || first->0 != ids[i],
        forall|k: int| 0 <= k < places.len() ==> (#[trigger] places[k]) < ids.len(),
        forall|j: int, k: int|
            0 <= j < k < places.len() ==> (#[trigger] places[j]) < (#[trigger] places[k]),
{
    if first is None || first->0 != ids[i] {
        assert(first != Some(ids[i]));
    }
}

/// No device is left out at the start, and the first is brought in once: every device has the
/// number of the first, or its place comes up exactly once later on.
pub proof fn law_every_device_is_started(ids: Seq<u64>, places: Seq<usize>, i: int)
    requires
        0 <= i < ids.len(),
        are_later_devices(Some(ids[0]), ids, places),
    ensures
        ids[i] == ids[0] <==> !(exists|k: int| 0 <= k < places.len() && (#[trigger] places[k]) == i),
        forall|j: int, k: int|
            0 <= j < places.len() && 0 <= k < places.len() && (#[trigger] places[j]) == i && (
            #[trigger] places[k]) == i ==> j == k,
{
}

} // verus!
