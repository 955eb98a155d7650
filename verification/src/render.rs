//! What the render loop runs on, and what each of its cycles does.

use crate::devices::{
    list_virtual_devices, virtual_devices, DeviceDescriptor, DeviceView, VirtualDevice,
    VirtualDeviceView,
};
use crate::plan::device_place;
use crate::profile::{default_channels, effective_sample_rate, NodeKind, Profile};
use crate::sequences::{
    in_order, kept, lemma_last_place, lemma_placed, lemma_stably_sorted, lemma_views_push,
    stably_sorted, views, weak_order,
};
use crate::text::{lemma_text_less_total, lemma_text_less_transitive, str_less, text_less};
use vstd::prelude::*;

verus! {

broadcast use lemma_views_push;

/// A node that the render loop reads from or writes to.
#[derive(Debug, PartialEq, Eq)]
pub struct RenderEndpoint {
    pub node_id: String,
    pub uid: String,
    pub channels: u16,
}

impl Clone for RenderEndpoint {
    fn clone(&self) -> (r: RenderEndpoint)
        ensures
            r == *self,
    {
        RenderEndpoint {
            node_id: self.node_id.clone(),
            uid: self.uid.clone(),
            channels: self.channels,
        }
    }
}

/// What an endpoint is.
pub struct EndpointView {
    pub node_id: Seq<char>,
    pub uid: Seq<char>,
    pub channels: u16,
}

impl View for RenderEndpoint {
    type V = EndpointView;

    open spec fn view(&self) -> EndpointView {
        EndpointView { node_id: self.node_id@, uid: self.uid@, channels: self.channels }
    }
}

/// What the render loop runs on.
#[derive(Debug, Clone, PartialEq, Eq)]
pub struct RenderRuntimeConfig {
    pub sample_rate: u32,
    pub buffer_frames: u32,
    pub vout_sources: Vec<RenderEndpoint>,
    pub vin_sinks: Vec<RenderEndpoint>,
    pub external_inputs: Vec<RenderEndpoint>,
    pub external_outputs: Vec<RenderEndpoint>,
}

// ---------------------------------------------------------------------------
// Endpoints

/// The endpoint of a device.
pub open spec fn endpoint_of(device: DeviceView) -> EndpointView {
    EndpointView { node_id: device.id, uid: device.uid, channels: device.channels }
}

/// Whether an endpoint stands before another, by their ids.
pub open spec fn by_id() -> spec_fn(EndpointView, EndpointView) -> bool {
    |a: EndpointView, b: EndpointView| text_less(a.node_id, b.node_id)
}

/// The endpoints of the devices of a kind, ordered by their ids; those with one id keep
/// the order of the devices.
pub open spec fn endpoints_of_kind(devices: Seq<DeviceView>, kind: NodeKind) -> Seq<EndpointView> {
    stably_sorted(unsorted_endpoints(devices, kind, devices.len() as int), by_id())
}

/// The endpoints of the first devices of a kind, in the order of the devices.
pub open spec fn unsorted_endpoints(devices: Seq<DeviceView>, kind: NodeKind, n: int) -> Seq<
    EndpointView,
> {
    kept(|i: int| devices[i].kind == kind, n).map_values(|i: int| endpoint_of(devices[i]))
}

proof fn lemma_by_id_orders()
    ensures
        weak_order(by_id()),
{
    let before = by_id();
    assert forall|x: EndpointView, y: EndpointView| #[trigger] before(x, y) implies !before(
        y,
        x,
    ) by {
        lemma_text_less_total(x.node_id, y.node_id);
    }
    assert forall|x: EndpointView, y: EndpointView, z: EndpointView|
        #[trigger] before(x, y) && !#[trigger] before(z, y) implies before(x, z) by {
        lemma_text_less_total(y.node_id, z.node_id);
        if y.node_id != z.node_id {
            lemma_text_less_transitive(x.node_id, y.node_id, z.node_id);
        }
    }
}

/// The endpoints of a kind stand in the order of their ids, and they are those of the
/// devices of that kind.
pub proof fn law_endpoints_ordered(devices: Seq<DeviceView>, kind: NodeKind)
    ensures
        in_order(endpoints_of_kind(devices, kind), by_id()),
        endpoints_of_kind(devices, kind).to_multiset() == unsorted_endpoints(
            devices,
            kind,
            devices.len() as int,
        ).to_multiset(),
{
    lemma_by_id_orders();
    lemma_stably_sorted(unsorted_endpoints(devices, kind, devices.len() as int), by_id());
}

fn list_endpoints(devices: &Vec<DeviceDescriptor>, kind: NodeKind) -> (r: Vec<RenderEndpoint>)
    ensures
        views(r@) == endpoints_of_kind(views(devices@), kind),
{
    let ghost all = views(devices@);
    let ghost keep = |i: int| all[i].kind == kind;
    let ghost at = |i: int| endpoint_of(all[i]);
    let mut list: Vec<RenderEndpoint> = Vec::new();
    proof {
        lemma_by_id_orders();
        assert(kept(keep, 0).map_values(at) =~= Seq::<EndpointView>::empty());
        assert(views(list@) =~= stably_sorted(kept(keep, 0).map_values(at), by_id()));
    }
    let mut i: usize = 0;
    while i < devices.len()
        invariant
            i <= devices.len(),
            all == views(devices@),
            keep == |i: int| all[i].kind == kind,
            at == |i: int| endpoint_of(all[i]),
            weak_order(by_id()),
            views(list@) == stably_sorted(kept(keep, i as int).map_values(at), by_id()),
        decreases devices.len() - i,
    {
        let ghost seen = kept(keep, i as int).map_values(at);
        proof {
            assert(all[i as int] == devices@[i as int]@);
            lemma_stably_sorted(seen, by_id());
        }
        if devices[i].kind == kind {
            let device = &devices[i];
            let endpoint = RenderEndpoint {
                node_id: device.id.clone(),
                uid: device.uid.clone(),
                channels: device.channels,
            };
            let mut place: usize = 0;
            while place < list.len() && !str_less(
                endpoint.node_id.as_str(),
                list[place].node_id.as_str(),
            )
                invariant
                    place <= list.len(),
                    forall|k: int|
                        0 <= k < place ==> !by_id()(endpoint@, #[trigger] views(list@)[k]),
                decreases list.len() - place,
            {
                place = place + 1;
            }
            let ghost sorted = views(list@);
            let ghost x = endpoint@;
            proof {
                lemma_placed(sorted, x, by_id(), place as int);
                let grown = kept(keep, i + 1).map_values(at);
                assert(grown =~= seen.push(x));
                assert(grown.drop_last() =~= seen);
            }
            list.insert(place, endpoint);
            assert(views(list@) =~= sorted.insert(place as int, x));
        }
        i = i + 1;
    }
    list
}

/// What the render loop has to run on for a profile and its devices; nothing without a
/// profile.
pub fn render_runtime_config_from_state(
    profile: Option<&Profile>,
    devices: &Vec<DeviceDescriptor>,
) -> (r: Option<RenderRuntimeConfig>)
    ensures
        match (r, profile) {
            (Some(c), Some(p)) => {
                &&& c.sample_rate == effective_sample_rate(*p)
                &&& c.buffer_frames == p.audio.buffer_frames
                &&& views(c.vout_sources@) == endpoints_of_kind(
                    views(devices@),
                    NodeKind::VirtualOutput,
                )
                &&& views(c.vin_sinks@) == endpoints_of_kind(
                    views(devices@),
                    NodeKind::VirtualInput,
                )
                &&& views(c.external_inputs@) == endpoints_of_kind(
                    views(devices@),
                    NodeKind::ExternalInput,
                )
                &&& views(c.external_outputs@) == endpoints_of_kind(
                    views(devices@),
                    NodeKind::ExternalOutput,
                )
            },
            (None, None) => true,
            _ => false,
        },
{
    match profile {
        None => None,
        Some(p) => Some(
            RenderRuntimeConfig {
                sample_rate: p.effective_sample_rate(),
                buffer_frames: p.audio.buffer_frames,
                vout_sources: list_endpoints(devices, NodeKind::VirtualOutput),
                vin_sinks: list_endpoints(devices, NodeKind::VirtualInput),
                external_inputs: list_endpoints(devices, NodeKind::ExternalInput),
                external_outputs: list_endpoints(devices, NodeKind::ExternalOutput),
            },
        ),
    }
}

// ---------------------------------------------------------------------------
// When the loop has to start anew

/// What of a virtual device the render loop depends on.
pub struct Signature {
    pub uid: Seq<char>,
    pub channels: u16,
    pub kind: NodeKind,
}

/// What the render loop depends on, by ids; of several devices with one id the last.
pub open spec fn signatures_of(devices: Seq<VirtualDeviceView>) -> Map<Seq<char>, Signature> {
    Map::new(
        |id: Seq<char>| device_place(devices, id, devices.len() as int) is Some,
        |id: Seq<char>|
            {
                let d = devices[device_place(devices, id, devices.len() as int)->0];
                Signature { uid: d.uid, channels: d.channels, kind: d.kind }
            },
    )
}

/// What the render loop depends on in a profile.
pub open spec fn runtime_signature(p: Profile) -> Map<Seq<char>, Signature> {
    signatures_of(virtual_devices(p, default_channels(p)))
}

/// Whether the loop has to start anew when one profile follows another.
pub open spec fn restart_required(previous: Profile, next: Profile) -> bool {
    ||| previous.audio.sample_rate.value() != next.audio.sample_rate.value()
    ||| previous.audio.buffer_frames != next.audio.buffer_frames
    ||| runtime_signature(previous) != runtime_signature(next)
}

/// The last device of the list with the id.
fn find_device(devices: &Vec<VirtualDevice>, id: &String) -> (r: Option<usize>)
    ensures
        match r {
            Some(k) => k < devices.len() && device_place(
                views(devices@),
                id@,
                devices@.len() as int,
            ) == Some(k as int),
            None => device_place(views(devices@), id@, devices@.len() as int) is None,
        },
{
    let ghost all = views(devices@);
    let mut n: usize = devices.len();
    while n > 0
        invariant
            n <= devices.len(),
            all == views(devices@),
            device_place(all, id@, devices@.len() as int) == device_place(all, id@, n as int),
        decreases n,
    {
        assert(all[n - 1] == devices@[n - 1]@);
        if devices[n - 1].id == *id {
            return Some(n - 1);
        }
        n = n - 1;
    }
    None
}

/// Whether every device of the first list stands, by its last namesake, in the second with
/// the same signature.
fn signatures_within(a: &Vec<VirtualDevice>, b: &Vec<VirtualDevice>) -> (r: bool)
    ensures
        r == forall|id: Seq<char>| #[trigger]
            signatures_of(views(a@)).dom().contains(id) ==> signatures_of(
                views(b@),
            ).dom().contains(id) && signatures_of(views(a@))[id] == signatures_of(views(b@))[id],
{
    let ghost all = views(a@);
    let ghost other = views(b@);
    let mut i: usize = 0;
    while i < a.len()
        invariant
            i <= a.len(),
            all == views(a@),
            other == views(b@),
            forall|k: int|
                0 <= k < i ==> {
                    let id = (#[trigger] all[k]).id;
                    signatures_of(other).dom().contains(id) && signatures_of(all)[id]
                        == signatures_of(other)[id]
                },
        decreases a.len() - i,
    {
        let id = &a[i].id;
        proof {
            assert(all[i as int] == a@[i as int]@);
            let named = |j: int| all[j].id == id@;
            lemma_last_place(named, all.len() as int);
            assert(named(i as int));
            assert(signatures_of(all).dom().contains(id@));
        }
        match (find_device(a, id), find_device(b, id)) {
            (Some(j), Some(k)) => {
                proof {
                    assert(all[j as int] == a@[j as int]@);
                    assert(other[k as int] == b@[k as int]@);
                }
                if a[j].uid != b[k].uid || a[j].channels != b[k].channels || a[j].kind
                    != b[k].kind {
                    return false;
                }
            },
            _ => {
                return false;
            },
        }
        i = i + 1;
    }
    proof {
        assert forall|id: Seq<char>| #[trigger]
            signatures_of(all).dom().contains(id) implies signatures_of(other).dom().contains(id)
            && signatures_of(all)[id] == signatures_of(other)[id] by {
            lemma_last_place(|j: int| all[j].id == id, all.len() as int);
            let k = device_place(all, id, all.len() as int)->0;
            assert(all[k].id == id);
        }
    }
    true
}

/// Whether the loop has to start anew when one profile follows another.
pub fn render_restart_required(previous: &Profile, next: &Profile) -> (r: bool)
    ensures
        r == restart_required(*previous, *next),
{
    if previous.audio.sample_rate.as_value() != next.audio.sample_rate.as_value() {
        return true;
    }
    if previous.audio.buffer_frames != next.audio.buffer_frames {
        return true;
    }
    let a = list_virtual_devices(previous, previous.default_channels());
    let b = list_virtual_devices(next, next.default_channels());
    let same = signatures_within(&a, &b) && signatures_within(&b, &a);
    proof {
        let x = runtime_signature(*previous);
        let y = runtime_signature(*next);
        if same {
            assert(x =~= y);
        } else if x == y {
            assert(signatures_of(views(a@)) == signatures_of(views(b@)));
        }
    }
    !same
}

/// What is rendered of a device is under its id and uid, with its channels, and exactly the
/// devices of a kind are endpoints of that kind.
pub proof fn law_endpoints_are_the_devices_of_their_kind(
    devices: Seq<DeviceView>,
    kind: NodeKind,
    e: EndpointView,
)
    ensures
        endpoints_of_kind(devices, kind).contains(e) <==> exists|i: int|
            0 <= i < devices.len() && (#[trigger] devices[i]).kind == kind && devices[i].id
                == e.node_id && devices[i].uid == e.uid && devices[i].channels == e.channels,
{
    let n = devices.len() as int;
    let keep = |i: int| devices[i].kind == kind;
    let list = unsorted_endpoints(devices, kind, n);
    let sorted = endpoints_of_kind(devices, kind);
    crate::sequences::lemma_kept(keep, n);
    let places = kept(keep, n);
    law_endpoints_ordered(devices, kind);
    list.to_multiset_ensures();
    sorted.to_multiset_ensures();
    assert(list.contains(e) <==> list.to_multiset().count(e) > 0);
    assert(sorted.contains(e) <==> sorted.to_multiset().count(e) > 0);
    if list.contains(e) {
        let k = list.index_of(e);
        assert(keep(places[k]));
        assert(devices[places[k]].kind == kind);
    }
    if exists|i: int|
        0 <= i < devices.len() && (#[trigger] devices[i]).kind == kind && devices[i].id == e.node_id
            && devices[i].uid == e.uid && devices[i].channels == e.channels {
        let i = choose|i: int|
            0 <= i < devices.len() && (#[trigger] devices[i]).kind == kind && devices[i].id
                == e.node_id && devices[i].uid == e.uid && devices[i].channels == e.channels;
        assert(keep(i));
        assert(places.contains(i));
        assert(list[places.index_of(i)] == e);
    }
}

/// What is rendered of a profile: audio comes from its virtual outputs and external inputs and
/// goes to its virtual inputs and external outputs, at its rate and in its buffers. Without a
/// profile nothing is.
pub proof fn law_rendering_follows_the_profile(
    profile: Option<&Profile>,
    devices: Vec<DeviceDescriptor>,
    r: Option<RenderRuntimeConfig>,
    i: int,
)
    requires
        call_ensures(render_runtime_config_from_state, (profile, &devices), r),
        0 <= i < devices@.len(),
    ensures
        r is Some <==> profile is Some,
        r is Some ==> {
            let c = r->0;
            let device = devices@[i];
            let e = EndpointView {
                node_id: device.id@,
                uid: device.uid@,
                channels: device.channels,
            };
            &&& c.buffer_frames == profile->0.audio.buffer_frames
            &&& c.sample_rate == effective_sample_rate(*profile->0)
            &&& device.kind == NodeKind::VirtualOutput ==> views(c.vout_sources@).contains(e)
            &&& device.kind == NodeKind::VirtualInput ==> views(c.vin_sinks@).contains(e)
            &&& device.kind == NodeKind::ExternalInput ==> views(c.external_inputs@).contains(e)
            &&& device.kind == NodeKind::ExternalOutput ==> views(c.external_outputs@).contains(e)
        },
{
    let all = views(devices@);
    let device = devices@[i];
    let e = EndpointView { node_id: device.id@, uid: device.uid@, channels: device.channels };
    assert(all[i] == device@);
    law_endpoints_are_the_devices_of_their_kind(all, device.kind, e);
}

/// A profile that differs from what runs in its rate, its buffers or a virtual device has to be
/// started anew; one that differs in nothing of that goes on.
pub proof fn law_restart_where_devices_differ(previous: Profile, next: Profile, i: int, k: int)
    ensures
        previous.audio.buffer_frames != next.audio.buffer_frames ==> restart_required(
            previous,
            next,
        ),
        previous.audio.sample_rate != next.audio.sample_rate ==> restart_required(previous, next),
        previous.audio == next.audio && previous.virtual_devices == next.virtual_devices
            ==> !restart_required(previous, next),
        0 <= i < previous.virtual_devices.outputs@.len() && (forall|j: int|
            0 <= j < virtual_devices(next, default_channels(next)).len() ==> (
            #[trigger] virtual_devices(next, default_channels(next))[j]).id
                != previous.virtual_devices.outputs@[i].id@) ==> restart_required(previous, next),
        ({
            let a = virtual_devices(previous, default_channels(previous));
            let b = virtual_devices(next, default_channels(next));
            0 <= i < a.len() && 0 <= k < b.len() && a[i].id == b[k].id && (forall|j: int|
                0 <= j < a.len() && j != i ==> (#[trigger] a[j]).id != a[i].id) && (forall|j: int|
                0 <= j < b.len() && j != k ==> (#[trigger] b[j]).id != b[k].id) && (a[i].uid
                != b[k].uid || a[i].channels != b[k].channels || a[i].kind != b[k].kind)
                ==> restart_required(previous, next)
        }),
{
    let a = virtual_devices(previous, default_channels(previous));
    let b = virtual_devices(next, default_channels(next));
    let x = runtime_signature(previous);
    let y = runtime_signature(next);
    if 0 <= i < previous.virtual_devices.outputs@.len() && (forall|j: int|
        0 <= j < b.len() ==> (#[trigger] b[j]).id != previous.virtual_devices.outputs@[i].id@) {
        let id = previous.virtual_devices.outputs@[i].id@;
        assert(a[i].id == id);
        lemma_place_found(a, id, a.len() as int, i);
        lemma_place_missing(b, id, b.len() as int);
        assert(x.dom().contains(id));
        assert(!y.dom().contains(id));
    }
    if 0 <= i < a.len() && 0 <= k < b.len() && a[i].id == b[k].id && (forall|j: int|
        0 <= j < a.len() && j != i ==> (#[trigger] a[j]).id != a[i].id) && (forall|j: int|
        0 <= j < b.len() && j != k ==> (#[trigger] b[j]).id != b[k].id) && (a[i].uid != b[k].uid
        || a[i].channels != b[k].channels || a[i].kind != b[k].kind) {
        let id = a[i].id;
        crate::plan::lemma_only_place(a, id, i, a.len() as int);
        crate::plan::lemma_only_place(b, id, k, b.len() as int);
        assert(x.dom().contains(id) && y.dom().contains(id));
        assert(x[id] != y[id]);
    }
}

proof fn lemma_place_found(devices: Seq<VirtualDeviceView>, id: Seq<char>, n: int, i: int)
    requires
        0 <= i < n <= devices.len(),
        devices[i].id == id,
    ensures
        device_place(devices, id, n) is Some,
    decreases n,
{
    if i < n - 1 {
        lemma_place_found(devices, id, n - 1, i);
    }
}

proof fn lemma_place_missing(devices: Seq<VirtualDeviceView>, id: Seq<char>, n: int)
    requires
        n <= devices.len(),
        forall|j: int| 0 <= j < n ==> (#[trigger] devices[j]).id != id,
    ensures
        device_place(devices, id, n) is None,
    decreases n,
{
    if n > 0 {
        lemma_place_missing(devices, id, n - 1);
    }
}

} // verus!
