//! The devices of a profile.

use crate::profile::{
    channels_or, default_channels, NodeKind, Profile, VirtualInputDevice, VirtualOutputDevice,
};
use crate::sequences::{kept, lemma_kept, lemma_views_push, views};
use crate::string_map::StringMap;
use crate::text::{decimal, decimal_text};
use vstd::prelude::*;
use vstd::string::*;

verus! {

/// A virtual device with its settings filled in.
#[derive(Debug, PartialEq, Eq)]
pub struct VirtualDevice {
    pub id: String,
    pub name: String,
    pub uid: String,
    pub kind: NodeKind,
    pub channels: u16,
    pub hidden: bool,
}

/// What a virtual device is.
pub struct VirtualDeviceView {
    pub id: Seq<char>,
    pub name: Seq<char>,
    pub uid: Seq<char>,
    pub kind: NodeKind,
    pub channels: u16,
    pub hidden: bool,
}

impl View for VirtualDevice {
    type V = VirtualDeviceView;

    open spec fn view(&self) -> VirtualDeviceView {
        VirtualDeviceView {
            id: self.id@,
            name: self.name@,
            uid: self.uid@,
            kind: self.kind,
            channels: self.channels,
            hidden: self.hidden,
        }
    }
}

/// The uid of a virtual output: the declared one, or one made from its id.
pub open spec fn vout_uid(device: VirtualOutputDevice) -> Seq<char> {
    match device.uid {
        Some(uid) => uid@,
        None => "com.mars.vout."@ + device.id@,
    }
}

/// The uid of a virtual input: the declared one, or one made from its id.
pub open spec fn vin_uid(device: VirtualInputDevice) -> Seq<char> {
    match device.uid {
        Some(uid) => uid@,
        None => "com.mars.vin."@ + device.id@,
    }
}

/// A virtual output with its settings filled in.
pub open spec fn vout_view(device: VirtualOutputDevice, default: u16) -> VirtualDeviceView {
    VirtualDeviceView {
        id: device.id@,
        name: device.name@,
        uid: vout_uid(device),
        kind: NodeKind::VirtualOutput,
        channels: channels_or(device.channels, default),
        hidden: device.hidden,
    }
}

/// A virtual input with its settings filled in.
pub open spec fn vin_view(device: VirtualInputDevice, default: u16) -> VirtualDeviceView {
    VirtualDeviceView {
        id: device.id@,
        name: device.name@,
        uid: vin_uid(device),
        kind: NodeKind::VirtualInput,
        channels: channels_or(device.channels, default),
        hidden: false,
    }
}

/// The virtual devices of a profile: its outputs, then its inputs.
pub open spec fn virtual_devices(p: Profile, default: u16) -> Seq<VirtualDeviceView> {
    Seq::new(
        p.virtual_devices.outputs@.len(),
        |i: int| vout_view(p.virtual_devices.outputs@[i], default),
    ) + Seq::new(
        p.virtual_devices.inputs@.len(),
        |i: int| vin_view(p.virtual_devices.inputs@[i], default),
    )
}

broadcast use lemma_views_push;

fn uid_of_vout(device: &VirtualOutputDevice) -> (r: String)
    ensures
        r@ == vout_uid(*device),
{
    match &device.uid {
        Some(uid) => uid.clone(),
        None => {
            let mut uid = String::from_str("com.mars.vout.");
            uid.append(device.id.as_str());
            uid
        },
    }
}

fn uid_of_vin(device: &VirtualInputDevice) -> (r: String)
    ensures
        r@ == vin_uid(*device),
{
    match &device.uid {
        Some(uid) => uid.clone(),
        None => {
            let mut uid = String::from_str("com.mars.vin.");
            uid.append(device.id.as_str());
            uid
        },
    }
}

/// Lists the virtual devices of a profile.
pub fn list_virtual_devices(p: &Profile, default: u16) -> (r: Vec<VirtualDevice>)
    ensures
        views(r@) == virtual_devices(*p, default),
{
    let mut list: Vec<VirtualDevice> = Vec::new();
    let mut i: usize = 0;
    while i < p.virtual_devices.outputs.len()
        invariant
            i <= p.virtual_devices.outputs.len(),
            views(list@) =~= Seq::new(
                i as nat,
                |k: int| vout_view(p.virtual_devices.outputs@[k], default),
            ),
        decreases p.virtual_devices.outputs.len() - i,
    {
        let output = &p.virtual_devices.outputs[i];
        list.push(
            VirtualDevice {
                id: output.id.clone(),
                name: output.name.clone(),
                uid: uid_of_vout(output),
                kind: NodeKind::VirtualOutput,
                channels: output.channels.unwrap_or(default),
                hidden: output.hidden,
            },
        );
        i = i + 1;
    }
    let ghost done = views(list@);
    i = 0;
    while i < p.virtual_devices.inputs.len()
        invariant
            i <= p.virtual_devices.inputs.len(),
            views(list@) =~= done + Seq::new(
                i as nat,
                |k: int| vin_view(p.virtual_devices.inputs@[k], default),
            ),
        decreases p.virtual_devices.inputs.len() - i,
    {
        let input = &p.virtual_devices.inputs[i];
        list.push(
            VirtualDevice {
                id: input.id.clone(),
                name: input.name.clone(),
                uid: uid_of_vin(input),
                kind: NodeKind::VirtualInput,
                channels: input.channels.unwrap_or(default),
                hidden: false,
            },
        );
        i = i + 1;
    }
    list
}

// ---------------------------------------------------------------------------
// Devices known to the daemon

/// A device that the daemon has to do with.
#[derive(Debug, PartialEq, Eq)]
pub struct DeviceDescriptor {
    pub id: String,
    pub name: String,
    pub uid: String,
    pub kind: NodeKind,
    pub channels: u16,
    pub managed: bool,
}

impl Clone for DeviceDescriptor {
    fn clone(&self) -> (r: DeviceDescriptor)
        ensures
            r == *self,
    {
        DeviceDescriptor {
            id: self.id.clone(),
            name: self.name.clone(),
            uid: self.uid.clone(),
            kind: self.kind,
            channels: self.channels,
            managed: self.managed,
        }
    }
}

/// What a device is.
pub struct DeviceView {
    pub id: Seq<char>,
    pub name: Seq<char>,
    pub uid: Seq<char>,
    pub kind: NodeKind,
    pub channels: u16,
    pub managed: bool,
}

impl View for DeviceDescriptor {
    type V = DeviceView;

    open spec fn view(&self) -> DeviceView {
        DeviceView {
            id: self.id@,
            name: self.name@,
            uid: self.uid@,
            kind: self.kind,
            channels: self.channels,
            managed: self.managed,
        }
    }
}

/// An external device that a declaration was matched with.
#[derive(Debug, Clone, PartialEq, Eq)]
pub struct ResolvedExternalDevice {
    pub logical_id: String,
    pub matched_uid: String,
    pub name: String,
    pub kind: NodeKind,
    pub channels: u16,
}

/// The uid of the aggregate device that carries the audio of a tap, in the daemon with
/// the given process id.
pub open spec fn tap_uid(pid: u32, id: Seq<char>) -> Seq<char> {
    "mars.capture.aggregate."@ + decimal(pid as nat) + "."@ + id
}

/// The uid of the aggregate device that carries the audio of a tap, in the daemon with
/// the given process id.
pub fn capture_aggregate_uid(pid: u32, tap_id: &str) -> (r: String)
    ensures
        r@ == tap_uid(pid, tap_id@),
{
    let mut uid = String::from_str("mars.capture.aggregate.");
    uid.append(decimal_text(pid as u64).as_str());
    uid.append(".");
    uid.append(tap_id);
    uid
}

/// The device of a tap: audio that comes in from outside.
pub open spec fn tap_view(
    pid: u32,
    id: Seq<char>,
    channels: Option<u16>,
    default: u16,
) -> DeviceView {
    DeviceView {
        id,
        name: id,
        uid: tap_uid(pid, id),
        kind: NodeKind::ExternalInput,
        channels: channels_or(channels, default),
        managed: false,
    }
}

/// All devices that a profile names, before ids that occur again are dropped: virtual
/// devices, matched external devices, process taps and system taps.
pub open spec fn named_devices(
    p: Profile,
    resolved: Seq<ResolvedExternalDevice>,
    pid: u32,
) -> Seq<DeviceView> {
    let default = default_channels(p);
    let virtuals = virtual_devices(p, default);
    Seq::new(
        virtuals.len(),
        |i: int|
            DeviceView {
                id: virtuals[i].id,
                name: virtuals[i].name,
                uid: virtuals[i].uid,
                kind: virtuals[i].kind,
                channels: virtuals[i].channels,
                managed: true,
            },
    ) + Seq::new(
        resolved.len(),
        |i: int|
            DeviceView {
                id: resolved[i].logical_id@,
                name: resolved[i].name@,
                uid: resolved[i].matched_uid@,
                kind: resolved[i].kind,
                channels: resolved[i].channels,
                managed: false,
            },
    ) + Seq::new(
        p.captures.process_taps@.len(),
        |i: int|
            tap_view(
                pid,
                p.captures.process_taps@[i].id@,
                p.captures.process_taps@[i].channels,
                default,
            ),
    ) + Seq::new(
        p.captures.system_taps@.len(),
        |i: int|
            tap_view(
                pid,
                p.captures.system_taps@[i].id@,
                p.captures.system_taps@[i].channels,
                default,
            ),
    )
}

/// Whether the id at a place occurs for the first time there.
pub open spec fn first_occurrence(ids: Seq<Seq<char>>, i: int) -> bool {
    forall|j: int| 0 <= j < i ==> #[trigger] ids[j] != ids[i]
}

/// The ids of a list of devices.
pub open spec fn device_ids(devices: Seq<DeviceView>) -> Seq<Seq<char>> {
    Seq::new(devices.len(), |i: int| devices[i].id)
}

/// The devices whose ids occur for the first time.
pub open spec fn deduped(devices: Seq<DeviceView>) -> Seq<DeviceView> {
    kept(
        |i: int| first_occurrence(device_ids(devices), i),
        devices.len() as int,
    ).map_values(|i: int| devices[i])
}

/// Drops each device whose id stands before.
pub fn dedupe_devices(devices: Vec<DeviceDescriptor>) -> (r: Vec<DeviceDescriptor>)
    ensures
        views(r@) == deduped(views(devices@)),
{
    let ghost all = views(devices@);
    let ghost keep = |i: int| first_occurrence(device_ids(all), i);
    let mut seen: StringMap<()> = StringMap::new();
    let mut out: Vec<DeviceDescriptor> = Vec::new();
    let mut i: usize = 0;
    while i < devices.len()
        invariant
            i <= devices.len(),
            all == views(devices@),
            keep == |i: int| first_occurrence(device_ids(all), i),
            seen.wf(),
            forall|k: Seq<char>| #[trigger]
                seen@.dom().contains(k) <==> exists|j: int|
                    0 <= j < i && (#[trigger] device_ids(all)[j]) == k,
            views(out@) == kept(keep, i as int).map_values(|i: int| all[i]),
        decreases devices.len() - i,
    {
        let ghost before = seen@;
        let id = devices[i].id.clone();
        assert(device_ids(all)[i as int] == id@);
        if !seen.contains_key(id.as_str()) {
            proof {
                assert forall|j: int| 0 <= j < i implies #[trigger] device_ids(all)[j]
                    != device_ids(all)[i as int] by {
                    if device_ids(all)[j] == id@ {
                        assert(before.dom().contains(id@));
                    }
                }
                assert(keep(i as int));
            }
            seen.insert(id, ());
            out.push(devices[i].clone());
        } else {
            proof {
                let j = choose|j: int| 0 <= j < i && (#[trigger] device_ids(all)[j]) == id@;
                assert(!first_occurrence(device_ids(all), i as int));
            }
        }
        proof {
            let all_at = |i: int| all[i];
            assert(kept(keep, i + 1).map_values(all_at) =~= if keep(i as int) {
                kept(keep, i as int).map_values(all_at).push(all[i as int])
            } else {
                kept(keep, i as int).map_values(all_at)
            });
            assert forall|k: Seq<char>| #[trigger] seen@.dom().contains(k) <==> exists|j: int|
                0 <= j < i + 1 && (#[trigger] device_ids(all)[j]) == k by {
                if before.dom().contains(k) {
                    let j = choose|j: int| 0 <= j < i && (#[trigger] device_ids(all)[j]) == k;
                    assert(device_ids(all)[j] == k);
                }
                if device_ids(all)[i as int] == k {
                    assert(seen@.dom().contains(k));
                }
            }
        }
        i = i + 1;
    }
    out
}

/// The devices of a profile and of the external devices that were matched for it, in the
/// daemon with the given process id.
pub fn collect_devices(
    profile: &Profile,
    resolved_external: &Vec<ResolvedExternalDevice>,
    pid: u32,
) -> (r: Vec<DeviceDescriptor>)
    ensures
        views(r@) == deduped(named_devices(*profile, resolved_external@, pid)),
{
    let default = profile.default_channels();
    let virtuals = list_virtual_devices(profile, default);
    let ghost virtual_views = virtual_devices(*profile, default);
    let mut devices: Vec<DeviceDescriptor> = Vec::new();
    let mut i: usize = 0;
    while i < virtuals.len()
        invariant
            i <= virtuals.len(),
            views(virtuals@) == virtual_views,
            views(devices@) =~= Seq::new(
                i as nat,
                |i: int|
                    DeviceView {
                        id: virtual_views[i].id,
                        name: virtual_views[i].name,
                        uid: virtual_views[i].uid,
                        kind: virtual_views[i].kind,
                        channels: virtual_views[i].channels,
                        managed: true,
                    },
            ),
        decreases virtuals.len() - i,
    {
        let device = &virtuals[i];
        assert(virtual_views[i as int] == device@);
        devices.push(
            DeviceDescriptor {
                id: device.id.clone(),
                name: device.name.clone(),
                uid: device.uid.clone(),
                kind: device.kind,
                channels: device.channels,
                managed: true,
            },
        );
        i = i + 1;
    }
    let ghost done = views(devices@);
    i = 0;
    while i < resolved_external.len()
        invariant
            i <= resolved_external.len(),
            views(devices@) =~= done + Seq::new(
                i as nat,
                |i: int|
                    DeviceView {
                        id: resolved_external@[i].logical_id@,
                        name: resolved_external@[i].name@,
                        uid: resolved_external@[i].matched_uid@,
                        kind: resolved_external@[i].kind,
                        channels: resolved_external@[i].channels,
                        managed: false,
                    },
            ),
        decreases resolved_external.len() - i,
    {
        let resolved = &resolved_external[i];
        devices.push(
            DeviceDescriptor {
                id: resolved.logical_id.clone(),
                name: resolved.name.clone(),
                uid: resolved.matched_uid.clone(),
                kind: resolved.kind,
                channels: resolved.channels,
                managed: false,
            },
        );
        i = i + 1;
    }
    let ghost done = views(devices@);
    i = 0;
    while i < profile.captures.process_taps.len()
        invariant
            i <= profile.captures.process_taps.len(),
            views(devices@) =~= done + Seq::new(
                i as nat,
                |i: int|
                    tap_view(
                        pid,
                        profile.captures.process_taps@[i].id@,
                        profile.captures.process_taps@[i].channels,
                        default,
                    ),
            ),
        decreases profile.captures.process_taps.len() - i,
    {
        let tap = &profile.captures.process_taps[i];
        devices.push(
            DeviceDescriptor {
                id: tap.id.clone(),
                name: tap.id.clone(),
                uid: capture_aggregate_uid(pid, tap.id.as_str()),
                kind: NodeKind::ExternalInput,
                channels: tap.channels.unwrap_or(default),
                managed: false,
            },
        );
        i = i + 1;
    }
    let ghost done = views(devices@);
    i = 0;
    while i < profile.captures.system_taps.len()
        invariant
            i <= profile.captures.system_taps.len(),
            views(devices@) =~= done + Seq::new(
                i as nat,
                |i: int|
                    tap_view(
                        pid,
                        profile.captures.system_taps@[i].id@,
                        profile.captures.system_taps@[i].channels,
                        default,
                    ),
            ),
        decreases profile.captures.system_taps.len() - i,
    {
        let tap = &profile.captures.system_taps[i];
        devices.push(
            DeviceDescriptor {
                id: tap.id.clone(),
                name: tap.id.clone(),
                uid: capture_aggregate_uid(pid, tap.id.as_str()),
                kind: NodeKind::ExternalInput,
                channels: tap.channels.unwrap_or(default),
                managed: false,
            },
        );
        i = i + 1;
    }
    assert(views(devices@) =~= named_devices(*profile, resolved_external@, pid));
    dedupe_devices(devices)
}

/// No two collected devices have the same id, and every named id is among them.
pub proof fn law_deduped_ids_distinct(devices: Seq<DeviceView>)
    ensures
        forall|a: int, b: int|
            0 <= a < b < deduped(devices).len() ==> (#[trigger] deduped(devices)[a]).id != (
            #[trigger] deduped(devices)[b]).id,
        forall|i: int|
            0 <= i < devices.len() ==> exists|a: int|
                0 <= a < deduped(devices).len() && deduped(devices)[a].id == (
                #[trigger] devices[i]).id,
{
    let ids = device_ids(devices);
    let keep = |i: int| first_occurrence(ids, i);
    let n = devices.len() as int;
    let places = kept(keep, n);
    lemma_kept(keep, n);
    assert forall|a: int, b: int| 0 <= a < b < deduped(devices).len() implies (
    #[trigger] deduped(devices)[a]).id != (#[trigger] deduped(devices)[b]).id by {
        assert(places[a] < places[b]);
        assert(keep(places[b]));
        assert(ids[places[a]] != ids[places[b]]);
    }
    assert forall|i: int| 0 <= i < devices.len() implies exists|a: int|
        0 <= a < deduped(devices).len() && deduped(devices)[a].id == (#[trigger] devices[i]).id by {
        let first = lemma_first_of(ids, i);
        assert(keep(first));
        assert(places.contains(first));
        let a = places.index_of(first);
        assert(deduped(devices)[a].id == ids[first]);
    }
}

proof fn lemma_first_of(ids: Seq<Seq<char>>, i: int) -> (r: int)
    requires
        0 <= i < ids.len(),
    ensures
        0 <= r <= i,
        ids[r] == ids[i],
        first_occurrence(ids, r),
    decreases i,
{
    if first_occurrence(ids, i) {
        i
    } else {
        let j = choose|j: int| 0 <= j < i && #[trigger] ids[j] == ids[i];
        lemma_first_of(ids, j)
    }
}

/// Every virtual device of a profile is listed with its own name and channels; it has the uid
/// that it names, or one made of its id that tells outputs from inputs.
pub proof fn law_virtual_devices_are_listed(p: Profile, default: u16, i: int)
    ensures
        virtual_devices(p, default).len() == p.virtual_devices.outputs@.len()
            + p.virtual_devices.inputs@.len(),
        0 <= i < p.virtual_devices.outputs@.len() ==> {
            let device = p.virtual_devices.outputs@[i];
            let listed = virtual_devices(p, default)[i];
            &&& listed.id == device.id@
            &&& listed.name == device.name@
            &&& listed.kind == NodeKind::VirtualOutput
            &&& listed.hidden == device.hidden
            &&& device.uid is Some ==> listed.uid == device.uid->0@
            &&& device.uid is None ==> listed.uid == "com.mars.vout."@ + device.id@
            &&& device.channels is Some ==> listed.channels == device.channels->0
            &&& device.channels is None ==> listed.channels == default
        },
        0 <= i < p.virtual_devices.inputs@.len() ==> {
            let device = p.virtual_devices.inputs@[i];
            let listed = virtual_devices(p, default)[p.virtual_devices.outputs@.len() + i];
            &&& listed.id == device.id@
            &&& listed.name == device.name@
            &&& listed.kind == NodeKind::VirtualInput
            &&& !listed.hidden
            &&& device.uid is Some ==> listed.uid == device.uid->0@
            &&& device.uid is None ==> listed.uid == "com.mars.vin."@ + device.id@
            &&& device.channels is Some ==> listed.channels == device.channels->0
            &&& device.channels is None ==> listed.channels == default
        },
{
}

/// The devices of a profile: the virtual ones, which the router manages, then the external ones
/// that were matched, then the taps, which it does not.
pub proof fn law_devices_tell_who_manages_them(
    p: Profile,
    resolved: Seq<ResolvedExternalDevice>,
    pid: u32,
    i: int,
)
    requires
        0 <= i < named_devices(p, resolved, pid).len(),
    ensures
        ({
            let device = named_devices(p, resolved, pid)[i];
            let virtuals = (p.virtual_devices.outputs@.len() + p.virtual_devices.inputs@.len()) as int;
            let externals = virtuals + resolved.len();
            let taps = externals + p.captures.process_taps@.len();
            &&& named_devices(p, resolved, pid).len() == taps + p.captures.system_taps@.len()
            &&& device.managed <==> i < virtuals
            &&& i < virtuals ==> {
                let listed = virtual_devices(p, default_channels(p))[i];
                device.id == listed.id && device.name == listed.name && device.uid == listed.uid
                    && device.kind == listed.kind && device.channels == listed.channels
            }
            &&& virtuals <= i < externals ==> {
                let found = resolved[i - virtuals];
                device.id == found.logical_id@ && device.name == found.name@ && device.uid
                    == found.matched_uid@ && device.kind == found.kind && device.channels
                    == found.channels
            }
            &&& externals <= i < taps ==> device.id == p.captures.process_taps@[i - externals].id@
                && device.kind == NodeKind::ExternalInput
            &&& taps <= i ==> device.id == p.captures.system_taps@[i - taps].id@ && device.kind
                == NodeKind::ExternalInput
            &&& externals <= i ==> device.uid == "mars.capture.aggregate."@ + decimal(pid as nat)
                + "."@ + device.id
        }),
{
}

/// Of devices with one id the first is kept, as it is, and nothing else is.
pub proof fn law_first_of_each_id_is_kept(devices: Seq<DeviceView>, i: int, a: int)
    ensures
        0 <= i < devices.len() && (forall|j: int|
            0 <= j < i ==> (#[trigger] devices[j]).id != devices[i].id) ==> deduped(
            devices,
        ).contains(devices[i]),
        0 <= a < deduped(devices).len() ==> exists|k: int|
            0 <= k < devices.len() && deduped(devices)[a] == #[trigger] devices[k] && (forall|
                j: int,
            |
                0 <= j < k ==> (#[trigger] devices[j]).id != devices[k].id),
{
    let ids = device_ids(devices);
    let keep = |k: int| first_occurrence(device_ids(devices), k);
    let places = kept(keep, devices.len() as int);
    lemma_kept(keep, devices.len() as int);
    if 0 <= i < devices.len() && (forall|j: int|
        0 <= j < i ==> (#[trigger] devices[j]).id != devices[i].id) {
        assert forall|j: int| 0 <= j < i implies #[trigger] ids[j] != ids[i] by {
            assert(devices[j].id != devices[i].id);
        }
        assert(keep(i));
        assert(places.contains(i));
        assert(deduped(devices)[places.index_of(i)] == devices[i]);
    }
    if 0 <= a < deduped(devices).len() {
        let k = places[a];
        assert(keep(k));
        assert(deduped(devices)[a] == devices[k]);
        assert forall|j: int| 0 <= j < k implies (#[trigger] devices[j]).id != devices[k].id by {
            assert(ids[j] != ids[k]);
        }
    }
}

} // verus!
