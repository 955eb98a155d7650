//! What applying a profile changes.

use crate::devices::{list_virtual_devices, virtual_devices, VirtualDeviceView};
use crate::profile::{
    all_same, default_channels, lists_same, Profile, Same, VirtualInputDevice,
    VirtualOutputDevice,
};
use crate::sequences::{kept, last_place, lemma_kept, lemma_last_place, lemma_views_append, lemma_views_push, views};
use crate::string_map::{lemma_arrangement_exists, ordered, StringMap};
use vstd::prelude::*;
use vstd::string::*;

verus! {

broadcast use lemma_views_push;

/// The kinds of change.
#[derive(Debug, Clone, Copy, PartialEq, Eq, Structural)]
pub enum PlanChangeKind {
    CreateDevice,
    UpdateDevice,
    RemoveDevice,
    UpdateAudioConfig,
    UpdateGraph,
    NoOp,
}

/// One change.
#[derive(Debug, PartialEq, Eq)]
pub struct PlanChange {
    pub kind: PlanChangeKind,
    pub target: String,
    pub details: String,
}

impl Clone for PlanChange {
    fn clone(&self) -> (r: PlanChange)
        ensures
            r == *self,
    {
        PlanChange {
            kind: self.kind,
            target: self.target.clone(),
            details: self.details.clone(),
        }
    }
}

/// What a change says.
pub struct ChangeView {
    pub kind: PlanChangeKind,
    pub target: Seq<char>,
    pub details: Seq<char>,
}

impl View for PlanChange {
    type V = ChangeView;

    open spec fn view(&self) -> ChangeView {
        ChangeView { kind: self.kind, target: self.target@, details: self.details@ }
    }
}

/// The changes, and what the user is to be told.
#[derive(Debug, Clone, PartialEq, Eq)]
pub struct ApplyPlan {
    pub changes: Vec<PlanChange>,
    pub warnings: Vec<String>,
}

/// What a plan compares of a virtual device.
#[derive(Debug)]
pub struct VirtualDeviceDiffEntry {
    pub name: String,
    pub uid: String,
    pub channels: u16,
}

/// What a plan compares of a virtual device.
pub struct EntryView {
    pub name: Seq<char>,
    pub uid: Seq<char>,
    pub channels: u16,
}

impl View for VirtualDeviceDiffEntry {
    type V = EntryView;

    open spec fn view(&self) -> EntryView {
        EntryView { name: self.name@, uid: self.uid@, channels: self.channels }
    }
}

/// The place of the last device with an id.
pub open spec fn device_place(devices: Seq<VirtualDeviceView>, id: Seq<char>, n: int) -> Option<
    int,
> {
    last_place(|i: int| devices[i].id == id, n)
}

/// What a plan compares of each virtual device, by ids; of several with one id the last.
pub open spec fn entries_of(devices: Seq<VirtualDeviceView>) -> Map<Seq<char>, EntryView> {
    Map::new(
        |id: Seq<char>| device_place(devices, id, devices.len() as int) is Some,
        |id: Seq<char>|
            {
                let d = devices[device_place(devices, id, devices.len() as int)->0];
                EntryView { name: d.name, uid: d.uid, channels: d.channels }
            },
    )
}

/// What a plan compares of the virtual devices of a profile; nothing without a profile.
pub open spec fn entries(p: Option<Profile>) -> Map<Seq<char>, EntryView> {
    match p {
        Some(p) => entries_of(virtual_devices(p, default_channels(p))),
        None => Map::empty(),
    }
}

/// The map holds these entries.
pub open spec fn holds_entries(
    map: Map<Seq<char>, VirtualDeviceDiffEntry>,
    wanted: Map<Seq<char>, EntryView>,
) -> bool {
    &&& map.dom() == wanted.dom()
    &&& forall|id: Seq<char>| #[trigger] map.dom().contains(id) ==> map[id]@ == wanted[id]
}

proof fn lemma_device_place_push(
    devices: Seq<VirtualDeviceView>,
    n: int,
    id: Seq<char>,
)
    requires
        0 <= n < devices.len(),
    ensures
        device_place(devices.take(n + 1), id, n + 1) == if devices[n].id == id {
            Some(n)
        } else {
            device_place(devices.take(n), id, n)
        },
{
    lemma_device_place_same(devices.take(n + 1), devices.take(n), id, n);
}

proof fn lemma_device_place_same(
    a: Seq<VirtualDeviceView>,
    b: Seq<VirtualDeviceView>,
    id: Seq<char>,
    n: int,
)
    requires
        n <= a.len(),
        n <= b.len(),
        forall|i: int| 0 <= i < n ==> a[i] == b[i],
    ensures
        device_place(a, id, n) == device_place(b, id, n),
    decreases n,
{
    if n > 0 {
        lemma_device_place_same(a, b, id, n - 1);
    }
}

/// The virtual devices of a profile, by ids.
pub fn virtual_device_map(profile: &Profile) -> (r: StringMap<VirtualDeviceDiffEntry>)
    ensures
        r.wf(),
        holds_entries(r@, entries(Some(*profile))),
{
    let devices = list_virtual_devices(profile, profile.default_channels());
    let ghost all = views(devices@);
    let mut map: StringMap<VirtualDeviceDiffEntry> = StringMap::new();
    let mut i: usize = 0;
    assert(map@.dom() =~= entries_of(all.take(0)).dom());
    while i < devices.len()
        invariant
            i <= devices.len(),
            all == views(devices@),
            map.wf(),
            holds_entries(map@, entries_of(all.take(i as int))),
        decreases devices.len() - i,
    {
        let ghost before = map@;
        let device = &devices[i];
        assert(all[i as int] == device@);
        let entry = VirtualDeviceDiffEntry {
            name: device.name.clone(),
            uid: device.uid.clone(),
            channels: device.channels,
        };
        map.insert(device.id.clone(), entry);
        proof {
            let seen = all.take(i as int);
            let grown = all.take(i + 1);
            assert forall|id: Seq<char>| true implies #[trigger] device_place(
                grown,
                id,
                i + 1,
            ) == if device.id@ == id {
                Some(i as int)
            } else {
                device_place(seen, id, i as int)
            } by {
                lemma_device_place_push(all, i as int, id);
            }
            assert(map@.dom() =~= entries_of(grown).dom());
            assert forall|id: Seq<char>| #[trigger] map@.dom().contains(id) implies map@[id]@
                == entries_of(grown)[id] by {
                if id != device.id@ {
                    assert(before.dom().contains(id));
                    lemma_last_place(|j: int| seen[j].id == id, i as int);
                }
            }
        }
        i = i + 1;
    }
    assert(all.take(i as int) =~= all);
    map
}

/// The text of a change to a virtual device.
pub open spec fn change_details(verb: Seq<char>, entry: EntryView) -> Seq<char> {
    verb + entry.name + " ("@ + entry.uid + ")"@
}

/// Whether the device under the id is new or different.
pub open spec fn appears_or_differs(
    before: Map<Seq<char>, EntryView>,
    after: Map<Seq<char>, EntryView>,
    id: Seq<char>,
) -> bool {
    !before.dom().contains(id) || before[id] != after[id]
}

/// The change that makes the device under the id what it is to be.
pub open spec fn appearance(
    before: Map<Seq<char>, EntryView>,
    after: Map<Seq<char>, EntryView>,
    id: Seq<char>,
) -> ChangeView {
    if before.dom().contains(id) {
        ChangeView {
            kind: PlanChangeKind::UpdateDevice,
            target: id,
            details: change_details("update "@, after[id]),
        }
    } else {
        ChangeView {
            kind: PlanChangeKind::CreateDevice,
            target: id,
            details: change_details("create "@, after[id]),
        }
    }
}

/// Creations and updates, in the order of ids.
pub open spec fn appearances(
    before: Map<Seq<char>, EntryView>,
    after: Map<Seq<char>, EntryView>,
) -> Seq<ChangeView> {
    let ids = ordered(after.dom());
    kept(|i: int| appears_or_differs(before, after, ids[i]), ids.len() as int).map_values(
        |i: int| appearance(before, after, ids[i]),
    )
}

/// The change that removes the device under the id.
pub open spec fn removal(before: Map<Seq<char>, EntryView>, id: Seq<char>) -> ChangeView {
    ChangeView {
        kind: PlanChangeKind::RemoveDevice,
        target: id,
        details: change_details("remove "@, before[id]),
    }
}

/// Removals, in the order of ids.
pub open spec fn removals(
    before: Map<Seq<char>, EntryView>,
    after: Map<Seq<char>, EntryView>,
) -> Seq<ChangeView> {
    let ids = ordered(before.dom());
    kept(|i: int| !after.dom().contains(ids[i]), ids.len() as int).map_values(
        |i: int| removal(before, ids[i]),
    )
}

/// One change where the condition holds, else none.
pub open spec fn change_if(
    condition: bool,
    kind: PlanChangeKind,
    target: Seq<char>,
    details: Seq<char>,
) -> Seq<ChangeView> {
    if condition {
        seq![ChangeView { kind, target, details }]
    } else {
        Seq::empty()
    }
}

/// The changes outside the virtual devices: one for each section that differs, or one
/// where there was or will be no profile.
pub open spec fn section_changes(previous: Option<Profile>, next: Option<Profile>) -> Seq<
    ChangeView,
> {
    match (previous, next) {
        (Some(a), Some(b)) => change_if(
            !a.audio.same(b.audio),
            PlanChangeKind::UpdateAudioConfig,
            "audio"@,
            "update sample rate/channels/buffer"@,
        ) + change_if(
            !all_same(a.pipes@, b.pipes@) || !all_same(a.buses@, b.buses@),
            PlanChangeKind::UpdateGraph,
            "graph"@,
            "update routing graph"@,
        ) + change_if(
            !all_same(a.routes@, b.routes@),
            PlanChangeKind::UpdateGraph,
            "routes"@,
            "update routes"@,
        ) + change_if(
            !all_same(a.processors@, b.processors@) || !all_same(
                a.processor_chains@,
                b.processor_chains@,
            ),
            PlanChangeKind::UpdateGraph,
            "processor_chains"@,
            "update processor chains"@,
        ) + change_if(
            !a.captures.same(b.captures),
            PlanChangeKind::UpdateGraph,
            "captures"@,
            "update captures"@,
        ) + change_if(
            !a.sinks.same(b.sinks),
            PlanChangeKind::UpdateGraph,
            "sinks"@,
            "update sinks"@,
        ),
        (None, Some(_)) => change_if(
            true,
            PlanChangeKind::UpdateGraph,
            "graph"@,
            "initialize routing graph"@,
        ),
        (Some(_), None) => change_if(
            true,
            PlanChangeKind::UpdateGraph,
            "graph"@,
            "clear routing graph"@,
        ),
        (None, None) => Seq::empty(),
    }
}

/// All changes from one profile to another.
pub open spec fn profile_changes(previous: Option<Profile>, next: Option<Profile>) -> Seq<
    ChangeView,
> {
    appearances(entries(previous), entries(next)) + removals(entries(previous), entries(next))
        + section_changes(previous, next)
}

/// The profile behind an optional reference.
pub open spec fn deref_profile(p: Option<&Profile>) -> Option<Profile> {
    match p {
        Some(p) => Some(*p),
        None => None,
    }
}

fn describe(verb: &str, entry: &VirtualDeviceDiffEntry) -> (r: String)
    ensures
        r@ == change_details(verb@, entry@),
{
    let mut text = String::from_str(verb);
    text.append(entry.name.as_str());
    text.append(" (");
    text.append(entry.uid.as_str());
    text.append(")");
    text
}

fn push_if(
    changes: &mut Vec<PlanChange>,
    condition: bool,
    kind: PlanChangeKind,
    target: &str,
    details: &str,
)
    ensures
        views(final(changes)@) == views(old(changes)@) + change_if(
            condition,
            kind,
            target@,
            details@,
        ),
{
    let ghost before = views(changes@);
    if condition {
        changes.push(
            PlanChange { kind, target: String::from_str(target), details: String::from_str(details) },
        );
    }
    assert(views(changes@) =~= before + change_if(condition, kind, target@, details@));
}

fn map_or_empty(p: Option<&Profile>) -> (r: StringMap<VirtualDeviceDiffEntry>)
    ensures
        r.wf(),
        holds_entries(r@, entries(deref_profile(p))),
{
    match p {
        Some(p) => virtual_device_map(p),
        None => {
            let r: StringMap<VirtualDeviceDiffEntry> = StringMap::new();
            assert(r@.dom() =~= entries(None).dom());
            r
        },
    }
}

fn device_changes(
    before: &StringMap<VirtualDeviceDiffEntry>,
    after: &StringMap<VirtualDeviceDiffEntry>,
    Ghost(before_view): Ghost<Map<Seq<char>, EntryView>>,
    Ghost(after_view): Ghost<Map<Seq<char>, EntryView>>,
) -> (r: Vec<PlanChange>)
    requires
        before.wf(),
        after.wf(),
        holds_entries(before@, before_view),
        holds_entries(after@, after_view),
    ensures
        views(r@) == appearances(before_view, after_view) + removals(before_view, after_view),
{
    let mut changes: Vec<PlanChange> = Vec::new();
    let ghost ids = after.keys();
    let ghost keep = |i: int| appears_or_differs(before_view, after_view, ids[i]);
    let ghost change = |i: int| appearance(before_view, after_view, ids[i]);
    proof {
        after.lemma_keys_ordered();
        before.lemma_keys_ordered();
    }
    let mut i: usize = 0;
    while i < after.len()
        invariant
            i <= after.keys().len(),
            before.wf(),
            after.wf(),
            holds_entries(before@, before_view),
            holds_entries(after@, after_view),
            ids == after.keys(),
            keep == |i: int| appears_or_differs(before_view, after_view, ids[i]),
            change == |i: int| appearance(before_view, after_view, ids[i]),
            views(changes@) == kept(keep, i as int).map_values(change),
        decreases after.keys().len() - i,
    {
        let id = after.key_at(i);
        let entry = after.value_at(i);
        proof {
            after.lemma_entry(i as int);
            assert(after_view[id@] == entry@);
        }
        match before.get(id.as_str()) {
            None => {
                changes.push(
                    PlanChange {
                        kind: PlanChangeKind::CreateDevice,
                        target: id.clone(),
                        details: describe("create ", entry),
                    },
                );
            },
            Some(previous) => {
                if previous.name != entry.name || previous.channels != entry.channels
                    || previous.uid != entry.uid {
                    changes.push(
                        PlanChange {
                            kind: PlanChangeKind::UpdateDevice,
                            target: id.clone(),
                            details: describe("update ", entry),
                        },
                    );
                }
            },
        }
        proof {
            assert(kept(keep, i + 1).map_values(change) =~= if keep(i as int) {
                kept(keep, i as int).map_values(change).push(change(i as int))
            } else {
                kept(keep, i as int).map_values(change)
            });
        }
        i = i + 1;
    }
    let ghost appeared = views(changes@);
    assert(appeared == appearances(before_view, after_view));
    let ghost ids = before.keys();
    let ghost keep = |i: int| !after_view.dom().contains(ids[i]);
    let ghost change = |i: int| removal(before_view, ids[i]);
    assert(kept(keep, 0).map_values(change) =~= Seq::<ChangeView>::empty());
    assert(appeared =~= appeared + Seq::<ChangeView>::empty());
    i = 0;
    while i < before.len()
        invariant
            i <= before.keys().len(),
            before.wf(),
            after.wf(),
            holds_entries(before@, before_view),
            holds_entries(after@, after_view),
            ids == before.keys(),
            keep == |i: int| !after_view.dom().contains(ids[i]),
            change == |i: int| removal(before_view, ids[i]),
            views(changes@) == appeared + kept(keep, i as int).map_values(change),
        decreases before.keys().len() - i,
    {
        let id = before.key_at(i);
        let entry = before.value_at(i);
        proof {
            before.lemma_entry(i as int);
            assert(before_view[id@] == entry@);
        }
        if !after.contains_key(id.as_str()) {
            changes.push(
                PlanChange {
                    kind: PlanChangeKind::RemoveDevice,
                    target: id.clone(),
                    details: describe("remove ", entry),
                },
            );
        }
        proof {
            assert(appeared + kept(keep, i + 1).map_values(change) =~= if keep(i as int) {
                (appeared + kept(keep, i as int).map_values(change)).push(change(i as int))
            } else {
                appeared + kept(keep, i as int).map_values(change)
            });
        }
        i = i + 1;
    }
    changes
}

fn list_section_changes(previous: Option<&Profile>, next: Option<&Profile>) -> (r: Vec<PlanChange>)
    ensures
        views(r@) == section_changes(deref_profile(previous), deref_profile(next)),
{
    let mut changes: Vec<PlanChange> = Vec::new();
    let ghost none = Seq::<ChangeView>::empty();
    assert(views(changes@) =~= none);
    assert forall|tail: Seq<ChangeView>| #[trigger] (none + tail) == tail by {
        assert(none + tail =~= tail);
    }
    match (previous, next) {
        (Some(a), Some(b)) => {
            push_if(
                &mut changes,
                !a.audio.same_as(&b.audio),
                PlanChangeKind::UpdateAudioConfig,
                "audio",
                "update sample rate/channels/buffer",
            );
            push_if(
                &mut changes,
                !lists_same(&a.pipes, &b.pipes) || !lists_same(&a.buses, &b.buses),
                PlanChangeKind::UpdateGraph,
                "graph",
                "update routing graph",
            );
            push_if(
                &mut changes,
                !lists_same(&a.routes, &b.routes),
                PlanChangeKind::UpdateGraph,
                "routes",
                "update routes",
            );
            push_if(
                &mut changes,
                !lists_same(&a.processors, &b.processors) || !lists_same(
                    &a.processor_chains,
                    &b.processor_chains,
                ),
                PlanChangeKind::UpdateGraph,
                "processor_chains",
                "update processor chains",
            );
            push_if(
                &mut changes,
                !a.captures.same_as(&b.captures),
                PlanChangeKind::UpdateGraph,
                "captures",
                "update captures",
            );
            push_if(
                &mut changes,
                !a.sinks.same_as(&b.sinks),
                PlanChangeKind::UpdateGraph,
                "sinks",
                "update sinks",
            );
        },
        (None, Some(_)) => {
            push_if(
                &mut changes,
                true,
                PlanChangeKind::UpdateGraph,
                "graph",
                "initialize routing graph",
            );
        },
        (Some(_), None) => {
            push_if(
                &mut changes,
                true,
                PlanChangeKind::UpdateGraph,
                "graph",
                "clear routing graph",
            );
        },
        (None, None) => {},
    }
    changes
}

/// The changes from one profile to another.
pub fn diff_profiles(previous: Option<&Profile>, next: Option<&Profile>) -> (r: ApplyPlan)
    ensures
        views(r.changes@) == profile_changes(deref_profile(previous), deref_profile(next)),
        r.warnings@.len() == 0,
{
    let before = map_or_empty(previous);
    let after = map_or_empty(next);
    let mut changes = device_changes(
        &before,
        &after,
        Ghost(entries(deref_profile(previous))),
        Ghost(entries(deref_profile(next))),
    );
    let mut sections = list_section_changes(previous, next);
    proof {
        lemma_views_append(changes@, sections@);
    }
    changes.append(&mut sections);
    ApplyPlan { changes, warnings: Vec::new() }
}

/// The changes that a plan lists: those between the profiles, without removals where
/// nothing is to be deleted, and a change that does nothing where there are none.
pub open spec fn planned_changes(previous: Option<Profile>, next: Profile, no_delete: bool) -> Seq<
    ChangeView,
> {
    let all = profile_changes(previous, Some(next));
    let wanted = if no_delete {
        kept(|i: int| all[i].kind != PlanChangeKind::RemoveDevice, all.len() as int).map_values(
            |i: int| all[i],
        )
    } else {
        all
    };
    if wanted.len() == 0 {
        seq![
            ChangeView {
                kind: PlanChangeKind::NoOp,
                target: "state"@,
                details: "already converged"@,
            },
        ]
    } else {
        wanted
    }
}

/// The plan for a validated profile, with the warnings that were raised on the way.
pub fn plan_changes(
    previous: Option<&Profile>,
    next: &Profile,
    no_delete: bool,
    warnings: Vec<String>,
) -> (r: ApplyPlan)
    ensures
        views(r.changes@) == planned_changes(deref_profile(previous), *next, no_delete),
        r.warnings == warnings,
{
    let diff = diff_profiles(previous, Some(next));
    let ghost all = views(diff.changes@);
    let mut changes = diff.changes;
    if no_delete {
        let ghost keep = |i: int| all[i].kind != PlanChangeKind::RemoveDevice;
        let ghost at = |i: int| all[i];
        let mut left: Vec<PlanChange> = Vec::new();
        let mut i: usize = 0;
        while i < changes.len()
            invariant
                i <= changes.len(),
                all == views(changes@),
                keep == |i: int| all[i].kind != PlanChangeKind::RemoveDevice,
                at == |i: int| all[i],
                views(left@) == kept(keep, i as int).map_values(at),
            decreases changes.len() - i,
        {
            assert(all[i as int] == changes@[i as int]@);
            if changes[i].kind != PlanChangeKind::RemoveDevice {
                left.push(changes[i].clone());
            }
            proof {
                assert(kept(keep, i + 1).map_values(at) =~= if keep(i as int) {
                    kept(keep, i as int).map_values(at).push(all[i as int])
                } else {
                    kept(keep, i as int).map_values(at)
                });
            }
            i = i + 1;
        }
        changes = left;
    }
    if changes.len() == 0 {
        changes.push(
            PlanChange {
                kind: PlanChangeKind::NoOp,
                target: String::from_str("state"),
                details: String::from_str("already converged"),
            },
        );
        assert(views(changes@) =~= planned_changes(deref_profile(previous), *next, no_delete));
    }
    ApplyPlan { changes, warnings }
}

/// The places of the previous outputs that the next profile does not name.
pub open spec fn dropped_outputs(previous: Profile, next: Profile) -> Seq<int> {
    kept(
        |i: int|
            forall|j: int|
                0 <= j < next.virtual_devices.outputs@.len() ==> (
                #[trigger] next.virtual_devices.outputs@[j]).id@
                    != previous.virtual_devices.outputs@[i].id@,
        previous.virtual_devices.outputs@.len() as int,
    )
}

/// The places of the previous inputs that the next profile does not name.
pub open spec fn dropped_inputs(previous: Profile, next: Profile) -> Seq<int> {
    kept(
        |i: int|
            forall|j: int|
                0 <= j < next.virtual_devices.inputs@.len() ==> (
                #[trigger] next.virtual_devices.inputs@[j]).id@
                    != previous.virtual_devices.inputs@[i].id@,
        previous.virtual_devices.inputs@.len() as int,
    )
}

/// The outputs with those of the previous profile that would otherwise go.
pub open spec fn merged_outputs(previous: Profile, next: Profile) -> Seq<VirtualOutputDevice> {
    next.virtual_devices.outputs@ + dropped_outputs(previous, next).map_values(
        |i: int| previous.virtual_devices.outputs@[i],
    )
}

/// The inputs with those of the previous profile that would otherwise go.
pub open spec fn merged_inputs(previous: Profile, next: Profile) -> Seq<VirtualInputDevice> {
    next.virtual_devices.inputs@ + dropped_inputs(previous, next).map_values(
        |i: int| previous.virtual_devices.inputs@[i],
    )
}

/// The profile with other virtual devices.
pub open spec fn only_devices_differ(a: Profile, b: Profile) -> bool {
    &&& a.version == b.version
    &&& a.name == b.name
    &&& a.description == b.description
    &&& a.audio == b.audio
    &&& a.buses == b.buses
    &&& a.external == b.external
    &&& a.pipes == b.pipes
    &&& a.routes == b.routes
    &&& a.processors == b.processors
    &&& a.processor_chains == b.processor_chains
    &&& a.captures == b.captures
    &&& a.sinks == b.sinks
}

fn names_output(devices: &Vec<VirtualOutputDevice>, count: usize, id: &String) -> (r: bool)
    requires
        count <= devices.len(),
    ensures
        r == exists|j: int| 0 <= j < count && (#[trigger] devices@[j]).id@ == id@,
{
    let mut j: usize = 0;
    while j < count
        invariant
            j <= count <= devices.len(),
            forall|k: int| 0 <= k < j ==> (#[trigger] devices@[k]).id@ != id@,
        decreases count - j,
    {
        if devices[j].id == *id {
            assert(devices@[j as int].id@ == id@);
            return true;
        }
        j = j + 1;
    }
    false
}

fn names_input(devices: &Vec<VirtualInputDevice>, count: usize, id: &String) -> (r: bool)
    requires
        count <= devices.len(),
    ensures
        r == exists|j: int| 0 <= j < count && (#[trigger] devices@[j]).id@ == id@,
{
    let mut j: usize = 0;
    while j < count
        invariant
            j <= count <= devices.len(),
            forall|k: int| 0 <= k < j ==> (#[trigger] devices@[k]).id@ != id@,
        decreases count - j,
    {
        if devices[j].id == *id {
            assert(devices@[j as int].id@ == id@);
            return true;
        }
        j = j + 1;
    }
    false
}

/// Keeps the virtual devices of the previous profile that the next one does not name.
pub fn merge_previous_devices(previous: &Profile, next: Profile) -> (r: Profile)
    ensures
        only_devices_differ(r, next),
        r.virtual_devices.outputs@ == merged_outputs(*previous, next),
        r.virtual_devices.inputs@ == merged_inputs(*previous, next),
{
    let ghost wanted = next;
    let mut merged = next;
    let count = merged.virtual_devices.outputs.len();
    let ghost keep = |i: int|
        forall|j: int|
            0 <= j < wanted.virtual_devices.outputs@.len() ==> (
            #[trigger] wanted.virtual_devices.outputs@[j]).id@
                != previous.virtual_devices.outputs@[i].id@;
    let ghost at = |i: int| previous.virtual_devices.outputs@[i];
    assert(kept(keep, 0).map_values(at) =~= Seq::<VirtualOutputDevice>::empty());
    assert(merged.virtual_devices.outputs@ =~= wanted.virtual_devices.outputs@ + kept(
        keep,
        0,
    ).map_values(at));
    let mut i: usize = 0;
    while i < previous.virtual_devices.outputs.len()
        invariant
            i <= previous.virtual_devices.outputs.len(),
            count == wanted.virtual_devices.outputs@.len(),
            keep == |i: int|
                forall|j: int|
                    0 <= j < wanted.virtual_devices.outputs@.len() ==> (
                    #[trigger] wanted.virtual_devices.outputs@[j]).id@
                        != previous.virtual_devices.outputs@[i].id@,
            at == |i: int| previous.virtual_devices.outputs@[i],
            only_devices_differ(merged, wanted),
            merged.virtual_devices.inputs@ == wanted.virtual_devices.inputs@,
            merged.virtual_devices.outputs@ == wanted.virtual_devices.outputs@ + kept(
                keep,
                i as int,
            ).map_values(at),
        decreases previous.virtual_devices.outputs.len() - i,
    {
        let output = &previous.virtual_devices.outputs[i];
        let ghost before = merged.virtual_devices.outputs@;
        assert forall|j: int| 0 <= j < count implies #[trigger] before[j]
            == wanted.virtual_devices.outputs@[j] by {}
        let named = names_output(&merged.virtual_devices.outputs, count, &output.id);
        proof {
            if named {
                let j = choose|j: int| 0 <= j < count && (#[trigger] before[j]).id@ == output.id@;
                assert(wanted.virtual_devices.outputs@[j].id@ == output.id@);
            } else {
                assert forall|j: int| 0 <= j < wanted.virtual_devices.outputs@.len() implies (
                #[trigger] wanted.virtual_devices.outputs@[j]).id@ != output.id@ by {
                    assert(before[j].id@ != output.id@);
                }
            }
            assert(keep(i as int) == !named);
        }
        if !named {
            merged.virtual_devices.outputs.push(output.clone());
        }
        proof {
            assert(merged.virtual_devices.outputs@ =~= wanted.virtual_devices.outputs@ + kept(
                keep,
                i + 1,
            ).map_values(at));
        }
        i = i + 1;
    }
    let count = merged.virtual_devices.inputs.len();
    let ghost keep = |i: int|
        forall|j: int|
            0 <= j < wanted.virtual_devices.inputs@.len() ==> (
            #[trigger] wanted.virtual_devices.inputs@[j]).id@
                != previous.virtual_devices.inputs@[i].id@;
    let ghost at = |i: int| previous.virtual_devices.inputs@[i];
    assert(kept(keep, 0).map_values(at) =~= Seq::<VirtualInputDevice>::empty());
    assert(merged.virtual_devices.inputs@ =~= wanted.virtual_devices.inputs@ + kept(
        keep,
        0,
    ).map_values(at));
    i = 0;
    while i < previous.virtual_devices.inputs.len()
        invariant
            i <= previous.virtual_devices.inputs.len(),
            count == wanted.virtual_devices.inputs@.len(),
            keep == |i: int|
                forall|j: int|
                    0 <= j < wanted.virtual_devices.inputs@.len() ==> (
                    #[trigger] wanted.virtual_devices.inputs@[j]).id@
                        != previous.virtual_devices.inputs@[i].id@,
            at == |i: int| previous.virtual_devices.inputs@[i],
            only_devices_differ(merged, wanted),
            merged.virtual_devices.outputs@ == merged_outputs(*previous, wanted),
            merged.virtual_devices.inputs@ == wanted.virtual_devices.inputs@ + kept(
                keep,
                i as int,
            ).map_values(at),
        decreases previous.virtual_devices.inputs.len() - i,
    {
        let input = &previous.virtual_devices.inputs[i];
        let ghost before = merged.virtual_devices.inputs@;
        assert forall|j: int| 0 <= j < count implies #[trigger] before[j]
            == wanted.virtual_devices.inputs@[j] by {}
        let named = names_input(&merged.virtual_devices.inputs, count, &input.id);
        proof {
            if named {
                let j = choose|j: int| 0 <= j < count && (#[trigger] before[j]).id@ == input.id@;
                assert(wanted.virtual_devices.inputs@[j].id@ == input.id@);
            } else {
                assert forall|j: int| 0 <= j < wanted.virtual_devices.inputs@.len() implies (
                #[trigger] wanted.virtual_devices.inputs@[j]).id@ != input.id@ by {
                    assert(before[j].id@ != input.id@);
                }
            }
            assert(keep(i as int) == !named);
        }
        if !named {
            merged.virtual_devices.inputs.push(input.clone());
        }
        proof {
            assert(merged.virtual_devices.inputs@ =~= wanted.virtual_devices.inputs@ + kept(
                keep,
                i + 1,
            ).map_values(at));
        }
        i = i + 1;
    }
    merged
}

// ---------------------------------------------------------------------------
// Laws of plans

/// A plan that deletes nothing lists no removal.
pub proof fn law_no_delete_removes_nothing(previous: Option<Profile>, next: Profile)
    ensures
        forall|i: int|
            0 <= i < planned_changes(previous, next, true).len() ==> (
            #[trigger] planned_changes(previous, next, true)[i]).kind
                != PlanChangeKind::RemoveDevice,
{
    let all = profile_changes(previous, Some(next));
    let keep = |i: int| all[i].kind != PlanChangeKind::RemoveDevice;
    let places = kept(keep, all.len() as int);
    lemma_kept(keep, all.len() as int);
    assert forall|i: int| 0 <= i < planned_changes(previous, next, true).len() implies (
    #[trigger] planned_changes(previous, next, true)[i]).kind != PlanChangeKind::RemoveDevice by {
        if places.len() > 0 {
            assert(keep(places[i]));
        }
    }
}

/// A plan lists at least one change.
pub proof fn law_plan_says_something(previous: Option<Profile>, next: Profile, no_delete: bool)
    ensures
        planned_changes(previous, next, no_delete).len() > 0,
{
}

/// Whether two profiles declare the same in everything that a plan compares.
pub open spec fn converged(a: Profile, b: Profile) -> bool {
    &&& entries(Some(a)) == entries(Some(b))
    &&& a.audio.same(b.audio)
    &&& all_same(a.pipes@, b.pipes@)
    &&& all_same(a.buses@, b.buses@)
    &&& all_same(a.routes@, b.routes@)
    &&& all_same(a.processors@, b.processors@)
    &&& all_same(a.processor_chains@, b.processor_chains@)
    &&& a.captures.same(b.captures)
    &&& a.sinks.same(b.sinks)
}

/// Between profiles that declare the same there are no changes, and only there.
pub proof fn law_converged_iff_no_changes(a: Profile, b: Profile)
    ensures
        converged(a, b) <==> profile_changes(Some(a), Some(b)).len() == 0,
{
    let before = entries(Some(a));
    let after = entries(Some(b));
    let ids = ordered(after.dom());
    let gone = ordered(before.dom());
    let keep = |i: int| appears_or_differs(before, after, ids[i]);
    let drop = |i: int| !after.dom().contains(gone[i]);
    lemma_kept(keep, ids.len() as int);
    lemma_kept(drop, gone.len() as int);
    lemma_entries_ordered(a);
    lemma_entries_ordered(b);
    if converged(a, b) {
        if kept(keep, ids.len() as int).len() > 0 {
            let i = kept(keep, ids.len() as int)[0];
            assert(keep(i));
            assert(ids.to_set().contains(ids[i]));
        }
        if kept(drop, gone.len() as int).len() > 0 {
            let i = kept(drop, gone.len() as int)[0];
            assert(drop(i));
            assert(gone.to_set().contains(gone[i]));
        }
        assert(profile_changes(Some(a), Some(b)).len() == 0);
    }
    if profile_changes(Some(a), Some(b)).len() == 0 {
        assert(appearances(before, after).len() == 0);
        assert(removals(before, after).len() == 0);
        assert(section_changes(Some(a), Some(b)).len() == 0);
        assert forall|id: Seq<char>| before.dom().contains(id) <==> #[trigger] after.dom().contains(
            id,
        ) by {
            if before.dom().contains(id) && !after.dom().contains(id) {
                assert(gone.to_set().contains(id));
                let i = gone.index_of(id);
                assert(gone[i] == id);
                assert(drop(i));
                assert(kept(drop, gone.len() as int).contains(i));
            }
            if after.dom().contains(id) && !before.dom().contains(id) {
                assert(ids.to_set().contains(id));
                let i = ids.index_of(id);
                assert(ids[i] == id);
                assert(keep(i));
                assert(kept(keep, ids.len() as int).contains(i));
            }
        }
        assert forall|id: Seq<char>| after.dom().contains(id) implies #[trigger] before[id]
            == after[id] by {
            if before[id] != after[id] {
                assert(ids.to_set().contains(id));
                let i = ids.index_of(id);
                assert(ids[i] == id);
                assert(keep(i));
                assert(kept(keep, ids.len() as int).contains(i));
            }
        }
        assert(before =~= after);
    }
}

proof fn lemma_entries_ordered(p: Profile)
    ensures
        ordered(entries(Some(p)).dom()).to_set() == entries(Some(p)).dom(),
        crate::string_map::strictly_increasing(ordered(entries(Some(p)).dom())),
{
    let devices = virtual_devices(p, default_channels(p));
    let ids = Seq::new(devices.len(), |i: int| devices[i].id);
    let dom = entries(Some(p)).dom();
    assert forall|id: Seq<char>| #[trigger] dom.contains(id) <==> ids.to_set().contains(id) by {
        let named = |i: int| devices[i].id == id;
        lemma_last_place(named, devices.len() as int);
        if dom.contains(id) {
            let k = device_place(devices, id, devices.len() as int)->0;
            assert(ids[k] == id);
        }
        if ids.to_set().contains(id) {
            let k = ids.index_of(id);
            assert(named(k));
        }
    }
    assert(dom =~= ids.to_set());
    lemma_arrangement_exists(ids);
    let keys = choose|s: Seq<Seq<char>>|
        crate::string_map::strictly_increasing(s) && s.to_set() == ids.to_set();
    assert(crate::string_map::strictly_increasing(keys) && keys.to_set() == dom);
}

/// Whether the list has a change of the kind for the target.
pub open spec fn lists_change(
    changes: Seq<ChangeView>,
    kind: PlanChangeKind,
    target: Seq<char>,
) -> bool {
    exists|i: int|
        0 <= i < changes.len() && (#[trigger] changes[i]).kind == kind && changes[i].target
            == target
}

proof fn lemma_creations(a: Profile, b: Profile, id: Seq<char>)
    ensures
        lists_change(profile_changes(Some(a), Some(b)), PlanChangeKind::CreateDevice, id)
            <==> entries(Some(b)).dom().contains(id) && !entries(Some(a)).dom().contains(id),
        lists_change(profile_changes(Some(a), Some(b)), PlanChangeKind::RemoveDevice, id)
            <==> entries(Some(a)).dom().contains(id) && !entries(Some(b)).dom().contains(id),
        lists_change(profile_changes(Some(a), Some(b)), PlanChangeKind::UpdateDevice, id)
            <==> entries(Some(a)).dom().contains(id) && entries(Some(b)).dom().contains(id)
            && entries(Some(a))[id] != entries(Some(b))[id],
{
    let changes = profile_changes(Some(a), Some(b));
    let before = entries(Some(a));
    let after = entries(Some(b));
    let ids = ordered(after.dom());
    let gone = ordered(before.dom());
    let keep = |i: int| appears_or_differs(before, after, ids[i]);
    let drop = |i: int| !after.dom().contains(gone[i]);
    let kept_ids = kept(keep, ids.len() as int);
    let dropped = kept(drop, gone.len() as int);
    let news = appearances(before, after);
    let olds = removals(before, after);
    lemma_kept(keep, ids.len() as int);
    lemma_kept(drop, gone.len() as int);
    lemma_entries_ordered(a);
    lemma_entries_ordered(b);
    if after.dom().contains(id) && appears_or_differs(before, after, id) {
        assert(ids.to_set().contains(id));
        let i = ids.index_of(id);
        assert(ids[i] == id);
        assert(keep(i));
        assert(kept_ids.contains(i));
        let k = kept_ids.index_of(i);
        assert(news[k] == appearance(before, after, id));
        assert(changes[k] == news[k]);
    }
    if before.dom().contains(id) && !after.dom().contains(id) {
        assert(gone.to_set().contains(id));
        let i = gone.index_of(id);
        assert(gone[i] == id);
        assert(drop(i));
        assert(dropped.contains(i));
        let k = dropped.index_of(i);
        assert(olds[k] == removal(before, id));
        assert(changes[news.len() + k] == olds[k]);
    }
    assert forall|i: int| 0 <= i < changes.len() && (#[trigger] changes[i]).kind
        == PlanChangeKind::CreateDevice && changes[i].target == id implies after.dom().contains(id)
        && !before.dom().contains(id) by {
        if i < news.len() {
            assert(changes[i] == news[i]);
            assert(ids.to_set().contains(ids[kept_ids[i]]));
        } else if i < news.len() + olds.len() {
            assert(changes[i] == olds[i - news.len()]);
        } else {
            assert(changes[i] == section_changes(Some(a), Some(b))[i - news.len() - olds.len()]);
            lemma_section_kinds(a, b);
        }
    }
    assert forall|i: int| 0 <= i < changes.len() && (#[trigger] changes[i]).kind
        == PlanChangeKind::RemoveDevice && changes[i].target == id implies before.dom().contains(id)
        && !after.dom().contains(id) by {
        if i < news.len() {
            assert(changes[i] == news[i]);
        } else if i < news.len() + olds.len() {
            assert(changes[i] == olds[i - news.len()]);
            assert(drop(dropped[i - news.len()]));
            assert(gone.to_set().contains(gone[dropped[i - news.len()]]));
        } else {
            assert(changes[i] == section_changes(Some(a), Some(b))[i - news.len() - olds.len()]);
            lemma_section_kinds(a, b);
        }
    }
    assert forall|i: int| 0 <= i < changes.len() && (#[trigger] changes[i]).kind
        == PlanChangeKind::UpdateDevice && changes[i].target == id implies before.dom().contains(id)
        && after.dom().contains(id) && before[id] != after[id] by {
        if i < news.len() {
            assert(changes[i] == news[i]);
            assert(keep(kept_ids[i]));
            assert(ids.to_set().contains(ids[kept_ids[i]]));
        } else if i < news.len() + olds.len() {
            assert(changes[i] == olds[i - news.len()]);
        } else {
            assert(changes[i] == section_changes(Some(a), Some(b))[i - news.len() - olds.len()]);
            lemma_section_kinds(a, b);
        }
    }
}

/// A device is updated on the way from one profile to another exactly where it is updated on
/// the way back.
pub proof fn law_updates_are_mutual(a: Profile, b: Profile, id: Seq<char>)
    ensures
        lists_change(profile_changes(Some(a), Some(b)), PlanChangeKind::UpdateDevice, id)
            <==> lists_change(
            profile_changes(Some(b), Some(a)),
            PlanChangeKind::UpdateDevice,
            id,
        ),
{
    lemma_creations(a, b, id);
    lemma_creations(b, a, id);
}

proof fn lemma_section_kinds(a: Profile, b: Profile)
    ensures
        forall|i: int|
            0 <= i < section_changes(Some(a), Some(b)).len() ==> {
                let kind = (#[trigger] section_changes(Some(a), Some(b))[i]).kind;
                kind == PlanChangeKind::UpdateAudioConfig || kind == PlanChangeKind::UpdateGraph
            },
{
}

/// Whether every number of a profile that a plan compares is one.
pub open spec fn comparable(p: Profile) -> bool {
    &&& forall|i: int|
        0 <= i < p.pipes@.len() ==> {
            let pipe = #[trigger] p.pipes@[i];
            !pipe.gain_db.nan() && !pipe.pan.nan() && !pipe.delay_ms.nan()
        }
    &&& forall|i: int|
        0 <= i < p.buses@.len() ==> ((#[trigger] p.buses@[i]).mix matches Some(mix)
            ==> !mix.limit_dbfs.nan())
    &&& forall|i: int|
        0 <= i < p.routes@.len() ==> {
            let route = #[trigger] p.routes@[i];
            !route.gain_db.nan() && !route.pan.nan() && !route.delay_ms.nan()
        }
    &&& forall|i: int, row: int, column: int|
        0 <= i < p.routes@.len() && 0 <= row < p.routes@[i].matrix.coefficients@.len() && 0
            <= column < p.routes@[i].matrix.coefficients@[row]@.len()
            ==> !(#[trigger] p.routes@[i].matrix.coefficients@[row]@[column]).nan()
}

/// Applying once more what is applied changes nothing, and the plan says so.
pub proof fn law_applying_again_changes_nothing(p: Profile, no_delete: bool)
    requires
        comparable(p),
    ensures
        converged(p, p),
        planned_changes(Some(p), p, no_delete) == seq![
            ChangeView {
                kind: PlanChangeKind::NoOp,
                target: "state"@,
                details: "already converged"@,
            },
        ],
{
    assert forall|i: int| 0 <= i < p.routes@.len() implies (#[trigger] p.routes@[i]).same(
        p.routes@[i],
    ) by {
        let rows = p.routes@[i].matrix.coefficients@;
        assert forall|row: int| 0 <= row < rows.len() implies (#[trigger] rows[row]).same(
            rows[row],
        ) by {
            assert forall|column: int| 0 <= column < rows[row]@.len() implies (
            #[trigger] rows[row]@[column]).same(rows[row]@[column]) by {
                assert(!p.routes@[i].matrix.coefficients@[row]@[column].nan());
            }
        }
    }
    law_converged_iff_no_changes(p, p);
}

/// A device is created on the way from one profile to another exactly where it is removed
/// on the way back.
pub proof fn law_creation_mirrors_removal(a: Profile, b: Profile, id: Seq<char>)
    ensures
        lists_change(profile_changes(Some(a), Some(b)), PlanChangeKind::CreateDevice, id)
            <==> lists_change(
            profile_changes(Some(b), Some(a)),
            PlanChangeKind::RemoveDevice,
            id,
        ),
{
    lemma_creations(a, b, id);
    lemma_creations(b, a, id);
}

/// The ids of the virtual devices of a profile.
proof fn lemma_entry_ids(p: Profile, id: Seq<char>)
    ensures
        entries(Some(p)).dom().contains(id) <==> (exists|i: int|
            0 <= i < p.virtual_devices.outputs@.len() && (
            #[trigger] p.virtual_devices.outputs@[i]).id@ == id) || (exists|i: int|
            0 <= i < p.virtual_devices.inputs@.len() && (
            #[trigger] p.virtual_devices.inputs@[i]).id@ == id),
{
    let devices = virtual_devices(p, default_channels(p));
    let outputs = p.virtual_devices.outputs@;
    let inputs = p.virtual_devices.inputs@;
    let named = |i: int| devices[i].id == id;
    lemma_last_place(named, devices.len() as int);
    if exists|i: int| 0 <= i < outputs.len() && (#[trigger] outputs[i]).id@ == id {
        let i = choose|i: int| 0 <= i < outputs.len() && (#[trigger] outputs[i]).id@ == id;
        assert(named(i));
    }
    if exists|i: int| 0 <= i < inputs.len() && (#[trigger] inputs[i]).id@ == id {
        let i = choose|i: int| 0 <= i < inputs.len() && (#[trigger] inputs[i]).id@ == id;
        assert(named(outputs.len() + i));
    }
    if entries(Some(p)).dom().contains(id) {
        let k = device_place(devices, id, devices.len() as int)->0;
        if k < outputs.len() {
            assert(outputs[k].id@ == id);
        } else {
            assert(inputs[k - outputs.len()].id@ == id);
        }
    }
}

/// A profile that was merged with the previous one still has every virtual device of it.
pub proof fn law_merge_keeps_devices(previous: Profile, next: Profile, merged: Profile, id: Seq<char>)
    requires
        merged.virtual_devices.outputs@ == merged_outputs(previous, next),
        merged.virtual_devices.inputs@ == merged_inputs(previous, next),
        entries(Some(previous)).dom().contains(id),
    ensures
        entries(Some(merged)).dom().contains(id),
        !lists_change(
            profile_changes(Some(previous), Some(merged)),
            PlanChangeKind::RemoveDevice,
            id,
        ),
{
    lemma_entry_ids(previous, id);
    lemma_entry_ids(merged, id);
    let outputs = previous.virtual_devices.outputs@;
    let inputs = previous.virtual_devices.inputs@;
    if exists|i: int| 0 <= i < outputs.len() && (#[trigger] outputs[i]).id@ == id {
        let i = choose|i: int| 0 <= i < outputs.len() && (#[trigger] outputs[i]).id@ == id;
        let wanted = next.virtual_devices.outputs@;
        let keep = |i: int|
            forall|j: int|
                0 <= j < wanted.len() ==> (#[trigger] wanted[j]).id@ != outputs[i].id@;
        lemma_kept(keep, outputs.len() as int);
        let places = dropped_outputs(previous, next);
        assert(places == kept(keep, outputs.len() as int));
        if keep(i) {
            assert(places.contains(i));
            let k = places.index_of(i);
            assert(merged.virtual_devices.outputs@[wanted.len() + k] == outputs[i]);
        } else {
            let j = choose|j: int| 0 <= j < wanted.len() && (#[trigger] wanted[j]).id@ == id;
            assert(merged.virtual_devices.outputs@[j] == wanted[j]);
        }
    } else {
        let i = choose|i: int| 0 <= i < inputs.len() && (#[trigger] inputs[i]).id@ == id;
        let wanted = next.virtual_devices.inputs@;
        let keep = |i: int|
            forall|j: int| 0 <= j < wanted.len() ==> (#[trigger] wanted[j]).id@ != inputs[i].id@;
        lemma_kept(keep, inputs.len() as int);
        let places = dropped_inputs(previous, next);
        assert(places == kept(keep, inputs.len() as int));
        if keep(i) {
            assert(places.contains(i));
            let k = places.index_of(i);
            assert(merged.virtual_devices.inputs@[wanted.len() + k] == inputs[i]);
        } else {
            let j = choose|j: int| 0 <= j < wanted.len() && (#[trigger] wanted[j]).id@ == id;
            assert(merged.virtual_devices.inputs@[j] == wanted[j]);
        }
    }
    lemma_creations(previous, merged, id);
}

/// Without `no_delete` a plan lists everything that differs.
pub proof fn law_plan_lists_everything(previous: Option<Profile>, next: Profile)
    requires
        profile_changes(previous, Some(next)).len() > 0,
    ensures
        planned_changes(previous, next, false) == profile_changes(previous, Some(next)),
{
}

/// A device that the previous profile has and the next one does not have is listed as removed
/// where deleting is allowed.
pub proof fn law_dropped_device_is_removed(a: Profile, b: Profile, id: Seq<char>)
    requires
        (exists|i: int|
            0 <= i < a.virtual_devices.outputs@.len() && (
            #[trigger] a.virtual_devices.outputs@[i]).id@ == id) || (exists|i: int|
            0 <= i < a.virtual_devices.inputs@.len() && (
            #[trigger] a.virtual_devices.inputs@[i]).id@ == id),
        forall|i: int|
            0 <= i < b.virtual_devices.outputs@.len() ==> (
            #[trigger] b.virtual_devices.outputs@[i]).id@ != id,
        forall|i: int|
            0 <= i < b.virtual_devices.inputs@.len() ==> (
            #[trigger] b.virtual_devices.inputs@[i]).id@ != id,
    ensures
        exists|k: int|
            0 <= k < planned_changes(Some(a), b, false).len() && (
            #[trigger] planned_changes(Some(a), b, false)[k]).kind == PlanChangeKind::RemoveDevice
                && planned_changes(Some(a), b, false)[k].target == id,
{
    lemma_entry_ids(a, id);
    lemma_entry_ids(b, id);
    lemma_creations(a, b, id);
    let all = profile_changes(Some(a), Some(b));
    let k = choose|k: int|
        0 <= k < all.len() && (#[trigger] all[k]).kind == PlanChangeKind::RemoveDevice
            && all[k].target == id;
    assert(planned_changes(Some(a), b, false)[k] == all[k]);
}

/// A plan removes and creates a device only where one profile has it and the other has not, and
/// updates it only where both have it.
pub proof fn law_devices_are_planned_by_who_has_them(
    a: Profile,
    b: Profile,
    no_delete: bool,
    k: int,
)
    requires
        0 <= k < planned_changes(Some(a), b, no_delete).len(),
    ensures
        ({
            let change = planned_changes(Some(a), b, no_delete)[k];
            let before = (exists|i: int|
                0 <= i < a.virtual_devices.outputs@.len() && (
                #[trigger] a.virtual_devices.outputs@[i]).id@ == change.target) || (exists|i: int|
                0 <= i < a.virtual_devices.inputs@.len() && (
                #[trigger] a.virtual_devices.inputs@[i]).id@ == change.target);
            let after = (exists|i: int|
                0 <= i < b.virtual_devices.outputs@.len() && (
                #[trigger] b.virtual_devices.outputs@[i]).id@ == change.target) || (exists|i: int|
                0 <= i < b.virtual_devices.inputs@.len() && (
                #[trigger] b.virtual_devices.inputs@[i]).id@ == change.target);
            &&& change.kind == PlanChangeKind::RemoveDevice ==> before && !after && !no_delete
            &&& change.kind == PlanChangeKind::CreateDevice ==> !before && after
            &&& change.kind == PlanChangeKind::UpdateDevice ==> before && after
        }),
{
    let planned = planned_changes(Some(a), b, no_delete);
    let all = profile_changes(Some(a), Some(b));
    let change = planned[k];
    lemma_entry_ids(a, change.target);
    lemma_entry_ids(b, change.target);
    lemma_creations(a, b, change.target);
    lemma_kept(|i: int| all[i].kind != PlanChangeKind::RemoveDevice, all.len() as int);
    if change.kind != PlanChangeKind::NoOp {
        let keep = |i: int| all[i].kind != PlanChangeKind::RemoveDevice;
        let places = kept(keep, all.len() as int);
        if no_delete {
            law_no_delete_removes_nothing(Some(a), b);
            assert(planned[k] == all[places[k]]);
        } else {
            assert(planned[k] == all[k]);
        }
    }
}

/// Every device that only the next profile has is created, whether deleting is allowed or not.
pub proof fn law_new_device_is_created(a: Profile, b: Profile, no_delete: bool, id: Seq<char>)
    requires
        (exists|i: int|
            0 <= i < b.virtual_devices.outputs@.len() && (
            #[trigger] b.virtual_devices.outputs@[i]).id@ == id) || (exists|i: int|
            0 <= i < b.virtual_devices.inputs@.len() && (
            #[trigger] b.virtual_devices.inputs@[i]).id@ == id),
        forall|i: int|
            0 <= i < a.virtual_devices.outputs@.len() ==> (
            #[trigger] a.virtual_devices.outputs@[i]).id@ != id,
        forall|i: int|
            0 <= i < a.virtual_devices.inputs@.len() ==> (
            #[trigger] a.virtual_devices.inputs@[i]).id@ != id,
    ensures
        exists|k: int|
            0 <= k < planned_changes(Some(a), b, no_delete).len() && (
            #[trigger] planned_changes(Some(a), b, no_delete)[k]).kind
                == PlanChangeKind::CreateDevice && planned_changes(Some(a), b, no_delete)[k].target
                == id,
{
    lemma_entry_ids(a, id);
    lemma_entry_ids(b, id);
    lemma_creations(a, b, id);
    let all = profile_changes(Some(a), Some(b));
    let k = choose|k: int|
        0 <= k < all.len() && (#[trigger] all[k]).kind == PlanChangeKind::CreateDevice
            && all[k].target == id;
    lemma_planned_keeps(Some(a), b, no_delete, k);
}

proof fn lemma_planned_keeps(previous: Option<Profile>, next: Profile, no_delete: bool, k: int)
    requires
        0 <= k < profile_changes(previous, Some(next)).len(),
        profile_changes(previous, Some(next))[k].kind != PlanChangeKind::RemoveDevice,
    ensures
        exists|j: int|
            0 <= j < planned_changes(previous, next, no_delete).len() && (
            #[trigger] planned_changes(previous, next, no_delete)[j]) == profile_changes(
                previous,
                Some(next),
            )[k],
{
    let all = profile_changes(previous, Some(next));
    let keep = |i: int| all[i].kind != PlanChangeKind::RemoveDevice;
    let places = kept(keep, all.len() as int);
    lemma_kept(keep, all.len() as int);
    if no_delete {
        assert(keep(k));
        assert(places.contains(k));
        let j = places.index_of(k);
        assert(planned_changes(previous, next, no_delete)[j] == all[k]);
    } else {
        assert(planned_changes(previous, next, no_delete)[k] == all[k]);
    }
}

/// What `no_delete` leaves of a plan is everything but the removals, in the same order.
pub proof fn law_no_delete_keeps_the_rest(previous: Option<Profile>, next: Profile, k: int)
    requires
        0 <= k < profile_changes(previous, Some(next)).len(),
        profile_changes(previous, Some(next))[k].kind != PlanChangeKind::RemoveDevice,
    ensures
        exists|j: int|
            0 <= j < planned_changes(previous, next, true).len() && (
            #[trigger] planned_changes(previous, next, true)[j]) == profile_changes(
                previous,
                Some(next),
            )[k],
{
    lemma_planned_keeps(previous, next, true, k);
}

/// Whether a plan lists an update of a section.
pub open spec fn lists_section(changes: Seq<ChangeView>, section: Seq<char>) -> bool {
    exists|i: int|
        0 <= i < changes.len() && ((#[trigger] changes[i]).kind == PlanChangeKind::UpdateGraph
            || changes[i].kind == PlanChangeKind::UpdateAudioConfig) && changes[i].target
            == section
}

proof fn lemma_section_listed(a: Profile, b: Profile, section: Seq<char>)
    ensures
        lists_section(profile_changes(Some(a), Some(b)), section) <==> lists_section(
            section_changes(Some(a), Some(b)),
            section,
        ),
{
    let changes = profile_changes(Some(a), Some(b));
    let before = entries(Some(a));
    let after = entries(Some(b));
    let news = appearances(before, after);
    let olds = removals(before, after);
    let sections = section_changes(Some(a), Some(b));
    let count = (news.len() + olds.len()) as int;
    if lists_section(sections, section) {
        let i = choose|i: int|
            0 <= i < sections.len() && ((#[trigger] sections[i]).kind
                == PlanChangeKind::UpdateGraph || sections[i].kind
                == PlanChangeKind::UpdateAudioConfig) && sections[i].target == section;
        assert(changes[count + i] == sections[i]);
    }
    if lists_section(changes, section) {
        let i = choose|i: int|
            0 <= i < changes.len() && ((#[trigger] changes[i]).kind == PlanChangeKind::UpdateGraph
                || changes[i].kind == PlanChangeKind::UpdateAudioConfig) && changes[i].target
                == section;
        if i < news.len() {
            assert(changes[i] == news[i]);
        } else if i < count {
            assert(changes[i] == olds[i - news.len()]);
        } else {
            assert(changes[i] == sections[i - count]);
        }
    }
}

/// A plan lists a section exactly where something in it differs: the settings of the audio, the
/// pipes and buses, the routes, the processors and chains, the captures, and the sinks.
pub proof fn law_sections_that_differ_are_listed(a: Profile, b: Profile)
    ensures
        ({
            let changes = profile_changes(Some(a), Some(b));
            &&& lists_section(changes, "audio"@) <==> !a.audio.same(b.audio)
            &&& lists_section(changes, "graph"@) <==> !all_same(a.pipes@, b.pipes@) || !all_same(
                a.buses@,
                b.buses@,
            )
            &&& lists_section(changes, "routes"@) <==> !all_same(a.routes@, b.routes@)
            &&& lists_section(changes, "processor_chains"@) <==> !all_same(
                a.processors@,
                b.processors@,
            ) || !all_same(a.processor_chains@, b.processor_chains@)
            &&& lists_section(changes, "captures"@) <==> !all_same(
                a.captures.process_taps@,
                b.captures.process_taps@,
            ) || !all_same(a.captures.system_taps@, b.captures.system_taps@)
            &&& lists_section(changes, "sinks"@) <==> !all_same(a.sinks.files@, b.sinks.files@)
                || !all_same(a.sinks.streams@, b.sinks.streams@)
        }),
{
    reveal_strlit("audio");
    reveal_strlit("graph");
    reveal_strlit("routes");
    reveal_strlit("processor_chains");
    reveal_strlit("captures");
    reveal_strlit("sinks");
    assert("audio"@[0] != "graph"@[0] && "audio"@[0] != "sinks"@[0] && "graph"@[0] != "sinks"@[0]);
    let s = section_changes(Some(a), Some(b));
    let audio = change_if(
        !a.audio.same(b.audio),
        PlanChangeKind::UpdateAudioConfig,
        "audio"@,
        "update sample rate/channels/buffer"@,
    );
    let graph = change_if(
        !all_same(a.pipes@, b.pipes@) || !all_same(a.buses@, b.buses@),
        PlanChangeKind::UpdateGraph,
        "graph"@,
        "update routing graph"@,
    );
    let routes = change_if(
        !all_same(a.routes@, b.routes@),
        PlanChangeKind::UpdateGraph,
        "routes"@,
        "update routes"@,
    );
    let chains = change_if(
        !all_same(a.processors@, b.processors@) || !all_same(
            a.processor_chains@,
            b.processor_chains@,
        ),
        PlanChangeKind::UpdateGraph,
        "processor_chains"@,
        "update processor chains"@,
    );
    let captures = change_if(
        !a.captures.same(b.captures),
        PlanChangeKind::UpdateGraph,
        "captures"@,
        "update captures"@,
    );
    let sinks = change_if(
        !a.sinks.same(b.sinks),
        PlanChangeKind::UpdateGraph,
        "sinks"@,
        "update sinks"@,
    );
    assert(s == audio + graph + routes + chains + captures + sinks);
    lemma_section_listed(a, b, "audio"@);
    lemma_section_listed(a, b, "graph"@);
    lemma_section_listed(a, b, "routes"@);
    lemma_section_listed(a, b, "processor_chains"@);
    lemma_section_listed(a, b, "captures"@);
    lemma_section_listed(a, b, "sinks"@);
    let one = audio;
    let two = one + graph;
    let three = two + routes;
    let four = three + chains;
    let five = four + captures;
    assert forall|t: Seq<char>| lists_section(s, t) <==> lists_section(audio, t) || lists_section(
        graph,
        t,
    ) || lists_section(routes, t) || lists_section(chains, t) || lists_section(captures, t)
        || lists_section(sinks, t) by {
        lemma_listed_joined(one, graph, t);
        lemma_listed_joined(two, routes, t);
        lemma_listed_joined(three, chains, t);
        lemma_listed_joined(four, captures, t);
        lemma_listed_joined(five, sinks, t);
    }
    lemma_listed_alone(audio, PlanChangeKind::UpdateAudioConfig, "audio"@);
    lemma_listed_alone(graph, PlanChangeKind::UpdateGraph, "graph"@);
    lemma_listed_alone(routes, PlanChangeKind::UpdateGraph, "routes"@);
    lemma_listed_alone(chains, PlanChangeKind::UpdateGraph, "processor_chains"@);
    lemma_listed_alone(captures, PlanChangeKind::UpdateGraph, "captures"@);
    lemma_listed_alone(sinks, PlanChangeKind::UpdateGraph, "sinks"@);
    assert("routes"@.len() == 6 && "processor_chains"@.len() == 16 && "captures"@.len() == 8);
    assert("audio"@.len() == 5 && "graph"@.len() == 5 && "sinks"@.len() == 5);
}

proof fn lemma_listed_joined(x: Seq<ChangeView>, y: Seq<ChangeView>, section: Seq<char>)
    ensures
        lists_section(x + y, section) <==> lists_section(x, section) || lists_section(y, section),
{
    if lists_section(x, section) {
        let i = choose|i: int|
            0 <= i < x.len() && ((#[trigger] x[i]).kind == PlanChangeKind::UpdateGraph || x[i].kind
                == PlanChangeKind::UpdateAudioConfig) && x[i].target == section;
        assert((x + y)[i] == x[i]);
    }
    if lists_section(y, section) {
        let i = choose|i: int|
            0 <= i < y.len() && ((#[trigger] y[i]).kind == PlanChangeKind::UpdateGraph || y[i].kind
                == PlanChangeKind::UpdateAudioConfig) && y[i].target == section;
        assert((x + y)[x.len() + i] == y[i]);
    }
    if lists_section(x + y, section) {
        let z = x + y;
        let i = choose|i: int|
            0 <= i < z.len() && ((#[trigger] z[i]).kind == PlanChangeKind::UpdateGraph || z[i].kind
                == PlanChangeKind::UpdateAudioConfig) && z[i].target == section;
        if i < x.len() {
            assert(x[i] == z[i]);
        } else {
            assert(y[i - x.len()] == z[i]);
        }
    }
}

proof fn lemma_listed_alone(x: Seq<ChangeView>, kind: PlanChangeKind, target: Seq<char>)
    requires
        kind == PlanChangeKind::UpdateGraph || kind == PlanChangeKind::UpdateAudioConfig,
        x.len() == 0 || (x.len() == 1 && x[0].kind == kind && x[0].target == target),
    ensures
        forall|t: Seq<char>| #[trigger] lists_section(x, t) <==> x.len() == 1 && t == target,
{
    if x.len() == 1 {
        assert(x[0].target == target);
    }
}

proof fn lemma_entry_of_output(p: Profile, i: int)
    requires
        0 <= i < p.virtual_devices.outputs@.len(),
        forall|j: int|
            0 <= j < p.virtual_devices.outputs@.len() && j != i ==> (
            #[trigger] p.virtual_devices.outputs@[j]).id@ != p.virtual_devices.outputs@[i].id@,
        forall|j: int|
            0 <= j < p.virtual_devices.inputs@.len() ==> (
            #[trigger] p.virtual_devices.inputs@[j]).id@ != p.virtual_devices.outputs@[i].id@,
    ensures
        entries(Some(p)).dom().contains(p.virtual_devices.outputs@[i].id@),
        entries(Some(p))[p.virtual_devices.outputs@[i].id@].name
            == p.virtual_devices.outputs@[i].name@,
        entries(Some(p))[p.virtual_devices.outputs@[i].id@].channels
            == match p.virtual_devices.outputs@[i].channels {
            Some(c) => c,
            None => default_channels(p),
        },
        entries(Some(p))[p.virtual_devices.outputs@[i].id@].uid
            == match p.virtual_devices.outputs@[i].uid {
            Some(uid) => uid@,
            None => "com.mars.vout."@ + p.virtual_devices.outputs@[i].id@,
        },
{
    let devices = virtual_devices(p, default_channels(p));
    let id = p.virtual_devices.outputs@[i].id@;
    let outputs = p.virtual_devices.outputs@;
    let inputs = p.virtual_devices.inputs@;
    lemma_entry_ids(p, id);
    assert(outputs[i].id@ == id);
    assert forall|j: int| 0 <= j < devices.len() && j != i implies (#[trigger] devices[j]).id != id by {
        if j < outputs.len() {
            assert(outputs[j].id@ != id);
        } else {
            assert(inputs[j - outputs.len()].id@ != id);
        }
    }
    lemma_only_place(devices, id, i, devices.len() as int);
}

/// A device with an id that no other has stands in one place.
pub proof fn lemma_only_place(devices: Seq<VirtualDeviceView>, id: Seq<char>, i: int, n: int)
    requires
        0 <= i < n <= devices.len(),
        devices[i].id == id,
        forall|j: int| 0 <= j < devices.len() && j != i ==> (#[trigger] devices[j]).id != id,
    ensures
        device_place(devices, id, n) == Some(i),
    decreases n,
{
    if i < n - 1 {
        assert(devices[n - 1].id != id);
        lemma_only_place(devices, id, i, n - 1);
    }
}

/// A virtual output that both profiles have, once each, is updated exactly where its name, its
/// uid or its number of channels differs.
pub proof fn law_changed_outputs_are_updated(a: Profile, b: Profile, i: int, k: int)
    requires
        0 <= i < a.virtual_devices.outputs@.len(),
        0 <= k < b.virtual_devices.outputs@.len(),
        a.virtual_devices.outputs@[i].id@ == b.virtual_devices.outputs@[k].id@,
        forall|j: int|
            0 <= j < a.virtual_devices.outputs@.len() && j != i ==> (
            #[trigger] a.virtual_devices.outputs@[j]).id@ != a.virtual_devices.outputs@[i].id@,
        forall|j: int|
            0 <= j < a.virtual_devices.inputs@.len() ==> (
            #[trigger] a.virtual_devices.inputs@[j]).id@ != a.virtual_devices.outputs@[i].id@,
        forall|j: int|
            0 <= j < b.virtual_devices.outputs@.len() && j != k ==> (
            #[trigger] b.virtual_devices.outputs@[j]).id@ != b.virtual_devices.outputs@[k].id@,
        forall|j: int|
            0 <= j < b.virtual_devices.inputs@.len() ==> (
            #[trigger] b.virtual_devices.inputs@[j]).id@ != b.virtual_devices.outputs@[k].id@,
    ensures
        ({
            let x = a.virtual_devices.outputs@[i];
            let y = b.virtual_devices.outputs@[k];
            let channels = |device: VirtualOutputDevice, p: Profile|
                match device.channels {
                    Some(c) => c,
                    None => default_channels(p),
                };
            let uid = |device: VirtualOutputDevice|
                match device.uid {
                    Some(uid) => uid@,
                    None => "com.mars.vout."@ + device.id@,
                };
            lists_change(
                profile_changes(Some(a), Some(b)),
                PlanChangeKind::UpdateDevice,
                x.id@,
            ) <==> x.name@ != y.name@ || channels(x, a) != channels(y, b) || uid(x) != uid(y)
        }),
{
    let id = a.virtual_devices.outputs@[i].id@;
    lemma_creations(a, b, id);
    lemma_entry_of_output(a, i);
    lemma_entry_of_output(b, k);
}

/// The first profile that is applied creates all of its devices and sets the graph up; taking
/// the last one away removes them and clears it.
pub proof fn law_first_and_last_profile(p: Profile, id: Seq<char>)
    requires
        (exists|i: int|
            0 <= i < p.virtual_devices.outputs@.len() && (
            #[trigger] p.virtual_devices.outputs@[i]).id@ == id) || (exists|i: int|
            0 <= i < p.virtual_devices.inputs@.len() && (
            #[trigger] p.virtual_devices.inputs@[i]).id@ == id),
    ensures
        lists_change(profile_changes(None, Some(p)), PlanChangeKind::CreateDevice, id),
        lists_change(profile_changes(Some(p), None), PlanChangeKind::RemoveDevice, id),
        profile_changes(None, Some(p)).last() == (ChangeView {
            kind: PlanChangeKind::UpdateGraph,
            target: "graph"@,
            details: "initialize routing graph"@,
        }),
        profile_changes(Some(p), None).last() == (ChangeView {
            kind: PlanChangeKind::UpdateGraph,
            target: "graph"@,
            details: "clear routing graph"@,
        }),
{
    lemma_entry_ids(p, id);
    lemma_entries_ordered(p);
    let all = entries(Some(p));
    let none = entries(None);
    let ids = ordered(all.dom());
    assert(ids.to_set().contains(id));
    let i = ids.index_of(id);
    assert(ids[i] == id);
    let keep = |k: int| appears_or_differs(none, all, ids[k]);
    let drop = |k: int| !none.dom().contains(ids[k]);
    lemma_kept(keep, ids.len() as int);
    lemma_kept(drop, ids.len() as int);
    assert(keep(i) && drop(i));
    let kept_ids = kept(keep, ids.len() as int);
    let dropped = kept(drop, ids.len() as int);
    assert(kept_ids.contains(i));
    assert(dropped.contains(i));
    let news = appearances(none, all);
    let up = profile_changes(None, Some(p));
    assert(news[kept_ids.index_of(i)] == appearance(none, all, id));
    assert(up[kept_ids.index_of(i)] == appearance(none, all, id));
    let gone = appearances(all, none);
    let olds = removals(all, none);
    let down = profile_changes(Some(p), None);
    assert(olds[dropped.index_of(i)] == removal(all, id));
    assert(down[gone.len() + dropped.index_of(i)] == removal(all, id));
    let up_sections = section_changes(None, Some(p));
    let down_sections = section_changes(Some(p), None);
    assert(up.last() == up_sections.last());
    assert(down.last() == down_sections.last());
}

/// A plan without `no_delete` lists every device that the profile before it has and the new one
/// has not as removed, and with it lists none as removed.
pub proof fn law_plan_changes(
    previous: Profile,
    next: Profile,
    no_delete: bool,
    warnings: Vec<String>,
    r: ApplyPlan,
    i: int,
    k: int,
)
    requires
        call_ensures(plan_changes, (Some(&previous), &next, no_delete, warnings), r),
        0 <= i < previous.virtual_devices.outputs@.len(),
        forall|j: int|
            0 <= j < next.virtual_devices.outputs@.len() ==> (
            #[trigger] next.virtual_devices.outputs@[j]).id@
                != previous.virtual_devices.outputs@[i].id@,
        forall|j: int|
            0 <= j < next.virtual_devices.inputs@.len() ==> (
            #[trigger] next.virtual_devices.inputs@[j]).id@
                != previous.virtual_devices.outputs@[i].id@,
    ensures
        r.warnings == warnings,
        r.changes@.len() > 0,
        !no_delete ==> exists|n: int|
            0 <= n < r.changes@.len() && (#[trigger] r.changes@[n]).kind
                == PlanChangeKind::RemoveDevice && r.changes@[n].target@
                == previous.virtual_devices.outputs@[i].id@,
        no_delete && 0 <= k < r.changes@.len() ==> r.changes@[k].kind
            != PlanChangeKind::RemoveDevice,
{
    let id = previous.virtual_devices.outputs@[i].id@;
    let listed = views(r.changes@);
    assert(listed.len() == r.changes@.len());
    law_plan_says_something(Some(previous), next, no_delete);
    if !no_delete {
        assert(previous.virtual_devices.outputs@[i].id@ == id);
        law_dropped_device_is_removed(previous, next, id);
        let n = choose|n: int|
            0 <= n < listed.len() && (#[trigger] listed[n]).kind == PlanChangeKind::RemoveDevice
                && listed[n].target == id;
        assert(r.changes@[n]@ == listed[n]);
    } else {
        law_no_delete_removes_nothing(Some(previous), next);
        if 0 <= k < r.changes@.len() {
            assert(r.changes@[k]@ == listed[k]);
        }
    }
}

/// A profile that is merged with the one before it keeps its own devices and, behind them, those
/// of the other that it has not; all else stays its own.
pub proof fn law_merge_previous_devices(previous: Profile, next: Profile, r: Profile, i: int)
    requires
        call_ensures(merge_previous_devices, (&previous, next), r),
    ensures
        r.pipes == next.pipes && r.routes == next.routes && r.audio == next.audio && r.buses
            == next.buses && r.external == next.external && r.captures == next.captures && r.sinks
            == next.sinks && r.processors == next.processors && r.processor_chains
            == next.processor_chains,
        0 <= i < next.virtual_devices.outputs@.len() ==> r.virtual_devices.outputs@[i]
            == next.virtual_devices.outputs@[i],
        0 <= i < next.virtual_devices.inputs@.len() ==> r.virtual_devices.inputs@[i]
            == next.virtual_devices.inputs@[i],
        0 <= i < previous.virtual_devices.outputs@.len() && (forall|j: int|
            0 <= j < next.virtual_devices.outputs@.len() ==> (
            #[trigger] next.virtual_devices.outputs@[j]).id@
                != previous.virtual_devices.outputs@[i].id@) ==> r.virtual_devices.outputs@.contains(
            previous.virtual_devices.outputs@[i],
        ),
        0 <= i < previous.virtual_devices.inputs@.len() && (forall|j: int|
            0 <= j < next.virtual_devices.inputs@.len() ==> (
            #[trigger] next.virtual_devices.inputs@[j]).id@
                != previous.virtual_devices.inputs@[i].id@) ==> r.virtual_devices.inputs@.contains(
            previous.virtual_devices.inputs@[i],
        ),
        r.virtual_devices.outputs@.len() <= next.virtual_devices.outputs@.len()
            + previous.virtual_devices.outputs@.len(),
{
    let outputs = previous.virtual_devices.outputs@;
    let inputs = previous.virtual_devices.inputs@;
    let drop_output = |k: int|
        forall|j: int|
            0 <= j < next.virtual_devices.outputs@.len() ==> (
            #[trigger] next.virtual_devices.outputs@[j]).id@
                != previous.virtual_devices.outputs@[k].id@;
    let drop_input = |k: int|
        forall|j: int|
            0 <= j < next.virtual_devices.inputs@.len() ==> (
            #[trigger] next.virtual_devices.inputs@[j]).id@
                != previous.virtual_devices.inputs@[k].id@;
    lemma_kept(drop_output, outputs.len() as int);
    lemma_kept(drop_input, inputs.len() as int);
    let a = dropped_outputs(previous, next);
    let b = dropped_inputs(previous, next);
    if 0 <= i < outputs.len() && drop_output(i) {
        assert(a.contains(i));
        let k = next.virtual_devices.outputs@.len() + a.index_of(i);
        assert(r.virtual_devices.outputs@[k] == outputs[i]);
    }
    if 0 <= i < inputs.len() && drop_input(i) {
        assert(b.contains(i));
        let k = next.virtual_devices.inputs@.len() + b.index_of(i);
        assert(r.virtual_devices.inputs@[k] == inputs[i]);
    }
}

} // verus!
