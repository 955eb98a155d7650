//! Feedback: audio that would come back through the device it went out by.

use crate::devices::{DeviceDescriptor, DeviceView};
use crate::graph::{arrows_of, RoutingGraph};
use crate::profile::NodeKind;
use crate::sequences::{kept, lemma_kept, lemma_views_push, views};
use crate::string_map::{ordered, StringMap};
use crate::topology::{connected, Arrow};
use vstd::prelude::*;
use vstd::string::*;

verus! {

broadcast use lemma_views_push;

/// A way along the arrows, over any number of them.
pub open spec fn is_path(arrows: Seq<Arrow>, path: Seq<Seq<char>>) -> bool {
    path.len() >= 1 && forall|i: int|
        0 <= i < path.len() - 1 ==> connected(arrows, #[trigger] path[i], path[i + 1])
}

/// Whether a way leads from one node to another.
pub open spec fn reachable(arrows: Seq<Arrow>, from: Seq<char>, to: Seq<char>) -> bool {
    exists|path: Seq<Seq<char>>| #[trigger]
        is_path(arrows, path) && path.first() == from && path.last() == to
}

/// Whether a way leads from some start to some target.
pub open spec fn some_path(
    arrows: Seq<Arrow>,
    starts: Seq<Seq<char>>,
    targets: Seq<Seq<char>>,
) -> bool {
    exists|i: int, j: int|
        0 <= i < starts.len() && 0 <= j < targets.len() && reachable(
            arrows,
            #[trigger] starts[i],
            #[trigger] targets[j],
        )
}

/// Whether a node is reached from some start.
pub open spec fn reached_from(arrows: Seq<Arrow>, starts: Seq<Seq<char>>, node: Seq<char>) -> bool {
    exists|i: int| 0 <= i < starts.len() && reachable(arrows, #[trigger] starts[i], node)
}

proof fn lemma_reach_extends(
    arrows: Seq<Arrow>,
    starts: Seq<Seq<char>>,
    a: Seq<char>,
    b: Seq<char>,
)
    requires
        reached_from(arrows, starts, a),
        connected(arrows, a, b),
    ensures
        reached_from(arrows, starts, b),
{
    let i = choose|i: int| 0 <= i < starts.len() && reachable(arrows, #[trigger] starts[i], a);
    let path = choose|path: Seq<Seq<char>>| #[trigger]
        is_path(arrows, path) && path.first() == starts[i] && path.last() == a;
    let longer = path.push(b);
    assert forall|k: int| 0 <= k < longer.len() - 1 implies connected(
        arrows,
        #[trigger] longer[k],
        longer[k + 1],
    ) by {
        if k < path.len() - 1 {
            assert(connected(arrows, path[k], path[k + 1]));
        }
    }
    assert(is_path(arrows, longer));
    assert(reachable(arrows, starts[i], b));
}

proof fn lemma_closed_set_holds_paths(
    arrows: Seq<Arrow>,
    set: Set<Seq<char>>,
    path: Seq<Seq<char>>,
    n: int,
)
    requires
        forall|e: int|
            0 <= e < arrows.len() && set.contains((#[trigger] arrows[e]).from) ==> set.contains(
                arrows[e].to,
            ),
        is_path(arrows, path),
        set.contains(path.first()),
        0 <= n < path.len(),
    ensures
        set.contains(path[n]),
    decreases n,
{
    if n > 0 {
        lemma_closed_set_holds_paths(arrows, set, path, n - 1);
        assert(connected(arrows, path[n - 1], path[n - 1 + 1]));
    }
}

/// How many of the first `n` arrows lead out of the set of reached nodes.
spec fn leading_out(arrows: Seq<Arrow>, set: Set<Seq<char>>, n: int) -> nat
    decreases n,
{
    if n <= 0 {
        0
    } else {
        leading_out(arrows, set, n - 1) + if set.contains(arrows[n - 1].to) {
            0nat
        } else {
            1nat
        }
    }
}

proof fn lemma_leading_out_shrinks(
    arrows: Seq<Arrow>,
    set: Set<Seq<char>>,
    x: Seq<char>,
    e: int,
    n: int,
)
    requires
        0 <= e < arrows.len(),
        0 <= n <= arrows.len(),
        arrows[e].to == x,
        !set.contains(x),
    ensures
        leading_out(arrows, set.insert(x), n) <= leading_out(arrows, set, n),
        e < n ==> leading_out(arrows, set.insert(x), n) < leading_out(arrows, set, n),
    decreases n,
{
    if n > 0 {
        lemma_leading_out_shrinks(arrows, set, x, e, n - 1);
    }
}

/// Whether the graph leads from some start to some target.
pub fn path_exists_between_nodes(
    graph: &RoutingGraph,
    starts: &Vec<String>,
    targets: &Vec<String>,
) -> (r: bool)
    ensures
        r == some_path(arrows_of(graph.edges@), views(starts@), views(targets@)),
{
    let ghost arrows = arrows_of(graph.edges@);
    let ghost from = views(starts@);
    let edges = &graph.edges;
    let mut reached: StringMap<()> = StringMap::new();
    let mut i: usize = 0;
    while i < starts.len()
        invariant
            i <= starts.len(),
            from == views(starts@),
            reached.wf(),
            forall|k: int| 0 <= k < i ==> reached@.dom().contains(#[trigger] from[k]),
            forall|id: Seq<char>| #[trigger]
                reached@.dom().contains(id) ==> reached_from(arrows, from, id),
        decreases starts.len() - i,
    {
        proof {
            let path = seq![starts@[i as int]@];
            assert(from[i as int] == starts@[i as int]@);
            assert(is_path(arrows, path));
            assert(path.first() == from[i as int] && path.last() == from[i as int]);
            assert(reachable(arrows, from[i as int], from[i as int]));
        }
        reached.insert(starts[i].clone(), ());
        i = i + 1;
    }
    let mut changed = true;
    while changed
        invariant
            arrows == arrows_of(edges@),
            from == views(starts@),
            reached.wf(),
            forall|k: int| 0 <= k < from.len() ==> reached@.dom().contains(#[trigger] from[k]),
            forall|id: Seq<char>| #[trigger]
                reached@.dom().contains(id) ==> reached_from(arrows, from, id),
            !changed ==> forall|e: int|
                0 <= e < arrows.len() && reached@.dom().contains((#[trigger] arrows[e]).from)
                    ==> reached@.dom().contains(arrows[e].to),
        decreases
            leading_out(arrows, reached@.dom(), arrows.len() as int),
            if changed {
                1int
            } else {
                0int
            },
    {
        changed = false;
        let ghost before = reached@.dom();
        let mut e: usize = 0;
        while e < edges.len()
            invariant
                e <= edges.len(),
                arrows == arrows_of(edges@),
                from == views(starts@),
                reached.wf(),
                forall|k: int| 0 <= k < from.len() ==> reached@.dom().contains(#[trigger] from[k]),
                forall|id: Seq<char>| #[trigger]
                    reached@.dom().contains(id) ==> reached_from(arrows, from, id),
                changed ==> leading_out(arrows, reached@.dom(), arrows.len() as int) < leading_out(
                    arrows,
                    before,
                    arrows.len() as int,
                ),
                !changed ==> reached@.dom() == before && forall|k: int|
                    0 <= k < e && reached@.dom().contains((#[trigger] arrows[k]).from)
                        ==> reached@.dom().contains(arrows[k].to),
            decreases edges.len() - e,
        {
            let edge = &edges[e];
            assert(arrows[e as int].from == edge.from@ && arrows[e as int].to == edge.to@);
            if reached.contains_key(edge.from.as_str()) && !reached.contains_key(
                edge.to.as_str(),
            ) {
                let ghost set = reached@.dom();
                reached.insert(edge.to.clone(), ());
                proof {
                    assert(connected(arrows, edge.from@, edge.to@));
                    lemma_reach_extends(arrows, from, edge.from@, edge.to@);
                    lemma_leading_out_shrinks(arrows, set, edge.to@, e as int, arrows.len() as int);
                    assert(reached@.dom() =~= set.insert(edge.to@));
                }
                changed = true;
            }
            e = e + 1;
        }
    }
    let mut j: usize = 0;
    while j < targets.len()
        invariant
            j <= targets.len(),
            arrows == arrows_of(graph.edges@),
            reached.wf(),
            from == views(starts@),
            forall|id: Seq<char>| #[trigger]
                reached@.dom().contains(id) ==> reached_from(arrows, from, id),
            forall|k: int| 0 <= k < j ==> !reached@.dom().contains(#[trigger] views(targets@)[k]),
        decreases targets.len() - j,
    {
        if reached.contains_key(targets[j].as_str()) {
            proof {
                let target = views(targets@)[j as int];
                assert(reached_from(arrows, from, target));
                let i = choose|i: int|
                    0 <= i < from.len() && reachable(arrows, #[trigger] from[i], target);
                assert(reachable(arrows, from[i], views(targets@)[j as int]));
            }
            return true;
        }
        assert(views(targets@)[j as int] == targets@[j as int]@);
        j = j + 1;
    }
    proof {
        if some_path(arrows, from, views(targets@)) {
            let (i, j) = choose|i: int, j: int|
                0 <= i < from.len() && 0 <= j < views(targets@).len() && reachable(
                    arrows,
                    #[trigger] from[i],
                    #[trigger] views(targets@)[j],
                );
            let path = choose|path: Seq<Seq<char>>| #[trigger]
                is_path(arrows, path) && path.first() == from[i] && path.last() == views(
                    targets@,
                )[j];
            lemma_closed_set_holds_paths(arrows, reached@.dom(), path, path.len() - 1);
            assert(false);
        }
    }
    false
}

// ---------------------------------------------------------------------------
// Notes

/// The ids of the devices of a kind with a uid, in their order.
pub open spec fn ids_with_uid(devices: Seq<DeviceView>, kind: NodeKind, uid: Seq<char>) -> Seq<
    Seq<char>,
> {
    kept(
        |i: int| devices[i].kind == kind && devices[i].uid == uid,
        devices.len() as int,
    ).map_values(|i: int| devices[i].id)
}

/// The uids of the external inputs.
pub open spec fn input_uids(devices: Seq<DeviceView>) -> Set<Seq<char>> {
    Set::new(
        |uid: Seq<char>|
            exists|i: int|
                0 <= i < devices.len() && (#[trigger] devices[i]).kind == NodeKind::ExternalInput
                    && devices[i].uid == uid,
    )
}

/// Whether audio that comes in by a device goes out by a device with the same uid.
pub open spec fn feeds_back(arrows: Seq<Arrow>, devices: Seq<DeviceView>, uid: Seq<char>) -> bool {
    some_path(
        arrows,
        ids_with_uid(devices, NodeKind::ExternalInput, uid),
        ids_with_uid(devices, NodeKind::ExternalOutput, uid),
    )
}

/// The warning about a device.
pub open spec fn feedback_note(uid: Seq<char>) -> Seq<char> {
    "potential feedback risk detected: external input/output share uid '"@ + uid
        + "' and graph routes input to output"@
}

/// The warnings, in the order of uids.
pub open spec fn feedback_notes(arrows: Seq<Arrow>, devices: Seq<DeviceView>) -> Seq<Seq<char>> {
    let uids = ordered(input_uids(devices));
    kept(|i: int| feeds_back(arrows, devices, uids[i]), uids.len() as int).map_values(
        |i: int| feedback_note(uids[i]),
    )
}

fn list_ids(devices: &Vec<DeviceDescriptor>, kind: NodeKind, uid: &String) -> (r: Vec<String>)
    ensures
        views(r@) == ids_with_uid(views(devices@), kind, uid@),
{
    let ghost all = views(devices@);
    let ghost keep = |i: int| all[i].kind == kind && all[i].uid == uid@;
    let ghost at = |i: int| all[i].id;
    let mut r: Vec<String> = Vec::new();
    assert(views(r@) =~= kept(keep, 0).map_values(at));
    let mut i: usize = 0;
    while i < devices.len()
        invariant
            i <= devices.len(),
            all == views(devices@),
            keep == |i: int| all[i].kind == kind && all[i].uid == uid@,
            at == |i: int| all[i].id,
            views(r@) == kept(keep, i as int).map_values(at),
        decreases devices.len() - i,
    {
        assert(all[i as int] == devices@[i as int]@);
        if devices[i].kind == kind && devices[i].uid == *uid {
            r.push(devices[i].id.clone());
        }
        proof {
            assert(kept(keep, i + 1).map_values(at) =~= if keep(i as int) {
                kept(keep, i as int).map_values(at).push(all[i as int].id)
            } else {
                kept(keep, i as int).map_values(at)
            });
        }
        i = i + 1;
    }
    r
}

/// Warns of each device through which audio would come back; nothing without a graph.
pub fn feedback_risk_notes(graph: Option<&RoutingGraph>, devices: &Vec<DeviceDescriptor>) -> (r:
    Vec<String>)
    ensures
        views(r@) == (match graph {
            None => Seq::<Seq<char>>::empty(),
            Some(g) => feedback_notes(arrows_of(g.edges@), views(devices@)),
        }),
{
    let mut notes: Vec<String> = Vec::new();
    assert(views(notes@) =~= Seq::<Seq<char>>::empty());
    match graph {
        None => {},
        Some(graph) => {
            let ghost all = views(devices@);
            let ghost arrows = arrows_of(graph.edges@);
            let mut uids: StringMap<()> = StringMap::new();
            let mut i: usize = 0;
            while i < devices.len()
                invariant
                    i <= devices.len(),
                    all == views(devices@),
                    uids.wf(),
                    forall|uid: Seq<char>| #[trigger]
                        uids@.dom().contains(uid) <==> exists|k: int|
                            0 <= k < i && (#[trigger] all[k]).kind == NodeKind::ExternalInput
                                && all[k].uid == uid,
                decreases devices.len() - i,
            {
                let ghost before = uids@.dom();
                assert(all[i as int] == devices@[i as int]@);
                if devices[i].kind == NodeKind::ExternalInput {
                    uids.insert(devices[i].uid.clone(), ());
                }
                proof {
                    assert forall|uid: Seq<char>| #[trigger]
                        uids@.dom().contains(uid) <==> exists|k: int|
                            0 <= k < i + 1 && (#[trigger] all[k]).kind == NodeKind::ExternalInput
                                && all[k].uid == uid by {
                        if before.contains(uid) {
                            let k = choose|k: int|
                                0 <= k < i && (#[trigger] all[k]).kind == NodeKind::ExternalInput
                                    && all[k].uid == uid;
                            assert(all[k].uid == uid);
                        }
                        if all[i as int].kind == NodeKind::ExternalInput && all[i as int].uid
                            == uid {
                            assert(uids@.dom().contains(uid));
                        }
                    }
                }
                i = i + 1;
            }
            proof {
                assert(uids@.dom() =~= input_uids(all));
                uids.lemma_keys_ordered();
            }
            let ghost keys = uids.keys();
            let ghost keep = |i: int| feeds_back(arrows, all, keys[i]);
            let ghost at = |i: int| feedback_note(keys[i]);
            assert(views(notes@) =~= kept(keep, 0).map_values(at));
            i = 0;
            while i < uids.len()
                invariant
                    i <= uids.keys().len(),
                    all == views(devices@),
                    arrows == arrows_of(graph.edges@),
                    uids.wf(),
                    keys == uids.keys(),
                    keep == |i: int| feeds_back(arrows, all, keys[i]),
                    at == |i: int| feedback_note(keys[i]),
                    views(notes@) == kept(keep, i as int).map_values(at),
                decreases uids.keys().len() - i,
            {
                let uid = uids.key_at(i);
                let inputs = list_ids(devices, NodeKind::ExternalInput, uid);
                let outputs = list_ids(devices, NodeKind::ExternalOutput, uid);
                if path_exists_between_nodes(graph, &inputs, &outputs) {
                    let mut note = String::from_str(
                        "potential feedback risk detected: external input/output share uid '",
                    );
                    note.append(uid.as_str());
                    note.append("' and graph routes input to output");
                    notes.push(note);
                }
                proof {
                    assert(kept(keep, i + 1).map_values(at) =~= if keep(i as int) {
                        kept(keep, i as int).map_values(at).push(at(i as int))
                    } else {
                        kept(keep, i as int).map_values(at)
                    });
                }
                i = i + 1;
            }
        },
    }
    notes
}

/// A node is reached from itself, and what a reached node is connected to is reached too.
pub proof fn law_reaching_follows_connections(
    arrows: Seq<Arrow>,
    from: Seq<char>,
    node: Seq<char>,
    next: Seq<char>,
)
    ensures
        reachable(arrows, from, from),
        reachable(arrows, from, node) && (exists|e: int|
            0 <= e < arrows.len() && (#[trigger] arrows[e]).from == node && arrows[e].to == next)
            ==> reachable(arrows, from, next),
        arrows.len() == 0 && reachable(arrows, from, node) ==> from == node,
{
    let alone = seq![from];
    assert(is_path(arrows, alone));
    if reachable(arrows, from, node) {
        let path = choose|path: Seq<Seq<char>>| #[trigger]
            is_path(arrows, path) && path.first() == from && path.last() == node;
        if connected(arrows, node, next) {
            let longer = path.push(next);
            assert forall|i: int| 0 <= i < longer.len() - 1 implies connected(
                arrows,
                #[trigger] longer[i],
                longer[i + 1],
            ) by {
                if i < path.len() - 1 {
                    assert(connected(arrows, path[i], path[i + 1]));
                }
            }
            assert(is_path(arrows, longer));
            assert(longer.first() == from && longer.last() == next);
        }
        if arrows.len() == 0 && path.len() > 1 {
            assert(connected(arrows, path[0], path[1]));
        }
    }
}

/// A path leads from some of the nodes to some of the others exactly where one of the latter is
/// reached from one of the former.
pub proof fn law_paths_are_found(
    graph: RoutingGraph,
    starts: Vec<String>,
    targets: Vec<String>,
    r: bool,
    i: int,
    j: int,
)
    requires
        call_ensures(path_exists_between_nodes, (&graph, &starts, &targets), r),
        0 <= i < starts@.len(),
        0 <= j < targets@.len(),
    ensures
        reachable(arrows_of(graph.edges@), starts@[i]@, targets@[j]@) ==> r,
        starts@[i]@ == targets@[j]@ ==> r,
        (forall|a: int, b: int|
            #![trigger starts@[a], targets@[b]]
            0 <= a < starts@.len() && 0 <= b < targets@.len() ==> !reachable(
                arrows_of(graph.edges@),
                starts@[a]@,
                targets@[b]@,
            )) ==> !r,
{
    let arrows = arrows_of(graph.edges@);
    let from = views(starts@);
    let to = views(targets@);
    assert(from[i] == starts@[i]@ && to[j] == targets@[j]@);
    law_reaching_follows_connections(arrows, from[i], from[i], from[i]);
    if r {
        let (a, b) = choose|a: int, b: int|
            0 <= a < from.len() && 0 <= b < to.len() && reachable(
                arrows,
                #[trigger] from[a],
                #[trigger] to[b],
            );
        assert(from[a] == starts@[a]@ && to[b] == targets@[b]@);
    }
}

/// A device whose output its own input can be heard on is warned of, and only such a one: there
/// are an external input and an external output of one uid, and audio leads from the one to the
/// other.
pub proof fn law_feedback_is_warned_of(
    arrows: Seq<Arrow>,
    devices: Seq<DeviceView>,
    i: int,
    j: int,
    k: int,
)
    requires
        0 <= i < devices.len(),
        0 <= j < devices.len(),
        devices[i].kind == NodeKind::ExternalInput,
        devices[j].kind == NodeKind::ExternalOutput,
        devices[i].uid == devices[j].uid,
    ensures
        reachable(arrows, devices[i].id, devices[j].id) ==> feedback_notes(
            arrows,
            devices,
        ).contains(
            "potential feedback risk detected: external input/output share uid '"@ + devices[i].uid
                + "' and graph routes input to output"@,
        ),
        0 <= k < feedback_notes(arrows, devices).len() ==> exists|a: int, b: int|
            #![trigger devices[a], devices[b]]
            {
                &&& 0 <= a < devices.len()
                &&& 0 <= b < devices.len()
                &&& devices[a].kind == NodeKind::ExternalInput
                &&& devices[b].kind == NodeKind::ExternalOutput
                &&& devices[a].uid == devices[b].uid
                &&& reachable(arrows, devices[a].id, devices[b].id)
                &&& feedback_notes(arrows, devices)[k]
                    == "potential feedback risk detected: external input/output share uid '"@
                    + devices[a].uid + "' and graph routes input to output"@
            },
{
    let set = input_uids(devices);
    let uids = ordered(set);
    lemma_input_uids_ordered(devices);
    let keep = |n: int| feeds_back(arrows, devices, uids[n]);
    lemma_kept(keep, uids.len() as int);
    let places = kept(keep, uids.len() as int);
    let notes = feedback_notes(arrows, devices);
    let uid = devices[i].uid;
    if reachable(arrows, devices[i].id, devices[j].id) {
        assert(set.contains(uid));
        assert(uids.to_set().contains(uid));
        let n = uids.index_of(uid);
        lemma_id_listed(devices, NodeKind::ExternalInput, uid, i);
        lemma_id_listed(devices, NodeKind::ExternalOutput, uid, j);
        let ins = ids_with_uid(devices, NodeKind::ExternalInput, uid);
        let outs = ids_with_uid(devices, NodeKind::ExternalOutput, uid);
        let a = ins.index_of(devices[i].id);
        let b = outs.index_of(devices[j].id);
        assert(reachable(arrows, ins[a], outs[b]));
        assert(keep(n));
        assert(places.contains(n));
        assert(notes[places.index_of(n)] == feedback_note(uid));
    }
    if 0 <= k < notes.len() {
        let n = places[k];
        assert(keep(n));
        let which = uids[n];
        let ins = ids_with_uid(devices, NodeKind::ExternalInput, which);
        let outs = ids_with_uid(devices, NodeKind::ExternalOutput, which);
        let (a, b) = choose|a: int, b: int|
            0 <= a < ins.len() && 0 <= b < outs.len() && reachable(
                arrows,
                #[trigger] ins[a],
                #[trigger] outs[b],
            );
        let x = lemma_listed_id(devices, NodeKind::ExternalInput, which, a);
        let y = lemma_listed_id(devices, NodeKind::ExternalOutput, which, b);
        assert(devices[x].uid == which && devices[y].uid == which);
    }
}

proof fn lemma_id_listed(devices: Seq<DeviceView>, kind: NodeKind, uid: Seq<char>, i: int)
    requires
        0 <= i < devices.len(),
        devices[i].kind == kind,
        devices[i].uid == uid,
    ensures
        ids_with_uid(devices, kind, uid).contains(devices[i].id),
{
    let keep = |k: int| devices[k].kind == kind && devices[k].uid == uid;
    lemma_kept(keep, devices.len() as int);
    let places = kept(keep, devices.len() as int);
    assert(keep(i));
    assert(places.contains(i));
    assert(ids_with_uid(devices, kind, uid)[places.index_of(i)] == devices[i].id);
}

proof fn lemma_listed_id(devices: Seq<DeviceView>, kind: NodeKind, uid: Seq<char>, k: int) -> (i:
    int)
    requires
        0 <= k < ids_with_uid(devices, kind, uid).len(),
    ensures
        0 <= i < devices.len(),
        devices[i].kind == kind,
        devices[i].uid == uid,
        devices[i].id == ids_with_uid(devices, kind, uid)[k],
{
    let keep = |k: int| devices[k].kind == kind && devices[k].uid == uid;
    lemma_kept(keep, devices.len() as int);
    let places = kept(keep, devices.len() as int);
    assert(keep(places[k]));
    places[k]
}

proof fn lemma_input_uids_ordered(devices: Seq<DeviceView>)
    ensures
        ordered(input_uids(devices)).to_set() == input_uids(devices),
{
    let set = input_uids(devices);
    let keep = |k: int| devices[k].kind == NodeKind::ExternalInput;
    lemma_kept(keep, devices.len() as int);
    let places = kept(keep, devices.len() as int);
    let list = places.map_values(|k: int| devices[k].uid);
    assert forall|uid: Seq<char>| #[trigger] set.contains(uid) <==> list.to_set().contains(uid) by {
        if set.contains(uid) {
            let i = choose|i: int|
                0 <= i < devices.len() && (#[trigger] devices[i]).kind == NodeKind::ExternalInput
                    && devices[i].uid == uid;
            assert(keep(i));
            assert(places.contains(i));
            assert(list[places.index_of(i)] == uid);
        }
        if list.to_set().contains(uid) {
            let k = list.index_of(uid);
            assert(keep(places[k]));
            assert(devices[places[k]].uid == uid);
        }
    }
    assert(set =~= list.to_set());
    crate::string_map::lemma_arrangement_exists(list);
    let keys = choose|s: Seq<Seq<char>>|
        crate::string_map::strictly_increasing(s) && s.to_set() == list.to_set();
    assert(crate::string_map::strictly_increasing(keys) && keys.to_set() == set);
}

} // verus!
