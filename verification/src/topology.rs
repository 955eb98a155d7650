//! The order in which the nodes of a graph are processed.

use crate::string_map::{lemma_increasing_places, strictly_increasing};
use crate::text::text_less;
use vstd::prelude::*;

verus! {

/// A connection, by the names of the nodes that it leads from and to.
pub struct Arrow {
    pub from: Seq<char>,
    pub to: Seq<char>,
}

/// Whether some arrow leads from `a` to `b`.
pub open spec fn connected(arrows: Seq<Arrow>, a: Seq<char>, b: Seq<char>) -> bool {
    exists|e: int| 0 <= e < arrows.len() && (#[trigger] arrows[e]).from == a && arrows[e].to == b
}

/// A walk along the arrows, over at least one of them.
pub open spec fn is_walk(arrows: Seq<Arrow>, walk: Seq<Seq<char>>) -> bool {
    walk.len() >= 2 && forall|i: int|
        0 <= i < walk.len() - 1 ==> connected(arrows, #[trigger] walk[i], walk[i + 1])
}

/// Whether some walk returns to where it began.
pub open spec fn has_cycle(arrows: Seq<Arrow>) -> bool {
    exists|walk: Seq<Seq<char>>| #[trigger] is_walk(arrows, walk) && walk.first() == walk.last()
}

/// Whether a node can be processed once those in `done` are: it is not among them, and
/// everything that leads to it is.
pub open spec fn is_ready(
    nodes: Seq<Seq<char>>,
    arrows: Seq<Arrow>,
    done: Seq<Seq<char>>,
    id: Seq<char>,
) -> bool {
    &&& nodes.contains(id)
    &&& !done.contains(id)
    &&& forall|e: int|
        0 <= e < arrows.len() && (#[trigger] arrows[e]).to == id ==> done.contains(arrows[e].from)
}

/// Every node once, each as soon as everything that leads to it stands before it, and of
/// those that are ready always the first by name.
pub open spec fn smallest_first_order(
    nodes: Seq<Seq<char>>,
    arrows: Seq<Arrow>,
    order: Seq<Seq<char>>,
) -> bool {
    &&& order.len() == nodes.len()
    &&& forall|k: int|
        0 <= k < order.len() ==> is_ready(nodes, arrows, order.take(k), #[trigger] order[k])
    &&& forall|k: int, id: Seq<char>|
        0 <= k < order.len() && #[trigger] is_ready(nodes, arrows, order.take(k), id) ==> id
            == order[k] || text_less(order[k], id)
}

/// Whether every arrow joins two of the nodes.
pub open spec fn arrows_join(nodes: Seq<Seq<char>>, arrows: Seq<Arrow>) -> bool {
    forall|e: int|
        0 <= e < arrows.len() ==> nodes.contains((#[trigger] arrows[e]).from) && nodes.contains(
            arrows[e].to,
        )
}

/// An arrow by the places of its two nodes.
pub open spec fn places_match(
    nodes: Seq<Seq<char>>,
    arrows: Seq<Arrow>,
    links: Seq<(usize, usize)>,
) -> bool {
    &&& links.len() == arrows.len()
    &&& forall|e: int|
        0 <= e < links.len() ==> {
            &&& (#[trigger] links[e]).0 < nodes.len()
            &&& links[e].1 < nodes.len()
            &&& nodes[links[e].0 as int] == arrows[e].from
            &&& nodes[links[e].1 as int] == arrows[e].to
        }
}

/// How many of the first `n` links lead to `j` from a place that is not done.
spec fn pending(links: Seq<(usize, usize)>, done: Seq<bool>, j: int, n: int) -> nat
    decreases n,
{
    if n <= 0 {
        0
    } else {
        pending(links, done, j, n - 1) + if links[n - 1].1 == j && !done[links[n - 1].0 as int] {
            1nat
        } else {
            0nat
        }
    }
}

proof fn lemma_pending_bound(links: Seq<(usize, usize)>, done: Seq<bool>, j: int, n: int)
    requires
        0 <= n,
    ensures
        pending(links, done, j, n) <= n,
    decreases n,
{
    if n > 0 {
        lemma_pending_bound(links, done, j, n - 1);
    }
}

proof fn lemma_pending_zero(links: Seq<(usize, usize)>, done: Seq<bool>, j: int, n: int)
    requires
        0 <= n <= links.len(),
    ensures
        pending(links, done, j, n) == 0 <==> (forall|e: int|
            0 <= e < n && (#[trigger] links[e]).1 == j ==> done[links[e].0 as int]),
    decreases n,
{
    if n > 0 {
        lemma_pending_zero(links, done, j, n - 1);
    }
}

proof fn lemma_pending_monotone(links: Seq<(usize, usize)>, done: Seq<bool>, j: int, m: int, n: int)
    requires
        0 <= m <= n,
    ensures
        pending(links, done, j, m) <= pending(links, done, j, n),
    decreases n,
{
    if m < n {
        lemma_pending_monotone(links, done, j, m, n - 1);
    }
}

/// The places that are marked, as names in the order in which they were marked.
spec fn marks_match(nodes: Seq<Seq<char>>, done: Seq<bool>, order: Seq<usize>) -> bool {
    &&& done.len() == nodes.len()
    &&& forall|k: int| 0 <= k < order.len() ==> (#[trigger] order[k]) < nodes.len()
    &&& forall|k: int| 0 <= k < order.len() ==> done[(#[trigger] order[k]) as int]
    &&& forall|i: int|
        0 <= i < done.len() && #[trigger] done[i] ==> exists|k: int|
            0 <= k < order.len() && order[k] == i
    &&& forall|j: int, k: int| 0 <= j < k < order.len() ==> order[j] != order[k]
}

spec fn names_of(nodes: Seq<Seq<char>>, order: Seq<usize>) -> Seq<Seq<char>> {
    Seq::new(order.len(), |k: int| nodes[order[k] as int])
}

proof fn lemma_done_names(nodes: Seq<Seq<char>>, done: Seq<bool>, order: Seq<usize>, i: int)
    requires
        strictly_increasing(nodes),
        marks_match(nodes, done, order),
        0 <= i < nodes.len(),
    ensures
        names_of(nodes, order).contains(nodes[i]) <==> done[i],
{
    let names = names_of(nodes, order);
    if done[i] {
        let k = choose|k: int| 0 <= k < order.len() && order[k] == i;
        assert(names[k] == nodes[i]);
    }
    if names.contains(nodes[i]) {
        let k = names.index_of(nodes[i]);
        assert(names[k] == nodes[i]);
        assert(names[k] == nodes[order[k] as int]);
        lemma_increasing_places(nodes, order[k] as int, i);
        assert(done[order[k] as int]);
    }
}

/// Readiness of the node at a place, over marks.
proof fn lemma_ready_by_marks(
    nodes: Seq<Seq<char>>,
    arrows: Seq<Arrow>,
    links: Seq<(usize, usize)>,
    done: Seq<bool>,
    order: Seq<usize>,
    i: int,
)
    requires
        strictly_increasing(nodes),
        places_match(nodes, arrows, links),
        marks_match(nodes, done, order),
        0 <= i < nodes.len(),
    ensures
        is_ready(nodes, arrows, names_of(nodes, order), nodes[i]) <==> !done[i] && pending(
            links,
            done,
            i,
            links.len() as int,
        ) == 0,
{
    let names = names_of(nodes, order);
    lemma_done_names(nodes, done, order, i);
    lemma_pending_zero(links, done, i, links.len() as int);
    assert(nodes.contains(nodes[i]));
    if is_ready(nodes, arrows, names, nodes[i]) {
        assert forall|e: int| 0 <= e < links.len() && (#[trigger] links[e]).1 == i implies
            done[links[e].0 as int] by {
            assert(arrows[e].to == nodes[i]);
            lemma_done_names(nodes, done, order, links[e].0 as int);
        }
    }
    if !done[i] && pending(links, done, i, links.len() as int) == 0 {
        assert forall|e: int| 0 <= e < arrows.len() && (#[trigger] arrows[e]).to
            == nodes[i] implies names.contains(arrows[e].from) by {
            let link = links[e];
            lemma_increasing_places(nodes, link.1 as int, i);
            lemma_done_names(nodes, done, order, link.0 as int);
        }
    }
}

/// A link that leads to `j` from a place that is not done.
spec fn open_link(links: Seq<(usize, usize)>, done: Seq<bool>, j: int) -> int {
    choose|e: int|
        0 <= e < links.len() && (#[trigger] links[e]).1 == j && !done[links[e].0 as int]
}

/// Where no node that is left is ready, going backwards along the arrows never leaves
/// those that are left.
spec fn backward_walk(links: Seq<(usize, usize)>, done: Seq<bool>, start: int, n: nat) -> Seq<int>
    decreases n,
{
    if n == 0 {
        seq![start]
    } else {
        let rest = backward_walk(links, done, start, (n - 1) as nat);
        let e = open_link(links, done, rest.first());
        seq![links[e].0 as int] + rest
    }
}

proof fn lemma_backward_walk(
    nodes: Seq<Seq<char>>,
    arrows: Seq<Arrow>,
    links: Seq<(usize, usize)>,
    done: Seq<bool>,
    start: int,
    n: nat,
)
    requires
        places_match(nodes, arrows, links),
        done.len() == nodes.len(),
        0 <= start < nodes.len(),
        !done[start],
        forall|i: int|
            0 <= i < done.len() && !done[i] ==> pending(links, done, i, links.len() as int) != 0,
    ensures
        backward_walk(links, done, start, n).len() == n + 1,
        forall|k: int|
            0 <= k < n + 1 ==> 0 <= #[trigger] backward_walk(links, done, start, n)[k]
                < nodes.len(),
        !done[backward_walk(links, done, start, n).first()],
        forall|k: int|
            0 <= k < n ==> connected(
                arrows,
                nodes[#[trigger] backward_walk(links, done, start, n)[k]],
                nodes[backward_walk(links, done, start, n)[k + 1]],
            ),
    decreases n,
{
    if n > 0 {
        lemma_backward_walk(nodes, arrows, links, done, start, (n - 1) as nat);
        let rest = backward_walk(links, done, start, (n - 1) as nat);
        let first = rest.first();
        lemma_pending_zero(links, done, first, links.len() as int);
        assert(exists|e: int|
            0 <= e < links.len() && (#[trigger] links[e]).1 == first && !done[links[e].0 as int]);
        let e = open_link(links, done, first);
        let walk = backward_walk(links, done, start, n);
        assert(walk == seq![links[e].0 as int] + rest);
        assert forall|k: int| 0 <= k < n implies connected(
            arrows,
            nodes[#[trigger] walk[k]],
            nodes[walk[k + 1]],
        ) by {
            if k == 0 {
                assert(arrows[e].from == nodes[walk[0]]);
                assert(arrows[e].to == nodes[walk[1]]);
            } else {
                assert(walk[k] == rest[k - 1]);
                assert(walk[k + 1] == rest[k]);
            }
        }
        assert forall|k: int| 0 <= k < n + 1 implies 0 <= #[trigger] walk[k] < nodes.len() by {
            if k > 0 {
                assert(walk[k] == rest[k - 1]);
            }
        }
    }
}

/// More places than there are numbers below `n`: some number occurs twice.
proof fn lemma_pigeonhole(s: Seq<int>, n: nat) -> (r: (int, int))
    requires
        s.len() > n,
        forall|k: int| 0 <= k < s.len() ==> #[trigger] s[k] < n && s[k] >= 0,
    ensures
        0 <= r.0 < r.1 < s.len(),
        s[r.0] == s[r.1],
    decreases n,
{
    if n == 0 {
        assert(s[0] < n && s[0] >= 0);
        (0, 1)
    } else {
        let last = s.len() - 1;
        if exists|k: int| 0 <= k < last && s[k] == s[last] {
            let k = choose|k: int| 0 <= k < last && s[k] == s[last];
            (k, last)
        } else {
            // Rename the value n - 1 to that of the last place, which then occurs nowhere else.
            let v = s[last];
            let t = Seq::new(
                last as nat,
                |k: int|
                    if s[k] == n - 1 {
                        v
                    } else {
                        s[k]
                    },
            );
            assert forall|k: int| 0 <= k < t.len() implies #[trigger] t[k] < n - 1 && t[k] >= 0 by {
                assert(s[k] != v);
            }
            let r = lemma_pigeonhole(t, (n - 1) as nat);
            assert(s[r.0] != v && s[r.1] != v);
            r
        }
    }
}

proof fn lemma_stuck_has_cycle(
    nodes: Seq<Seq<char>>,
    arrows: Seq<Arrow>,
    links: Seq<(usize, usize)>,
    done: Seq<bool>,
    start: int,
)
    requires
        places_match(nodes, arrows, links),
        done.len() == nodes.len(),
        0 <= start < nodes.len(),
        !done[start],
        forall|i: int|
            0 <= i < done.len() && !done[i] ==> pending(links, done, i, links.len() as int) != 0,
    ensures
        has_cycle(arrows),
{
    let n = nodes.len();
    let walk = backward_walk(links, done, start, n);
    lemma_backward_walk(nodes, arrows, links, done, start, n);
    let (a, b) = lemma_pigeonhole(walk, n);
    let cycle = Seq::new((b - a + 1) as nat, |k: int| nodes[walk[a + k]]);
    assert forall|i: int| 0 <= i < cycle.len() - 1 implies connected(
        arrows,
        #[trigger] cycle[i],
        cycle[i + 1],
    ) by {
        assert(cycle[i] == nodes[walk[a + i]]);
        assert(cycle[i + 1] == nodes[walk[a + i + 1]]);
    }
    assert(is_walk(arrows, cycle));
    assert(cycle.first() == cycle.last());
}

/// Along a walk the places in the order increase.
proof fn lemma_walk_goes_forward(
    nodes: Seq<Seq<char>>,
    arrows: Seq<Arrow>,
    order: Seq<Seq<char>>,
    walk: Seq<Seq<char>>,
    i: int,
) -> (p: (int, int))
    requires
        smallest_first_order(nodes, arrows, order),
        forall|id: Seq<char>| nodes.contains(id) ==> order.contains(id),
        arrows_join(nodes, arrows),
        is_walk(arrows, walk),
        0 < i < walk.len(),
    ensures
        0 <= p.0 < p.1 < order.len(),
        order[p.0] == walk[0],
        order[p.1] == walk[i],
    decreases i,
{
    assert(connected(arrows, walk[i - 1], walk[i - 1 + 1]));
    let e = choose|e: int|
        0 <= e < arrows.len() && (#[trigger] arrows[e]).from == walk[i - 1] && arrows[e].to
            == walk[i];
    assert(nodes.contains(arrows[e].to));
    assert(order.contains(walk[i]));
    let b = order.index_of(walk[i]);
    assert(order[b] == walk[i]);
    assert(is_ready(nodes, arrows, order.take(b), order[b]));
    assert(order.take(b).contains(arrows[e].from));
    let a = order.take(b).index_of(arrows[e].from);
    assert(order.take(b)[a] == arrows[e].from);
    assert(order[a] == walk[i - 1]);
    if i == 1 {
        (a, b)
    } else {
        let (first, prev) = lemma_walk_goes_forward(nodes, arrows, order, walk, i - 1);
        lemma_order_distinct(nodes, arrows, order, prev, a);
        (first, b)
    }
}

/// No node stands twice in the order.
pub proof fn lemma_order_distinct(
    nodes: Seq<Seq<char>>,
    arrows: Seq<Arrow>,
    order: Seq<Seq<char>>,
    a: int,
    b: int,
)
    requires
        smallest_first_order(nodes, arrows, order),
        0 <= a < order.len(),
        0 <= b < order.len(),
        order[a] == order[b],
    ensures
        a == b,
{
    if a < b {
        assert(is_ready(nodes, arrows, order.take(b), order[b]));
        assert(order.take(b)[a] == order[a]);
    }
    if b < a {
        assert(is_ready(nodes, arrows, order.take(a), order[a]));
        assert(order.take(a)[b] == order[b]);
    }
}

/// The order holds every node: each of the two lists is a rearrangement of the other.
pub proof fn lemma_order_complete(
    nodes: Seq<Seq<char>>,
    arrows: Seq<Arrow>,
    order: Seq<Seq<char>>,
    id: Seq<char>,
)
    requires
        strictly_increasing(nodes),
        smallest_first_order(nodes, arrows, order),
    ensures
        nodes.contains(id) <==> order.contains(id),
{
    if order.contains(id) {
        let k = order.index_of(id);
        assert(order[k] == id);
        assert(is_ready(nodes, arrows, order.take(k), order[k]));
    }
    if nodes.contains(id) && !order.contains(id) {
        // All places of the order lie among the other nodes, which are one fewer.
        let p = nodes.index_of(id);
        let n = nodes.len();
        let places = Seq::new(
            n,
            |k: int|
                {
                    let i = nodes.index_of(order[k]);
                    if i < p {
                        i
                    } else {
                        i - 1
                    }
                },
        );
        assert forall|k: int| 0 <= k < places.len() implies 0 <= #[trigger] places[k] < n - 1 by {
            assert(is_ready(nodes, arrows, order.take(k), order[k]));
            let i = nodes.index_of(order[k]);
            assert(nodes[i] == order[k]);
            assert(order.contains(order[k]));
        }
        let (a, b) = lemma_pigeonhole(places, (n - 1) as nat);
        assert(is_ready(nodes, arrows, order.take(a), order[a]));
        assert(is_ready(nodes, arrows, order.take(b), order[b]));
        assert(nodes[nodes.index_of(order[a])] == order[a]);
        assert(nodes[nodes.index_of(order[b])] == order[b]);
        assert(order.contains(order[a]));
        assert(order.contains(order[b]));
        assert(nodes.index_of(order[a]) == nodes.index_of(order[b]));
        lemma_order_distinct(nodes, arrows, order, a, b);
    }
}

/// A graph whose nodes can be put in order has no cycle.
pub proof fn lemma_order_excludes_cycle(
    nodes: Seq<Seq<char>>,
    arrows: Seq<Arrow>,
    order: Seq<Seq<char>>,
)
    requires
        strictly_increasing(nodes),
        arrows_join(nodes, arrows),
        smallest_first_order(nodes, arrows, order),
    ensures
        !has_cycle(arrows),
{
    assert forall|id: Seq<char>| nodes.contains(id) implies order.contains(id) by {
        lemma_order_complete(nodes, arrows, order, id);
    }
    if has_cycle(arrows) {
        let walk = choose|walk: Seq<Seq<char>>| #[trigger]
            is_walk(arrows, walk) && walk.first() == walk.last();
        let (a, b) = lemma_walk_goes_forward(nodes, arrows, order, walk, walk.len() - 1);
        lemma_order_distinct(nodes, arrows, order, a, b);
    }
}

/// Every arrow leads forward in the order.
pub proof fn lemma_order_forward(
    nodes: Seq<Seq<char>>,
    arrows: Seq<Arrow>,
    order: Seq<Seq<char>>,
    a: int,
    b: int,
)
    requires
        smallest_first_order(nodes, arrows, order),
        0 <= a < order.len(),
        0 <= b < order.len(),
        connected(arrows, order[a], order[b]),
    ensures
        a < b,
{
    let e = choose|e: int|
        0 <= e < arrows.len() && (#[trigger] arrows[e]).from == order[a] && arrows[e].to
            == order[b];
    assert(is_ready(nodes, arrows, order.take(b), order[b]));
    assert(order.take(b).contains(arrows[e].from));
    let k = order.take(b).index_of(order[a]);
    assert(order.take(b)[k] == order[k]);
    lemma_order_distinct(nodes, arrows, order, a, k);
}

/// The order is determined by the nodes and the arrows.
pub proof fn law_order_is_determined(
    nodes: Seq<Seq<char>>,
    arrows: Seq<Arrow>,
    a: Seq<Seq<char>>,
    b: Seq<Seq<char>>,
)
    requires
        smallest_first_order(nodes, arrows, a),
        smallest_first_order(nodes, arrows, b),
    ensures
        a == b,
{
    lemma_order_unique_prefix(nodes, arrows, a, b, a.len() as int);
    assert(a =~= a.take(a.len() as int));
    assert(b =~= b.take(a.len() as int));
}

proof fn lemma_order_unique_prefix(
    nodes: Seq<Seq<char>>,
    arrows: Seq<Arrow>,
    a: Seq<Seq<char>>,
    b: Seq<Seq<char>>,
    n: int,
)
    requires
        smallest_first_order(nodes, arrows, a),
        smallest_first_order(nodes, arrows, b),
        0 <= n <= a.len(),
    ensures
        a.take(n) == b.take(n),
    decreases n,
{
    if n > 0 {
        lemma_order_unique_prefix(nodes, arrows, a, b, n - 1);
        assert(is_ready(nodes, arrows, a.take(n - 1), a[n - 1]));
        assert(is_ready(nodes, arrows, b.take(n - 1), b[n - 1]));
        crate::text::lemma_text_less_total(a[n - 1], b[n - 1]);
        assert(a.take(n) =~= a.take(n - 1).push(a[n - 1]));
        assert(b.take(n) =~= b.take(n - 1).push(b[n - 1]));
    } else {
        assert(a.take(0) =~= b.take(0));
    }
}

/// Orders the places of the nodes; nothing where the arrows form a cycle.
pub(crate) fn order_places(
    count: usize,
    links: &Vec<(usize, usize)>,
    nodes: Ghost<Seq<Seq<char>>>,
    arrows: Ghost<Seq<Arrow>>,
) -> (r: Option<Vec<usize>>)
    requires
        count == nodes@.len(),
        strictly_increasing(nodes@),
        places_match(nodes@, arrows@, links@),
    ensures
        r is None <==> has_cycle(arrows@),
        r matches Some(order) ==> {
            &&& order@.len() == count
            &&& forall|k: int| 0 <= k < count ==> (#[trigger] order@[k]) < count
            &&& smallest_first_order(
                nodes@,
                arrows@,
                Seq::new(order@.len(), |k: int| nodes@[order@[k] as int]),
            )
        },
{
    let mut indegree: Vec<usize> = Vec::new();
    let mut done: Vec<bool> = Vec::new();
    let mut i: usize = 0;
    while i < count
        invariant
            i <= count,
            indegree@.len() == i,
            done@.len() == i,
            forall|j: int| 0 <= j < i ==> indegree@[j] == 0,
            forall|j: int| 0 <= j < i ==> !done@[j],
        decreases count - i,
    {
        indegree.push(0);
        done.push(false);
        i = i + 1;
    }
    let mut e: usize = 0;
    while e < links.len()
        invariant
            e <= links.len(),
            indegree@.len() == count,
            done@.len() == count,
            count == nodes@.len(),
            places_match(nodes@, arrows@, links@),
            forall|j: int| 0 <= j < count ==> !done@[j],
            forall|j: int| 0 <= j < count ==> #[trigger] indegree@[j] == pending(links@, done@, j, e as int),
        decreases links.len() - e,
    {
        let target = links[e].1;
        proof {
            lemma_pending_bound(links@, done@, target as int, e as int);
        }
        let degree: usize = indegree[target];
        indegree.set(target, degree + 1);
        e = e + 1;
    }
    let mut order: Vec<usize> = Vec::new();
    while order.len() < count
        invariant
            indegree@.len() == count,
            done@.len() == count,
            count == nodes@.len(),
            strictly_increasing(nodes@),
            places_match(nodes@, arrows@, links@),
            order@.len() <= count,
            marks_match(nodes@, done@, order@),
            forall|j: int| 0 <= j < count ==> #[trigger] indegree@[j] == pending(links@, done@, j, links@.len() as int),
            forall|k: int| 0 <= k < order@.len() ==> is_ready(
                nodes@,
                arrows@,
                names_of(nodes@, order@).take(k),
                #[trigger] names_of(nodes@, order@)[k],
            ),
            forall|k: int, id: Seq<char>|
                0 <= k < order@.len() && #[trigger] is_ready(
                    nodes@,
                    arrows@,
                    names_of(nodes@, order@).take(k),
                    id,
                ) ==> id == names_of(nodes@, order@)[k] || text_less(
                    names_of(nodes@, order@)[k],
                    id,
                ),
        decreases count - order.len(),
    {
        let mut next: usize = 0;
        while next < count && (done[next] || indegree[next] != 0)
            invariant
                next <= count,
                indegree@.len() == count,
                done@.len() == count,
                forall|j: int| 0 <= j < next ==> done@[j] || indegree@[j] != 0,
            decreases count - next,
        {
            next = next + 1;
        }
        if next == count {
            proof {
                // Fewer nodes are marked than there are, so one is left, and none is ready.
                if forall|j: int| 0 <= j < count ==> done@[j] {
                    let places = Seq::new(
                        count as nat,
                        |j: int| choose|k: int| 0 <= k < order@.len() && order@[k] == j,
                    );
                    assert forall|j: int| 0 <= j < places.len() implies 0 <= #[trigger] places[j]
                        < order@.len() by {
                        assert(done@[j]);
                    }
                    let (a, b) = lemma_pigeonhole(places, order@.len());
                    assert(done@[a]);
                    assert(done@[b]);
                    assert(order@[places[a]] == a);
                    assert(order@[places[b]] == b);
                    assert(false);
                }
                let start = choose|j: int| 0 <= j < count && !done@[j];
                lemma_stuck_has_cycle(nodes@, arrows@, links@, done@, start);
            }
            return None;
        }
        let ghost names = names_of(nodes@, order@);
        let ghost done_before = done@;
        let ghost order_before = order@;
        proof {
            lemma_ready_by_marks(nodes@, arrows@, links@, done@, order@, next as int);
            assert(is_ready(nodes@, arrows@, names, nodes@[next as int]));
            assert forall|id: Seq<char>| #[trigger] is_ready(
                nodes@,
                arrows@,
                names,
                id,
            ) implies id == nodes@[next as int] || text_less(nodes@[next as int], id) by {
                let j = nodes@.index_of(id);
                assert(nodes@[j] == id);
                lemma_ready_by_marks(nodes@, arrows@, links@, done@, order@, j);
                lemma_increasing_places(nodes@, next as int, j);
            }
        }
        order.push(next);
        done.set(next, true);
        let ghost done_after = done@;
        proof {
            assert(marks_match(nodes@, done@, order@)) by {
                assert forall|j: int| 0 <= j < done@.len() && #[trigger] done@[j] implies exists|
                    k: int,
                |
                    0 <= k < order@.len() && order@[k] == j by {
                    if j == next {
                        assert(order@[order@.len() - 1] == j);
                    } else {
                        assert(done_before[j]);
                        let k = choose|k: int| 0 <= k < order_before.len() && order_before[k] == j;
                        assert(order@[k] == j);
                    }
                }
            }
            let grown = names_of(nodes@, order@);
            assert(grown =~= names.push(nodes@[next as int]));
            assert forall|k: int| 0 <= k < order@.len() implies is_ready(
                nodes@,
                arrows@,
                grown.take(k),
                #[trigger] grown[k],
            ) by {
                assert(grown.take(k) =~= names.take(k));
                if k == names.len() {
                    assert(names.take(k) =~= names);
                } else {
                    assert(is_ready(nodes@, arrows@, names.take(k), names[k]));
                }
            }
            assert forall|k: int, id: Seq<char>|
                0 <= k < order@.len() && #[trigger] is_ready(
                    nodes@,
                    arrows@,
                    grown.take(k),
                    id,
                ) implies id == grown[k] || text_less(grown[k], id) by {
                assert(grown.take(k) =~= names.take(k));
                if k == names.len() {
                    assert(names.take(k) =~= names);
                } else {
                    assert(is_ready(nodes@, arrows@, names.take(k), id));
                }
            }
        }
        let mut e: usize = 0;
        while e < links.len()
            invariant
                e <= links.len(),
                next < count,
                indegree@.len() == count,
                done_before.len() == count,
                done_after == done_before.update(next as int, true),
                !done_before[next as int],
                count == nodes@.len(),
                places_match(nodes@, arrows@, links@),
                forall|j: int|
                    0 <= j < count ==> #[trigger] indegree@[j] == pending(links@, done_after, j, e as int)
                        + pending(links@, done_before, j, links@.len() as int) - pending(
                        links@,
                        done_before,
                        j,
                        e as int,
                    ),
            decreases links.len() - e,
        {
            if links[e].0 == next {
                let target = links[e].1;
                proof {
                    lemma_pending_monotone(
                        links@,
                        done_before,
                        target as int,
                        e as int + 1,
                        links@.len() as int,
                    );
                }
                let degree: usize = indegree[target];
                indegree.set(target, degree - 1);
            }
            e = e + 1;
        }
    }
    proof {
        let names = names_of(nodes@, order@);
        assert(names =~= Seq::new(order@.len(), |k: int| nodes@[order@[k] as int]));
        assert(smallest_first_order(nodes@, arrows@, names));
        assert(arrows_join(nodes@, arrows@)) by {
            assert forall|e: int| 0 <= e < arrows@.len() implies nodes@.contains(
                (#[trigger] arrows@[e]).from,
            ) && nodes@.contains(arrows@[e].to) by {
                let link = links@[e];
                assert(nodes@[link.0 as int] == arrows@[e].from);
                assert(nodes@[link.1 as int] == arrows@[e].to);
            }
        }
        lemma_order_excludes_cycle(nodes@, arrows@, names);
    }
    Some(order)
}

} // verus!
