//! Vocabulary for statements about lists: first failures, kept places, last places.

use vstd::prelude::*;

verus! {

/// The first outcome among `f(i), .., f(n - 1)`.
pub open spec fn first_some<E>(f: spec_fn(int) -> Option<E>, i: int, n: int) -> Option<E>
    decreases n - i,
{
    if i >= n {
        None
    } else {
        match f(i) {
            Some(e) => Some(e),
            None => first_some(f, i + 1, n),
        }
    }
}

/// There is no outcome exactly where no place gives one.
pub proof fn lemma_first_some_none<E>(f: spec_fn(int) -> Option<E>, i: int, n: int)
    ensures
        first_some(f, i, n) is None <==> (forall|k: int| i <= k < n ==> (#[trigger] f(k)) is None),
    decreases n - i,
{
    if i < n {
        lemma_first_some_none(f, i + 1, n);
    }
}

/// The places below `n` that are kept, in order.
pub open spec fn kept(keep: spec_fn(int) -> bool, n: int) -> Seq<int>
    decreases n,
{
    if n <= 0 {
        Seq::empty()
    } else if keep(n - 1) {
        kept(keep, n - 1).push(n - 1)
    } else {
        kept(keep, n - 1)
    }
}

/// The kept places are places that are kept, in increasing order, and none is missing.
pub proof fn lemma_kept(keep: spec_fn(int) -> bool, n: int)
    ensures
        forall|k: int| 0 <= k < kept(keep, n).len() ==> 0 <= #[trigger] kept(keep, n)[k] < n,
        forall|k: int| 0 <= k < kept(keep, n).len() ==> keep(#[trigger] kept(keep, n)[k]),
        forall|j: int, k: int|
            0 <= j < k < kept(keep, n).len() ==> #[trigger] kept(keep, n)[j] < #[trigger] kept(
                keep,
                n,
            )[k],
        forall|i: int| 0 <= i < n && keep(i) ==> #[trigger] kept(keep, n).contains(i),
        kept(keep, n).len() <= if n < 0 {
            0
        } else {
            n
        },
    decreases n,
{
    if n > 0 {
        lemma_kept(keep, n - 1);
        assert forall|i: int| 0 <= i < n && keep(i) implies #[trigger] kept(keep, n).contains(
            i,
        ) by {
            if i == n - 1 {
                assert(kept(keep, n)[kept(keep, n).len() - 1] == i);
            } else {
                assert(kept(keep, n - 1).contains(i));
                let k = kept(keep, n - 1).index_of(i);
                assert(kept(keep, n)[k] == i);
            }
        }
    }
}

/// The last place below `n` with a property.
pub open spec fn last_place(p: spec_fn(int) -> bool, n: int) -> Option<int>
    decreases n,
{
    if n <= 0 {
        None
    } else if p(n - 1) {
        Some(n - 1)
    } else {
        last_place(p, n - 1)
    }
}

/// The last place has the property, and no later one has it.
pub proof fn lemma_last_place(p: spec_fn(int) -> bool, n: int)
    ensures
        last_place(p, n) is None <==> (forall|i: int| 0 <= i < n ==> !#[trigger] p(i)),
        last_place(p, n) matches Some(k) ==> 0 <= k < n && p(k) && (forall|i: int|
            k < i < n ==> !#[trigger] p(i)),
    decreases n,
{
    if n > 0 {
        lemma_last_place(p, n - 1);
    }
}

/// The first place below `n`, from `i` on, with a property.
pub open spec fn first_place(p: spec_fn(int) -> bool, i: int, n: int) -> Option<int>
    decreases n - i,
{
    if i >= n {
        None
    } else if p(i) {
        Some(i)
    } else {
        first_place(p, i + 1, n)
    }
}

/// The views of a list.
pub open spec fn views<T: View>(list: Seq<T>) -> Seq<T::V> {
    Seq::new(list.len(), |i: int| list[i]@)
}

/// A longer list has one view more.
pub broadcast proof fn lemma_views_push<T: View>(list: Seq<T>, x: T)
    ensures
        #[trigger] views(list.push(x)) == views(list).push(x@),
{
    assert(views(list.push(x)) =~= views(list).push(x@));
}

/// The views of two lists put together.
pub proof fn lemma_views_append<T: View>(a: Seq<T>, b: Seq<T>)
    ensures
        views(a + b) == views(a) + views(b),
{
    assert(views(a + b) =~= views(a) + views(b));
}

/// Whether a relation orders things, leaving some of them level with each other.
pub open spec fn weak_order<T>(before: spec_fn(T, T) -> bool) -> bool {
    &&& forall|x: T, y: T| #[trigger] before(x, y) ==> !before(y, x)
    &&& forall|x: T, y: T, z: T|
        #[trigger] before(x, y) && !#[trigger] before(z, y) ==> before(x, z)
}

/// Whether nothing stands behind something that it comes before.
pub open spec fn in_order<T>(list: Seq<T>, before: spec_fn(T, T) -> bool) -> bool {
    forall|i: int, j: int|
        0 <= i < j < list.len() ==> !before(#[trigger] list[j], #[trigger] list[i])
}

/// Puts a thing into a list in order, behind those level with it.
pub open spec fn placed<T>(list: Seq<T>, x: T, before: spec_fn(T, T) -> bool) -> Seq<T> {
    let n = list.len() as int;
    kept(|i: int| !before(x, list[i]), n).map_values(|i: int| list[i]).push(x) + kept(
        |i: int| before(x, list[i]),
        n,
    ).map_values(|i: int| list[i])
}

/// The list in order; things that are level keep their order.
pub open spec fn stably_sorted<T>(list: Seq<T>, before: spec_fn(T, T) -> bool) -> Seq<T>
    decreases list.len(),
{
    if list.len() == 0 {
        Seq::empty()
    } else {
        placed(stably_sorted(list.drop_last(), before), list.last(), before)
    }
}

proof fn lemma_kept_prefix(keep: spec_fn(int) -> bool, place: int, n: int)
    requires
        0 <= place <= n,
        forall|i: int| 0 <= i < n ==> (#[trigger] keep(i) <==> i < place),
    ensures
        kept(keep, n) == Seq::new(place as nat, |i: int| i),
    decreases n,
{
    if n > 0 {
        if place == n {
            lemma_kept_prefix(keep, place - 1, n - 1);
        } else {
            lemma_kept_prefix(keep, place, n - 1);
        }
    }
    assert(kept(keep, n) =~= Seq::new(place as nat, |i: int| i));
}

proof fn lemma_kept_suffix(keep: spec_fn(int) -> bool, place: int, n: int)
    requires
        0 <= place <= n,
        forall|i: int| 0 <= i < n ==> (#[trigger] keep(i) <==> i >= place),
    ensures
        kept(keep, n) == Seq::new((n - place) as nat, |i: int| place + i),
    decreases n,
{
    if n > place {
        lemma_kept_suffix(keep, place, n - 1);
    } else {
        lemma_kept(keep, n);
        if kept(keep, n).len() > 0 {
            assert(keep(kept(keep, n)[0]));
        }
    }
    assert(kept(keep, n) =~= Seq::new((n - place) as nat, |i: int| place + i));
}

/// In a list in order, placing a thing is an insertion, and the list stays in order.
pub proof fn lemma_placed<T>(list: Seq<T>, x: T, before: spec_fn(T, T) -> bool, place: int)
    requires
        weak_order(before),
        in_order(list, before),
        0 <= place <= list.len(),
        forall|i: int| 0 <= i < place ==> !before(x, #[trigger] list[i]),
        place < list.len() ==> before(x, list[place]),
    ensures
        placed(list, x, before) == list.insert(place, x),
        in_order(list.insert(place, x), before),
{
    let n = list.len() as int;
    assert forall|i: int| place <= i < n implies before(x, #[trigger] list[i]) by {
        if i > place {
            assert(!before(list[i], list[place]));
        }
    }
    lemma_kept_prefix(|i: int| !before(x, list[i]), place, n);
    lemma_kept_suffix(|i: int| before(x, list[i]), place, n);
    assert(placed(list, x, before) =~= list.insert(place, x));
    let grown = list.insert(place, x);
    assert forall|i: int, j: int| 0 <= i < j < grown.len() implies !before(
        #[trigger] grown[j],
        #[trigger] grown[i],
    ) by {
        if i == place {
            assert(before(x, list[j - 1]));
        } else if j == place {
            assert(grown[i] == list[i]);
        } else {
            let pi = if i < place { i } else { i - 1 };
            let pj = if j < place { j } else { j - 1 };
            assert(grown[i] == list[pi] && grown[j] == list[pj]);
        }
    }
}

/// The place that a thing takes in a list.
pub proof fn lemma_place_of<T>(list: Seq<T>, x: T, before: spec_fn(T, T) -> bool, from: int) -> (place:
    int)
    requires
        0 <= from <= list.len(),
        forall|i: int| 0 <= i < from ==> !before(x, #[trigger] list[i]),
    ensures
        0 <= place <= list.len(),
        forall|i: int| 0 <= i < place ==> !before(x, #[trigger] list[i]),
        place < list.len() ==> before(x, list[place]),
    decreases list.len() - from,
{
    if from == list.len() || before(x, list[from]) {
        from
    } else {
        lemma_place_of(list, x, before, from + 1)
    }
}

/// Sorting puts a list in order and keeps what it holds.
pub proof fn lemma_stably_sorted<T>(list: Seq<T>, before: spec_fn(T, T) -> bool)
    requires
        weak_order(before),
    ensures
        in_order(stably_sorted(list, before), before),
        stably_sorted(list, before).len() == list.len(),
        stably_sorted(list, before).to_multiset() == list.to_multiset(),
    decreases list.len(),
{
    if list.len() > 0 {
        let rest = stably_sorted(list.drop_last(), before);
        lemma_stably_sorted(list.drop_last(), before);
        let place = lemma_place_of(rest, list.last(), before, 0);
        lemma_placed(rest, list.last(), before, place);
        vstd::seq_lib::to_multiset_insert(rest, place, list.last());
        assert(list =~= list.drop_last().push(list.last()));
        vstd::seq_lib::to_multiset_build(list.drop_last(), list.last());
    } else {
        assert(list =~= Seq::empty());
    }
}

/// The lists `f(0), .., f(n - 1)`, one behind the other.
pub open spec fn joined<T>(f: spec_fn(int) -> Seq<T>, n: int) -> Seq<T>
    decreases n,
{
    if n <= 0 {
        Seq::empty()
    } else {
        joined(f, n - 1) + f(n - 1)
    }
}

/// What is kept depends on the places alone.
pub proof fn lemma_kept_same(a: spec_fn(int) -> bool, b: spec_fn(int) -> bool, n: int)
    requires
        forall|k: int| 0 <= k < n ==> #[trigger] a(k) == b(k),
    ensures
        kept(a, n) == kept(b, n),
    decreases n,
{
    if n > 0 {
        assert(a(n - 1) == b(n - 1));
        lemma_kept_same(a, b, n - 1);
    }
}

/// The same outcomes at all places give the same first outcome.
pub proof fn lemma_first_some_same<E>(
    f: spec_fn(int) -> Option<E>,
    g: spec_fn(int) -> Option<E>,
    i: int,
    n: int,
)
    requires
        forall|k: int| i <= k < n ==> #[trigger] f(k) == g(k),
    ensures
        first_some(f, i, n) == first_some(g, i, n),
    decreases n - i,
{
    if i < n {
        assert(f(i) == g(i));
        lemma_first_some_same(f, g, i + 1, n);
    }
}

} // verus!
