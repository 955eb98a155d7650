//! A map from texts to values that keeps its keys in the order of texts.

use crate::text::{lemma_text_less_total, lemma_text_less_transitive, str_less, text_less};
use vstd::prelude::*;

verus! {

/// Entries in strictly increasing order of their keys.
#[derive(Debug, Clone)]
pub struct StringMap<V> {
    entries: Vec<(String, V)>,
}

/// Whether the texts stand in strictly increasing order.
pub open spec fn strictly_increasing(keys: Seq<Seq<char>>) -> bool {
    forall|i: int, j: int| 0 <= i < j < keys.len() ==> text_less(#[trigger] keys[i], #[trigger] keys[j])
}

/// Strictly increasing texts are distinct, and their places follow their order.
pub proof fn lemma_increasing_places(keys: Seq<Seq<char>>, i: int, j: int)
    requires
        strictly_increasing(keys),
        0 <= i < keys.len(),
        0 <= j < keys.len(),
    ensures
        keys[i] == keys[j] ==> i == j,
        text_less(keys[i], keys[j]) <==> i < j,
{
    lemma_text_less_total(keys[i], keys[j]);
    if i < j {
        assert(text_less(keys[i], keys[j]));
    }
    if j < i {
        assert(text_less(keys[j], keys[i]));
    }
}

/// The texts of a set in strictly increasing order.
pub open spec fn ordered(ids: Set<Seq<char>>) -> Seq<Seq<char>> {
    choose|s: Seq<Seq<char>>| strictly_increasing(s) && s.to_set() == ids
}

/// A set has one strictly increasing arrangement.
pub proof fn lemma_increasing_unique(a: Seq<Seq<char>>, b: Seq<Seq<char>>)
    requires
        strictly_increasing(a),
        strictly_increasing(b),
        a.to_set() == b.to_set(),
    ensures
        a == b,
{
    lemma_increasing_prefix(a, b, a.len() as int);
    lemma_increasing_prefix(b, a, b.len() as int);
    assert(a =~= b);
}

proof fn lemma_increasing_prefix(a: Seq<Seq<char>>, b: Seq<Seq<char>>, n: int)
    requires
        strictly_increasing(a),
        strictly_increasing(b),
        a.to_set() == b.to_set(),
        0 <= n <= a.len(),
    ensures
        n <= b.len(),
        forall|i: int| 0 <= i < n ==> a[i] == b[i],
    decreases n,
{
    if n > 0 {
        let m = n - 1;
        lemma_increasing_prefix(a, b, m);
        assert(a.to_set().contains(a[m]));
        assert(b.contains(a[m]));
        let j = b.index_of(a[m]);
        assert(b[j] == a[m]);
        if j < m {
            assert(a[j] == b[j]);
            lemma_increasing_places(a, j, m);
        }
        assert(m < b.len());
        assert(b.to_set().contains(b[m]));
        assert(a.contains(b[m]));
        let i = a.index_of(b[m]);
        assert(a[i] == b[m]);
        if i < m {
            assert(a[i] == b[i]);
            lemma_increasing_places(b, i, m);
        }
        lemma_increasing_places(b, m, j);
        lemma_increasing_places(a, m, i);
        lemma_text_less_total(a[m], b[m]);
    }
}

/// Any listed texts have a strictly increasing arrangement.
pub proof fn lemma_arrangement_exists(ids: Seq<Seq<char>>)
    ensures
        exists|s: Seq<Seq<char>>| strictly_increasing(s) && s.to_set() == ids.to_set(),
        strictly_increasing(ordered(ids.to_set())),
        ordered(ids.to_set()).to_set() == ids.to_set(),
    decreases ids.len(),
{
    if ids.len() == 0 {
        let s = Seq::<Seq<char>>::empty();
        assert(s.to_set() =~= ids.to_set());
        assert(strictly_increasing(s));
    } else {
        let x = ids.last();
        let rest = ids.drop_last();
        lemma_arrangement_exists(rest);
        let s = ordered(rest.to_set());
        assert(ids.to_set() =~= rest.to_set().insert(x)) by {
            assert(ids =~= rest.push(x));
            assert forall|y: Seq<char>| ids.to_set().contains(y) <==> rest.to_set().insert(
                x,
            ).contains(y) by {
                if rest.contains(y) {
                    let k = rest.index_of(y);
                    assert(ids[k] == y);
                }
                if ids.contains(y) && y != x {
                    let k = ids.index_of(y);
                    assert(rest[k] == y);
                }
                assert(ids[ids.len() - 1] == x);
            }
        }
        if s.contains(x) {
            assert(s.to_set() =~= ids.to_set());
        } else {
            let k = lemma_place_exists(s, x, s.len() as int);
            let t = s.insert(k, x);
            assert forall|a: int, b: int| 0 <= a < b < t.len() implies text_less(
                #[trigger] t[a],
                #[trigger] t[b],
            ) by {
                if a == k {
                    lemma_text_less_total(x, s[b - 1]);
                    assert(s.contains(s[b - 1]));
                } else if b == k {
                    assert(t[a] == s[a]);
                } else {
                    let pa = if a < k { a } else { a - 1 };
                    let pb = if b < k { b } else { b - 1 };
                    assert(t[a] == s[pa] && t[b] == s[pb]);
                }
            }
            assert forall|y: Seq<char>| t.to_set().contains(y) <==> ids.to_set().contains(y) by {
                if t.contains(y) && y != x {
                    let j = t.index_of(y);
                    let p = if j < k { j } else { j - 1 };
                    assert(s[p] == y);
                    assert(s.to_set().contains(y));
                }
                if s.to_set().contains(y) {
                    let p = s.index_of(y);
                    let j = if p < k { p } else { p + 1 };
                    assert(t[j] == y);
                }
                assert(t[k] == x);
            }
            assert(t.to_set() =~= ids.to_set());
        }
    }
}

proof fn lemma_place_exists(s: Seq<Seq<char>>, x: Seq<char>, n: int) -> (k: int)
    requires
        strictly_increasing(s),
        0 <= n <= s.len(),
    ensures
        0 <= k <= n,
        forall|i: int| 0 <= i < k ==> text_less(#[trigger] s[i], x),
        forall|i: int| k <= i < n ==> !text_less(#[trigger] s[i], x),
    decreases n,
{
    if n == 0 {
        0
    } else {
        let k = lemma_place_exists(s, x, n - 1);
        if text_less(s[n - 1], x) {
            assert forall|i: int| 0 <= i < n implies text_less(#[trigger] s[i], x) by {
                if i < n - 1 {
                    lemma_text_less_transitive(s[i], s[n - 1], x);
                }
            }
            n
        } else {
            k
        }
    }
}

impl<V> StringMap<V> {
    /// The keys are the ordered arrangement of the map's domain.
    pub proof fn lemma_keys_ordered(self)
        requires
            self.wf(),
        ensures
            self.keys() == ordered(self@.dom()),
            self.keys().to_set() == self@.dom(),
    {
        assert(self.keys().to_set() =~= self@.dom());
        let keys = self.keys();
        assert(strictly_increasing(keys) && keys.to_set() == self@.dom());
        lemma_increasing_unique(ordered(self@.dom()), keys);
    }

    /// The keys, in order.
    pub closed spec fn keys(self) -> Seq<Seq<char>> {
        Seq::new(self.entries@.len(), |i: int| self.entries@[i].0@)
    }

    /// The values, in the order of their keys.
    pub closed spec fn values(self) -> Seq<V> {
        Seq::new(self.entries@.len(), |i: int| self.entries@[i].1)
    }

    /// The keys stand in strictly increasing order, one value to each.
    pub open spec fn wf(self) -> bool {
        &&& strictly_increasing(self.keys())
        &&& self.keys().len() == self.values().len()
    }

    /// Whether the map has the key.
    pub open spec fn has(self, key: Seq<char>) -> bool {
        self.keys().contains(key)
    }

    /// The value that stands under the key.
    pub open spec fn at(self, key: Seq<char>) -> V {
        self.values()[self.keys().index_of(key)]
    }

    /// What the map assigns to each of its keys.
    pub open spec fn view(self) -> Map<Seq<char>, V> {
        Map::new(|k: Seq<char>| self.has(k), |k: Seq<char>| self.at(k))
    }

    /// The entry at a place is what the map holds under that key.
    pub proof fn lemma_entry(self, i: int)
        requires
            self.wf(),
            0 <= i < self.keys().len(),
        ensures
            self.has(self.keys()[i]),
            self.at(self.keys()[i]) == self.values()[i],
            self@.dom().contains(self.keys()[i]),
            self@[self.keys()[i]] == self.values()[i],
    {
        let key = self.keys()[i];
        assert(self.keys().contains(key));
        let j = self.keys().index_of(key);
        assert(self.keys()[j] == key);
        lemma_increasing_places(self.keys(), i, j);
    }

    /// An empty map.
    pub fn new() -> (r: StringMap<V>)
        ensures
            r.wf(),
            r.keys() == Seq::<Seq<char>>::empty(),
            r.values() == Seq::<V>::empty(),
            r@ == Map::<Seq<char>, V>::empty(),
    {
        let r = StringMap { entries: Vec::new() };
        assert(r.keys() =~= Seq::<Seq<char>>::empty());
        assert(r.values() =~= Seq::<V>::empty());
        assert(r@ =~= Map::<Seq<char>, V>::empty());
        r
    }

    /// The number of entries.
    pub fn len(&self) -> (r: usize)
        ensures
            r == self.keys().len(),
            r == self.values().len(),
    {
        self.entries.len()
    }

    /// The key at a place.
    pub fn key_at(&self, i: usize) -> (r: &String)
        requires
            i < self.keys().len(),
        ensures
            r@ == self.keys()[i as int],
    {
        &self.entries[i].0
    }

    /// The value at a place.
    pub fn value_at(&self, i: usize) -> (r: &V)
        requires
            i < self.keys().len(),
        ensures
            *r == self.values()[i as int],
    {
        &self.entries[i].1
    }

    /// The value at a place, to be changed there.
    pub fn value_mut(&mut self, i: usize) -> (r: &mut V)
        requires
            old(self).wf(),
            i < old(self).keys().len(),
        ensures
            *r == old(self).values()[i as int],
            final(self).keys() =~= old(self).keys(),
            final(self).values() =~= old(self).values().update(i as int, *final(r)),
    {
        &mut self.entries[i].1
    }

    /// The number of keys that stand before `key`.
    fn place(&self, key: &str) -> (r: usize)
        requires
            self.wf(),
        ensures
            r <= self.keys().len(),
            forall|i: int| 0 <= i < r ==> text_less(#[trigger] self.keys()[i], key@),
            forall|i: int| r <= i < self.keys().len() ==> !text_less(#[trigger] self.keys()[i], key@),
    {
        let mut i: usize = 0;
        while i < self.entries.len() && str_less(self.entries[i].0.as_str(), key)
            invariant
                self.wf(),
                i <= self.entries@.len(),
                forall|j: int| 0 <= j < i ==> text_less(#[trigger] self.keys()[j], key@),
            decreases self.entries.len() - i,
        {
            i = i + 1;
        }
        proof {
            assert forall|j: int| i <= j < self.keys().len() implies !text_less(
                #[trigger] self.keys()[j],
                key@,
            ) by {
                if text_less(self.keys()[j], key@) && i < j {
                    lemma_increasing_places(self.keys(), i as int, j);
                    lemma_text_less_transitive(self.keys()[i as int], self.keys()[j], key@);
                }
                assert(self.keys()[i as int] == self.entries@[i as int].0@);
            }
        }
        i
    }

    /// The place of `key`, where the map has it.
    pub fn find(&self, key: &str) -> (r: Option<usize>)
        requires
            self.wf(),
        ensures
            r is Some <==> self.has(key@),
            r matches Some(i) ==> i < self.keys().len() && self.keys()[i as int] == key@
                && self.values()[i as int] == self.at(key@) && self@[key@] == self.values()[i as int],
    {
        let i = self.place(key);
        if i < self.entries.len() && !str_less(key, self.entries[i].0.as_str()) {
            proof {
                lemma_text_less_total(key@, self.keys()[i as int]);
                assert(self.keys()[i as int] == self.entries@[i as int].0@);
                self.lemma_entry(i as int);
            }
            Some(i)
        } else {
            proof {
                if self.has(key@) {
                    let j = self.keys().index_of(key@);
                    assert(self.keys()[j] == key@);
                    lemma_text_less_total(key@, key@);
                    assert(j >= i);
                    assert(self.keys()[i as int] == self.entries@[i as int].0@);
                    if i < j {
                        lemma_increasing_places(self.keys(), i as int, j);
                    }
                }
            }
            None
        }
    }

    /// Whether the map has `key`.
    pub fn contains_key(&self, key: &str) -> (r: bool)
        requires
            self.wf(),
        ensures
            r == self.has(key@),
            r == self@.dom().contains(key@),
    {
        self.find(key).is_some()
    }

    /// The value under `key`.
    pub fn get(&self, key: &str) -> (r: Option<&V>)
        requires
            self.wf(),
        ensures
            r is Some <==> self@.dom().contains(key@),
            r matches Some(v) ==> *v == self@[key@],
    {
        match self.find(key) {
            Some(i) => Some(&self.entries[i].1),
            None => None,
        }
    }

    /// Puts `value` under `key`, in place of what stood there.
    pub fn insert(&mut self, key: String, value: V)
        requires
            old(self).wf(),
        ensures
            final(self).wf(),
            final(self)@ == old(self)@.insert(key@, value),
            final(self).keys().len() == old(self).keys().len() + if old(self).has(key@) {
                0int
            } else {
                1int
            },
    {
        let ghost before = *self;
        match self.find(key.as_str()) {
            Some(i) => {
                self.entries.set(i, (key, value));
                proof {
                    assert(self.keys() =~= before.keys());
                    assert(self.values() =~= before.values().update(i as int, value));
                    assert forall|k: Seq<char>| self.has(k) implies self.at(k) == before@.insert(
                        key@,
                        value,
                    )[k] by {
                        let j = self.keys().index_of(k);
                        assert(self.keys()[j] == k);
                        lemma_increasing_places(self.keys(), i as int, j);
                    }
                    assert(self@ =~= before@.insert(key@, value));
                }
            },
            None => {
                let i = self.place(key.as_str());
                let ghost k0 = key@;
                self.entries.insert(i, (key, value));
                proof {
                    assert(self.keys() =~= before.keys().insert(i as int, k0));
                    assert(self.values() =~= before.values().insert(i as int, value));
                    assert forall|a: int, b: int| 0 <= a < b < self.keys().len() implies text_less(
                        #[trigger] self.keys()[a],
                        #[trigger] self.keys()[b],
                    ) by {
                        let old_keys = before.keys();
                        if a == i {
                            assert(self.keys()[b] == old_keys[b - 1]);
                            lemma_text_less_total(k0, old_keys[b - 1]);
                            assert(old_keys.contains(old_keys[b - 1]));
                        } else if b == i {
                            assert(self.keys()[a] == old_keys[a]);
                        } else {
                            let pa = if a < i { a } else { a - 1 };
                            let pb = if b < i { b } else { b - 1 };
                            assert(self.keys()[a] == old_keys[pa]);
                            assert(self.keys()[b] == old_keys[pb]);
                        }
                    }
                    assert forall|k: Seq<char>| self.has(k) <==> before.has(k) || k == k0 by {
                        if self.has(k) {
                            let j = self.keys().index_of(k);
                            assert(self.keys()[j] == k);
                            if j != i {
                                let p = if j < i { j } else { j - 1 };
                                assert(before.keys()[p] == k);
                            }
                        }
                        if before.has(k) {
                            let p = before.keys().index_of(k);
                            assert(before.keys()[p] == k);
                            let j = if p < i { p } else { p + 1 };
                            assert(self.keys()[j] == k);
                        }
                        assert(self.keys()[i as int] == k0);
                    }
                    assert forall|k: Seq<char>| self.has(k) implies self.at(k) == before@.insert(
                        k0,
                        value,
                    )[k] by {
                        let j = self.keys().index_of(k);
                        assert(self.keys()[j] == k);
                        if j == i {
                            assert(k == k0);
                        } else {
                            let p = if j < i { j } else { j - 1 };
                            assert(before.keys()[p] == k);
                            before.lemma_entry(p);
                            assert(k != k0);
                        }
                    }
                    assert(self@ =~= before@.insert(k0, value));
                }
            },
        }
    }

    /// Takes out the entry under `key`.
    pub fn remove(&mut self, key: &str)
        requires
            old(self).wf(),
        ensures
            final(self).wf(),
            final(self)@ == old(self)@.remove(key@),
            final(self).keys().len() == old(self).keys().len() - if old(self).has(key@) {
                1int
            } else {
                0int
            },
    {
        let ghost before = *self;
        match self.find(key) {
            Some(i) => {
                self.entries.remove(i);
                proof {
                    assert(self.keys() =~= before.keys().remove(i as int));
                    assert(self.values() =~= before.values().remove(i as int));
                    assert forall|a: int, b: int| 0 <= a < b < self.keys().len() implies text_less(
                        #[trigger] self.keys()[a],
                        #[trigger] self.keys()[b],
                    ) by {
                        let pa = if a < i { a } else { a + 1 };
                        let pb = if b < i { b } else { b + 1 };
                        assert(self.keys()[a] == before.keys()[pa]);
                        assert(self.keys()[b] == before.keys()[pb]);
                    }
                    assert forall|k: Seq<char>| self.has(k) <==> before.has(k) && k != key@ by {
                        if self.has(k) {
                            let j = self.keys().index_of(k);
                            assert(self.keys()[j] == k);
                            let p = if j < i { j } else { j + 1 };
                            assert(before.keys()[p] == k);
                            lemma_increasing_places(before.keys(), p, i as int);
                        }
                        if before.has(k) && k != key@ {
                            let p = before.keys().index_of(k);
                            assert(before.keys()[p] == k);
                            let j = if p < i { p } else { p - 1 };
                            assert(self.keys()[j] == k);
                        }
                    }
                    assert forall|k: Seq<char>| self.has(k) implies self.at(k) == before@.remove(
                        key@,
                    )[k] by {
                        let j = self.keys().index_of(k);
                        assert(self.keys()[j] == k);
                        let p = if j < i { j } else { j + 1 };
                        assert(before.keys()[p] == k);
                        before.lemma_entry(p);
                    }
                    assert(self@ =~= before@.remove(key@));
                }
            },
            None => {
                assert(self@ =~= before@.remove(key@));
            },
        }
    }
}

} // verus!
