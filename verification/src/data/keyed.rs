//! A list of values under keys, kept in key order, with no two equal keys.
//!
//! This is how bundles and documents are kept: like a `BTreeMap` ordered by
//! the case-insensitive order of `Key`.
use super::key::{law_key_order, Key};
use vstd::prelude::*;

verus! {

/// Entries sorted strictly by key.
pub struct KeyedList<T> {
    entries: Vec<(Key, T)>,
}

/// The identity of the key of entry `i`.
pub open spec fn id_at<T>(s: Seq<(Key, T)>, i: int) -> Seq<u8> {
    s[i].0.id()
}

/// Every entry's key sorts strictly before the keys of all later entries.
pub open spec fn strictly_sorted<T>(s: Seq<(Key, T)>) -> bool {
    forall|i: int, j: int| 0 <= i < j < s.len() ==> (#[trigger] s[i]).0.before(&(#[trigger] s[j]).0)
}

/// Whether some entry has a key with identity `id`.
pub open spec fn holds<T>(s: Seq<(Key, T)>, id: Seq<u8>) -> bool {
    exists|i: int| 0 <= i < s.len() && #[trigger] id_at(s, i) == id
}

/// The entry whose key has identity `id`.
pub open spec fn entry_of<T>(s: Seq<(Key, T)>, id: Seq<u8>) -> (Key, T) {
    s[choose|i: int| 0 <= i < s.len() && #[trigger] id_at(s, i) == id]
}

/// The entries as a map from key identity to entry.
pub open spec fn as_map<T>(s: Seq<(Key, T)>) -> Map<Seq<u8>, (Key, T)> {
    Map::new(|id: Seq<u8>| holds(s, id), |id: Seq<u8>| entry_of(s, id))
}

/// In a strictly sorted list, equal identities mean equal positions.
pub proof fn lemma_unique<T>(s: Seq<(Key, T)>, i: int, j: int)
    requires
        strictly_sorted(s),
        0 <= i < s.len(),
        0 <= j < s.len(),
        id_at(s, i) == id_at(s, j),
    ensures
        i == j,
{
    if i < j {
        assert(s[i].0.before(&s[j].0));
        law_key_order(s[i].0, s[j].0, s[j].0);
    } else if j < i {
        assert(s[j].0.before(&s[i].0));
        law_key_order(s[j].0, s[i].0, s[i].0);
    }
}

/// The map of a strictly sorted list finds each entry under its key.
pub proof fn lemma_as_map_at<T>(s: Seq<(Key, T)>, i: int)
    requires
        strictly_sorted(s),
        0 <= i < s.len(),
    ensures
        as_map(s).contains_key(id_at(s, i)),
        as_map(s)[id_at(s, i)] == s[i],
{
    let id = id_at(s, i);
    assert(holds(s, id));
    let k = choose|k: int| 0 <= k < s.len() && #[trigger] id_at(s, k) == id;
    lemma_unique(s, i, k);
}

impl<T> View for KeyedList<T> {
    type V = Map<Seq<u8>, (Key, T)>;

    /// The entries, by the identity of their keys.
    closed spec fn view(&self) -> Map<Seq<u8>, (Key, T)> {
        as_map(self.entries@)
    }
}

impl<T> KeyedList<T> {
    /// The entries in key order.
    pub closed spec fn entries(&self) -> Seq<(Key, T)> {
        self.entries@
    }

    /// The entries are strictly sorted by key.
    pub closed spec fn wf(&self) -> bool {
        strictly_sorted(self.entries@)
    }

    /// The view is the map of the entries.
    pub proof fn lemma_view(&self)
        ensures
            self@ == as_map(self.entries()),
            self.wf() ==> strictly_sorted(self.entries()),
    {
    }

    /// Every entry is filed under the identity of its own key.
    pub proof fn lemma_keys(&self)
        ensures
            forall|id: Seq<u8>| #[trigger] self@.contains_key(id) ==> self@[id].0.id() == id,
    {
        assert forall|id: Seq<u8>| #[trigger] self@.contains_key(id) implies self@[id].0.id() == id by {
            let i = choose|i: int| 0 <= i < self.entries@.len() && #[trigger] id_at(self.entries@, i) == id;
        }
    }

    /// The entry under `id` is one of the entries.
    pub proof fn lemma_entry(&self, id: Seq<u8>) -> (i: int)
        requires
            self@.contains_key(id),
        ensures
            0 <= i < self.entries().len(),
            self.entries()[i] == self@[id],
    {
        choose|i: int| 0 <= i < self.entries@.len() && #[trigger] id_at(self.entries@, i) == id
    }

    /// No entries.
    pub fn new() -> (r: Self)
        ensures
            r.wf(),
            r@ == Map::<Seq<u8>, (Key, T)>::empty(),
            r.entries().len() == 0,
    {
        let r = KeyedList { entries: Vec::new() };
        assert(r@ =~= Map::<Seq<u8>, (Key, T)>::empty());
        r
    }

    /// The number of entries.
    pub fn len(&self) -> (n: usize)
        requires
            self.wf(),
        ensures
            n == self@.len(),
            n == self.entries().len(),
    {
        proof {
            self.lemma_len();
        }
        self.entries.len()
    }

    /// The number of map entries is the length of the list.
    pub proof fn lemma_len(&self)
        requires
            self.wf(),
        ensures
            self@.len() == self.entries().len(),
            self@.dom().finite(),
        decreases self.entries().len(),
    {
        lemma_map_len(self.entries@);
    }

    /// The entries in key order.
    pub fn entries_ref(&self) -> (r: &Vec<(Key, T)>)
        ensures
            r@ == self.entries(),
    {
        &self.entries
    }

    /// The position of the entry with the given key, if any.
    pub fn position(&self, key: &Key) -> (r: Option<usize>)
        requires
            self.wf(),
        ensures
            match r {
                Some(i) => i < self.entries().len() && id_at(self.entries(), i as int) == key.id(),
                None => !self@.contains_key(key.id()),
            },
    {
        let mut i: usize = 0;
        while i < self.entries.len()
            invariant
                i <= self.entries@.len(),
                forall|j: int| 0 <= j < i ==> id_at(self.entries@, j) != key.id(),
            decreases self.entries@.len() - i,
        {
            if self.entries[i].0.same_as(key) {
                return Some(i);
            }
            i = i + 1;
        }
        None
    }

    /// The value under `key`.
    pub fn get(&self, key: &Key) -> (r: Option<&T>)
        requires
            self.wf(),
        ensures
            match r {
                Some(v) => self@.contains_key(key.id()) && *v == self@[key.id()].1,
                None => !self@.contains_key(key.id()),
            },
    {
        match self.position(key) {
            Some(i) => {
                proof {
                    lemma_as_map_at(self.entries@, i as int);
                }
                Some(&self.entries[i].1)
            },
            None => None,
        }
    }

    /// Whether there is an entry under `key`.
    pub fn contains_key(&self, key: &Key) -> (r: bool)
        requires
            self.wf(),
        ensures
            r == self@.contains_key(key.id()),
    {
        match self.position(key) {
            Some(i) => {
                proof {
                    lemma_as_map_at(self.entries@, i as int);
                }
                true
            },
            None => false,
        }
    }

    /// Adds `value` under `key`; refused where the key is taken already.
    pub fn add(&mut self, key: Key, value: T) -> (r: Result<(), Key>)
        requires
            old(self).wf(),
        ensures
            final(self).wf(),
            match r {
                Ok(()) => !old(self)@.contains_key(key.id()) && final(self)@ == old(self)@.insert(
                    key.id(),
                    (key, value),
                ) && exists|i: int|
                    0 <= i <= old(self).entries().len() && final(self).entries()
                        == old(self).entries().insert(i, (key, value)),
                Err(k) => old(self)@.contains_key(key.id()) && final(self)@ == old(self)@
                    && final(self).entries() == old(self).entries() && k == old(self)@[key.id()].0,
            },
    {
        let mut i: usize = 0;
        while i < self.entries.len() && self.entries[i].0.sorts_before(&key)
            invariant
                i <= self.entries@.len(),
                forall|j: int| 0 <= j < i ==> (#[trigger] self.entries@[j]).0.before(&key),
            decreases self.entries@.len() - i,
        {
            i = i + 1;
        }
        if i < self.entries.len() && self.entries[i].0.same_as(&key) {
            proof {
                lemma_as_map_at(self.entries@, i as int);
            }
            return Err(self.entries[i].0.duplicate());
        }
        let ghost old_entries = self.entries@;
        proof {
            // the new key sorts before every entry from position i on
            assert forall|j: int| i <= j < old_entries.len() implies key.before(&(#[trigger] old_entries[j]).0) by {
                law_key_order(key, old_entries[i as int].0, old_entries[j].0);
                if j > i {
                    assert(old_entries[i as int].0.before(&old_entries[j].0));
                }
            }
            // and its identity is not taken
            assert forall|j: int| 0 <= j < old_entries.len() implies id_at(old_entries, j) != key.id() by {
                if j < i {
                    law_key_order(old_entries[j].0, key, key);
                } else {
                    law_key_order(key, old_entries[j].0, key);
                }
            }
        }
        self.entries.insert(i, (key, value));
        proof {
            let s = self.entries@;
            assert(s == old_entries.insert(i as int, (key, value)));
            assert forall|a: int, b: int| 0 <= a < b < s.len() implies (#[trigger] s[a]).0.before(&(#[trigger] s[b]).0) by {
                if b < i {
                } else if b == i {
                } else if a < i {
                    assert(s[b] == old_entries[b - 1]);
                    law_key_order(old_entries[a].0, key, old_entries[b - 1].0);
                } else if a == i {
                    assert(s[b] == old_entries[b - 1]);
                } else {
                    assert(s[a] == old_entries[a - 1]);
                    assert(s[b] == old_entries[b - 1]);
                }
            }
            lemma_map_insert(old_entries, i as int, (key, value));
            assert(self.entries() == old(self).entries().insert(i as int, (key, value)));
        }
        Ok(())
    }

    /// Replaces the value under `key`, keeping the stored key; refused where
    /// there is no such entry.
    pub fn modify(&mut self, key: &Key, value: T) -> (r: Result<(), T>)
        requires
            old(self).wf(),
        ensures
            final(self).wf(),
            match r {
                Ok(()) => old(self)@.contains_key(key.id()) && final(self)@ == old(self)@.insert(
                    key.id(),
                    (old(self)@[key.id()].0, value),
                ) && exists|i: int|
                    0 <= i < old(self).entries().len() && id_at(old(self).entries(), i) == key.id()
                        && final(self).entries() == old(self).entries().update(
                        i,
                        (old(self).entries()[i].0, value),
                    ),
                Err(v) => !old(self)@.contains_key(key.id()) && final(self)@ == old(self)@
                    && final(self).entries() == old(self).entries() && v == value,
            },
    {
        match self.position(key) {
            None => Err(value),
            Some(i) => {
                let ghost old_entries = self.entries@;
                proof {
                    lemma_as_map_at(old_entries, i as int);
                }
                let (k, _old_value) = self.entries.remove(i);
                self.entries.insert(i, (k, value));
                proof {
                    let s = self.entries@;
                    assert(s =~= old_entries.update(i as int, (k, value)));
                    assert forall|a: int, b: int| 0 <= a < b < s.len() implies (#[trigger] s[a]).0.before(&(#[trigger] s[b]).0) by {
                        assert(old_entries[a].0.before(&old_entries[b].0));
                    }
                    lemma_map_update(old_entries, i as int, (k, value));
                    assert(self.entries() == old(self).entries().update(
                        i as int,
                        (old(self).entries()[i as int].0, value),
                    ));
                }
                Ok(())
            },
        }
    }

    /// Removes the entry under `key` and returns it.
    pub fn remove(&mut self, key: &Key) -> (r: Option<(Key, T)>)
        requires
            old(self).wf(),
        ensures
            final(self).wf(),
            match r {
                Some(e) => old(self)@.contains_key(key.id()) && e == old(self)@[key.id()]
                    && final(self)@ == old(self)@.remove(key.id()) && exists|i: int|
                    0 <= i < old(self).entries().len() && old(self).entries()[i] == e
                        && final(self).entries() == old(self).entries().remove(i),
                None => !old(self)@.contains_key(key.id()) && final(self)@ == old(self)@
                    && final(self).entries() == old(self).entries(),
            },
    {
        match self.position(key) {
            None => None,
            Some(i) => {
                let ghost old_entries = self.entries@;
                proof {
                    lemma_as_map_at(old_entries, i as int);
                }
                let e = self.entries.remove(i);
                proof {
                    let s = self.entries@;
                    assert(s =~= old_entries.remove(i as int));
                    assert forall|a: int, b: int| 0 <= a < b < s.len() implies (#[trigger] s[a]).0.before(&(#[trigger] s[b]).0) by {
                        let a0 = if a < i { a } else { a + 1 };
                        let b0 = if b < i { b } else { b + 1 };
                        assert(s[a] == old_entries[a0]);
                        assert(s[b] == old_entries[b0]);
                    }
                    lemma_map_remove(old_entries, i as int);
                    assert(self.entries() == old(self).entries().remove(i as int));
                }
                Some(e)
            },
        }
    }
}

/// The references collected from all entries, in order, where `f` gives the
/// references of one value.
pub open spec fn refs_of<T>(s: Seq<(Key, T)>, f: spec_fn(T) -> Seq<u64>) -> Seq<u64>
    decreases s.len(),
{
    if s.len() == 0 {
        Seq::empty()
    } else {
        refs_of(s.drop_last(), f) + f(s.last().1)
    }
}

/// Inserting an entry adds its references.
pub proof fn lemma_refs_insert<T>(s: Seq<(Key, T)>, i: int, e: (Key, T), f: spec_fn(T) -> Seq<u64>)
    requires
        0 <= i <= s.len(),
    ensures
        refs_of(s.insert(i, e), f).to_multiset() == refs_of(s, f).to_multiset().add(
            f(e.1).to_multiset(),
        ),
    decreases s.len(),
{
    broadcast use vstd::seq_lib::lemma_multiset_commutative;
    broadcast use vstd::multiset::group_multiset_axioms;

    let t = s.insert(i, e);
    if i == s.len() {
        assert(t.drop_last() =~= s);
        assert(t.last() == e);
    } else {
        assert(t.drop_last() =~= s.drop_last().insert(i, e));
        assert(t.last() == s.last());
        lemma_refs_insert(s.drop_last(), i, e, f);
        let a = refs_of(s.drop_last(), f).to_multiset();
        let b = f(e.1).to_multiset();
        let c = f(s.last().1).to_multiset();
        assert(a.add(b).add(c) =~= a.add(c).add(b));
    }
}

/// The references of every entry are among all references.
pub proof fn lemma_refs_of_contains<T>(s: Seq<(Key, T)>, i: int, f: spec_fn(T) -> Seq<u64>, x: u64)
    requires
        0 <= i < s.len(),
        f(s[i].1).contains(x),
    ensures
        refs_of(s, f).to_multiset().count(x) > 0,
{
    broadcast use vstd::multiset::group_multiset_axioms;

    lemma_refs_remove(s, i, f);
    vstd::seq_lib::to_multiset_contains(f(s[i].1), x);
}

/// Removing an entry takes its references away.
pub proof fn lemma_refs_remove<T>(s: Seq<(Key, T)>, i: int, f: spec_fn(T) -> Seq<u64>)
    requires
        0 <= i < s.len(),
    ensures
        refs_of(s, f).to_multiset() == refs_of(s.remove(i), f).to_multiset().add(
            f(s[i].1).to_multiset(),
        ),
{
    assert(s.remove(i).insert(i, s[i]) =~= s);
    lemma_refs_insert(s.remove(i), i, s[i], f);
}

/// Replacing an entry exchanges its references.
pub proof fn lemma_refs_update<T>(s: Seq<(Key, T)>, i: int, e: (Key, T), f: spec_fn(T) -> Seq<u64>)
    requires
        0 <= i < s.len(),
    ensures
        refs_of(s.update(i, e), f).to_multiset().add(f(s[i].1).to_multiset()) == refs_of(
            s,
            f,
        ).to_multiset().add(f(e.1).to_multiset()),
{
    broadcast use vstd::multiset::group_multiset_axioms;

    assert(s.remove(i).insert(i, e) =~= s.update(i, e));
    lemma_refs_insert(s.remove(i), i, e, f);
    lemma_refs_remove(s, i, f);
    let a = refs_of(s.remove(i), f).to_multiset();
    let b = f(e.1).to_multiset();
    let c = f(s[i].1).to_multiset();
    assert(a.add(b).add(c) =~= a.add(c).add(b));
}

/// Inserting an entry with a new identity adds it to the map.
proof fn lemma_map_insert<T>(s: Seq<(Key, T)>, i: int, e: (Key, T))
    requires
        0 <= i <= s.len(),
        strictly_sorted(s.insert(i, e)),
        !holds(s, e.0.id()),
    ensures
        as_map(s.insert(i, e)) == as_map(s).insert(e.0.id(), e),
{
    let t = s.insert(i, e);
    assert(t[i] == e);
    assert forall|id: Seq<u8>| #[trigger] holds(t, id) == (holds(s, id) || id == e.0.id()) by {
        if holds(t, id) {
            let k = choose|k: int| 0 <= k < t.len() && #[trigger] id_at(t, k) == id;
            if k < i {
                assert(id_at(s, k) == id);
            } else if k > i {
                assert(id_at(s, k - 1) == id);
            }
        }
        if holds(s, id) {
            let k = choose|k: int| 0 <= k < s.len() && #[trigger] id_at(s, k) == id;
            if k < i {
                assert(id_at(t, k) == id);
            } else {
                assert(id_at(t, k + 1) == id);
            }
        }
        if id == e.0.id() {
            assert(id_at(t, i) == id);
        }
    }
    assert forall|id: Seq<u8>| holds(t, id) implies #[trigger] entry_of(t, id) == as_map(s).insert(e.0.id(), e)[id] by {
        let k = choose|k: int| 0 <= k < t.len() && #[trigger] id_at(t, k) == id;
        lemma_as_map_at(t, k);
        if k == i {
        } else {
            let k0 = if k < i { k } else { k - 1 };
            assert(t[k] == s[k0]);
            assert(id_at(s, k0) == id);
            let m = choose|m: int| 0 <= m < s.len() && #[trigger] id_at(s, m) == id;
            let m1 = if m < i { m } else { m + 1 };
            assert(t[m1] == s[m]);
            lemma_unique(t, k, m1);
        }
    }
    assert(as_map(t) =~= as_map(s).insert(e.0.id(), e));
}

/// Replacing an entry by one with the same identity replaces it in the map.
proof fn lemma_map_update<T>(s: Seq<(Key, T)>, i: int, e: (Key, T))
    requires
        0 <= i < s.len(),
        strictly_sorted(s),
        e.0 == s[i].0,
    ensures
        as_map(s.update(i, e)) == as_map(s).insert(e.0.id(), e),
{
    let t = s.update(i, e);
    assert forall|k: int| 0 <= k < s.len() implies #[trigger] id_at(t, k) == id_at(s, k) by {}
    assert forall|a: int, b: int| 0 <= a < b < t.len() implies (#[trigger] t[a]).0.before(&(#[trigger] t[b]).0) by {
        assert(s[a].0.before(&s[b].0));
    }
    assert forall|id: Seq<u8>| #[trigger] holds(t, id) == holds(s, id) by {
        if holds(t, id) {
            let k = choose|k: int| 0 <= k < t.len() && #[trigger] id_at(t, k) == id;
            assert(id_at(s, k) == id);
        }
        if holds(s, id) {
            let k = choose|k: int| 0 <= k < s.len() && #[trigger] id_at(s, k) == id;
            assert(id_at(t, k) == id);
        }
    }
    assert forall|id: Seq<u8>| holds(t, id) implies #[trigger] entry_of(t, id) == as_map(s).insert(e.0.id(), e)[id] by {
        let k = choose|k: int| 0 <= k < t.len() && #[trigger] id_at(t, k) == id;
        lemma_as_map_at(t, k);
        lemma_as_map_at(s, k);
        if k != i {
            if id == e.0.id() {
                assert(id_at(s, i) == id);
                lemma_unique(s, i, k);
            }
        }
    }
    lemma_as_map_at(s, i);
    assert(as_map(t) =~= as_map(s).insert(e.0.id(), e));
}

/// Removing an entry removes its identity from the map.
proof fn lemma_map_remove<T>(s: Seq<(Key, T)>, i: int)
    requires
        0 <= i < s.len(),
        strictly_sorted(s),
    ensures
        as_map(s.remove(i)) == as_map(s).remove(id_at(s, i)),
{
    let t = s.remove(i);
    let gone = id_at(s, i);
    assert forall|id: Seq<u8>| #[trigger] holds(t, id) == (holds(s, id) && id != gone) by {
        if holds(t, id) {
            let k = choose|k: int| 0 <= k < t.len() && #[trigger] id_at(t, k) == id;
            let k0 = if k < i { k } else { k + 1 };
            assert(t[k] == s[k0]);
            assert(id_at(s, k0) == id);
            if id == gone {
                lemma_unique(s, i, k0);
            }
        }
        if holds(s, id) && id != gone {
            let k = choose|k: int| 0 <= k < s.len() && #[trigger] id_at(s, k) == id;
            if k < i {
                assert(id_at(t, k) == id);
            } else {
                assert(k != i);
                assert(t[k - 1] == s[k]);
                assert(id_at(t, k - 1) == id);
            }
        }
    }
    assert forall|id: Seq<u8>| holds(t, id) implies #[trigger] entry_of(t, id) == as_map(s)[id] by {
        let k = choose|k: int| 0 <= k < t.len() && #[trigger] id_at(t, k) == id;
        let k0 = if k < i { k } else { k + 1 };
        assert(t[k] == s[k0]);
        assert forall|a: int, b: int| 0 <= a < b < t.len() implies (#[trigger] t[a]).0.before(&(#[trigger] t[b]).0) by {
            let a0 = if a < i { a } else { a + 1 };
            let b0 = if b < i { b } else { b + 1 };
            assert(t[a] == s[a0]);
            assert(t[b] == s[b0]);
        }
        lemma_as_map_at(t, k);
        lemma_as_map_at(s, k0);
    }
    assert(as_map(t) =~= as_map(s).remove(gone));
}

/// The map of a strictly sorted list has as many entries as the list.
proof fn lemma_map_len<T>(s: Seq<(Key, T)>)
    requires
        strictly_sorted(s),
    ensures
        as_map(s).len() == s.len(),
        as_map(s).dom().finite(),
    decreases s.len(),
{
    if s.len() == 0 {
        assert(as_map(s) =~= Map::<Seq<u8>, (Key, T)>::empty());
    } else {
        let last = s.len() - 1;
        let init = s.remove(last);
        assert(init =~= s.drop_last());
        assert forall|a: int, b: int| 0 <= a < b < init.len() implies (#[trigger] init[a]).0.before(&(#[trigger] init[b]).0) by {
            assert(init[a] == s[a]);
            assert(init[b] == s[b]);
        }
        lemma_map_len(init);
        lemma_map_remove(s, last);
        lemma_as_map_at(s, last);
        assert(as_map(s) =~= as_map(init).insert(id_at(s, last), s[last]));
    }
}

} // verus!
