//! All bundles of a file, kept in the case-insensitive order of their keys.
use super::bundle::{cred_refs, Bundle};
use super::error::PlError;
use super::key::Key;
use super::keyed::{
    lemma_refs_insert, lemma_refs_remove, lemma_refs_update, refs_of, KeyedList,
};
use super::transient::Transient;
use vstd::prelude::*;

verus! {

/// The references of a bundle, as a function.
pub open spec fn bundle_refs() -> spec_fn(Bundle) -> Seq<u64> {
    |b: Bundle| b.spec_refs()
}

/// The number of credentials of all entries.
pub open spec fn cred_count(s: Seq<(Key, Bundle)>) -> nat
    decreases s.len(),
{
    if s.len() == 0 {
        0
    } else {
        cred_count(s.drop_last()) + s.last().1.creds@.len()
    }
}

/// The bundles of a file, by key.
pub struct Bundles(KeyedList<Bundle>);

impl View for Bundles {
    type V = Map<Seq<u8>, (Key, Bundle)>;

    /// The bundles with their keys, by the identity of the keys.
    closed spec fn view(&self) -> Map<Seq<u8>, (Key, Bundle)> {
        self.0@
    }
}

impl Bundles {
    /// The bundles with their keys, in key order.
    pub closed spec fn entries(&self) -> Seq<(Key, Bundle)> {
        self.0.entries()
    }

    /// The keys are sorted and distinct.
    pub closed spec fn wf(&self) -> bool {
        self.0.wf()
    }

    /// The references of all credentials of all bundles, in key order.
    pub open spec fn all_refs(&self) -> Seq<u64> {
        refs_of(self.entries(), bundle_refs())
    }

    /// Every bundle is filed under the identity of its own key.
    pub proof fn lemma_keys(&self)
        ensures
            forall|id: Seq<u8>| #[trigger] self@.contains_key(id) ==> self@[id].0.id() == id,
    {
        self.0.lemma_keys();
    }

    /// There are finitely many bundles, one per entry.
    pub proof fn lemma_finite(&self)
        requires
            self.wf(),
        ensures
            self@.dom().finite(),
            self@.len() == self.entries().len(),
    {
        self.0.lemma_len();
    }

    /// The bundle under `id` is one of the entries.
    pub proof fn lemma_entry(&self, id: Seq<u8>) -> (i: int)
        requires
            self@.contains_key(id),
        ensures
            0 <= i < self.entries().len(),
            self.entries()[i] == self@[id],
    {
        self.0.lemma_entry(id)
    }

    /// No bundles.
    pub fn new() -> (b: Self)
        ensures
            b.wf(),
            b@ == Map::<Seq<u8>, (Key, Bundle)>::empty(),
            b.entries().len() == 0,
    {
        Bundles(KeyedList::new())
    }

    /// The number of bundles.
    pub fn len(&self) -> (n: usize)
        requires
            self.wf(),
        ensures
            n == self@.len(),
    {
        self.0.len()
    }

    /// The bundles with their keys, in key order.
    pub fn iter(&self) -> (r: &Vec<(Key, Bundle)>)
        ensures
            r@ == self.entries(),
    {
        self.0.entries_ref()
    }

    /// Whether there are no bundles.
    pub fn is_empty(&self) -> (r: bool)
        requires
            self.wf(),
        ensures
            r == (self@.len() == 0),
    {
        self.0.len() == 0
    }

    /// The bundle under `key`.
    pub fn get(&self, key: &Key) -> (r: Option<&Bundle>)
        requires
            self.wf(),
        ensures
            match r {
                Some(b) => self@.contains_key(key.id()) && *b == self@[key.id()].1,
                None => !self@.contains_key(key.id()),
            },
    {
        self.0.get(key)
    }

    /// The number of credentials of all bundles.
    pub fn count_secrets(&self) -> (n: usize)
        requires
            cred_count(self.entries()) <= usize::MAX,
        ensures
            n == cred_count(self.entries()),
    {
        let entries = self.0.entries_ref();
        let mut n: usize = 0;
        let mut i: usize = 0;
        while i < entries.len()
            invariant
                entries@ == self.entries(),
                cred_count(self.entries()) <= usize::MAX,
                i <= entries@.len(),
                n == cred_count(entries@.take(i as int)),
            decreases entries@.len() - i,
        {
            assert(entries@.take(i + 1).drop_last() =~= entries@.take(i as int));
            proof {
                lemma_cred_count_prefix(entries@, i as int + 1);
            }
            n = n + entries[i].1.creds.len();
            i = i + 1;
        }
        assert(entries@.take(entries@.len() as int) =~= entries@);
        n
    }

    /// The key under which the bundle equal to `key` is stored.
    pub fn stored_key(&self, key: &Key) -> (r: Option<Key>)
        requires
            self.wf(),
        ensures
            match r {
                Some(k) => self@.contains_key(key.id()) && k == self@[key.id()].0,
                None => !self@.contains_key(key.id()),
            },
    {
        match self.0.position(key) {
            Some(i) => {
                proof {
                    self.0.lemma_view();
                    super::keyed::lemma_as_map_at(self.0.entries(), i as int);
                }
                Some(self.0.entries_ref()[i].0.duplicate())
            },
            None => None,
        }
    }

    /// Whether there is a bundle under `key`.
    pub fn contains_key(&self, key: &Key) -> (r: bool)
        requires
            self.wf(),
        ensures
            r == self@.contains_key(key.id()),
    {
        self.0.contains_key(key)
    }

    /// The references of all credentials of all bundles.
    pub fn refs(&self) -> (r: Vec<u64>)
        ensures
            r@ == self.all_refs(),
    {
        let entries = self.0.entries_ref();
        let mut r: Vec<u64> = Vec::new();
        let mut i: usize = 0;
        while i < entries.len()
            invariant
                entries@ == self.entries(),
                i <= entries@.len(),
                r@ == refs_of(entries@.take(i as int), bundle_refs()),
            decreases entries@.len() - i,
        {
            assert(entries@.take(i + 1).drop_last() =~= entries@.take(i as int));
            let mut more = entries[i].1.refs();
            r.append(&mut more);
            i = i + 1;
        }
        assert(entries@.take(entries@.len() as int) =~= entries@);
        r
    }

    /// Adds a bundle; refused where a bundle with an equal key exists.
    pub fn add(&mut self, key: Key, bundle: Bundle) -> (r: Result<(), PlError>)
        requires
            old(self).wf(),
        ensures
            final(self).wf(),
            match r {
                Ok(()) => !old(self)@.contains_key(key.id()) && final(self)@ == old(self)@.insert(
                    key.id(),
                    (key, bundle),
                ) && final(self)@.len() == old(self)@.len() + 1 && final(self).all_refs().to_multiset() == old(self).all_refs().to_multiset().add(
                    bundle.spec_refs().to_multiset(),
                ),
                Err(e) => old(self)@.contains_key(key.id()) && final(self)@ == old(self)@
                    && final(self).all_refs() == old(self).all_refs() && e is Exists && e->Exists_0 == old(self)@[key.id()].0.0,
            },
    {
        let ghost b = bundle;
        proof {
            old(self).0.lemma_len();
        }
        match self.0.add(key, bundle) {
            Ok(()) => {
                proof {
                    self.0.lemma_len();
                    let i = choose|i: int|
                        0 <= i <= old(self).entries().len() && self.entries() == old(
                            self,
                        ).entries().insert(i, (key, b));
                    lemma_refs_insert(old(self).entries(), i, (key, b), bundle_refs());
                }
                Ok(())
            },
            Err(k) => Err(PlError::Exists(k.0)),
        }
    }

    /// Replaces the bundle under `key`; refused where there is none.
    pub fn modify(&mut self, key: &Key, modified_bundle: Bundle) -> (r: Result<(), PlError>)
        requires
            old(self).wf(),
        ensures
            final(self).wf(),
            match r {
                Ok(()) => old(self)@.contains_key(key.id()) && final(self)@ == old(self)@.insert(
                    key.id(),
                    (old(self)@[key.id()].0, modified_bundle),
                ) && final(self).all_refs().to_multiset().add(
                    old(self)@[key.id()].1.spec_refs().to_multiset(),
                ) == old(self).all_refs().to_multiset().add(
                    modified_bundle.spec_refs().to_multiset(),
                ),
                Err(e) => !old(self)@.contains_key(key.id()) && final(self)@ == old(self)@
                    && final(self).all_refs() == old(self).all_refs() && e is Missing && e->Missing_0@ == key.0@,
            },
    {
        let ghost b = modified_bundle;
        match self.0.modify(key, modified_bundle) {
            Ok(()) => {
                proof {
                    let s = old(self).entries();
                    let i = choose|i: int|
                        0 <= i < s.len() && super::keyed::id_at(s, i) == key.id()
                            && self.0.entries() == s.update(i, (s[i].0, b));
                    lemma_refs_update(s, i, (s[i].0, b), bundle_refs());
                    old(self).0.lemma_view();
                    super::keyed::lemma_as_map_at(s, i);
                }
                Ok(())
            },
            Err(_) => Err(PlError::Missing(key.0.clone())),
        }
    }

    /// Removes the bundle under `key` together with the secrets that its
    /// credentials refer to; refused where there is no such bundle.
    pub fn remove_bundle_with_refs(&mut self, key: &Key, transient: &mut Transient) -> (r: Result<
        (),
        PlError,
    >)
        requires
            old(self).wf(),
            old(transient).wf(),
        ensures
            final(self).wf(),
            final(transient).wf(),
            final(transient).password() == old(transient).password(),
            final(transient).next_ref() == old(transient).next_ref(),
            match r {
                Ok(()) => old(self)@.contains_key(key.id()) && final(self)@ == old(self)@.remove(
                    key.id(),
                ) && final(transient).secrets() == old(transient).secrets().remove_keys(
                    old(self)@[key.id()].1.spec_refs().to_set(),
                ) && old(self).all_refs().to_multiset() == final(self).all_refs().to_multiset().add(
                    old(self)@[key.id()].1.spec_refs().to_multiset(),
                ),
                Err(e) => !old(self)@.contains_key(key.id()) && final(self)@ == old(self)@
                    && final(self).all_refs() == old(self).all_refs() && final(transient).secrets()
                    == old(transient).secrets() && e is Missing && e->Missing_0@ == key.0@,
            },
    {
        match self.0.remove(key) {
            None => Err(PlError::Missing(key.0.clone())),
            Some((_key, bundle)) => {
                proof {
                    let s = old(self).entries();
                    let i = choose|i: int|
                        0 <= i < s.len() && s[i] == (_key, bundle) && self.entries() == s.remove(
                            i,
                        );
                    lemma_refs_remove(s, i, bundle_refs());
                }
                let refs = bundle.refs();
                let ghost start = transient.secrets();
                let mut i: usize = 0;
                while i < refs.len()
                    invariant
                        refs@ == bundle.spec_refs(),
                        i <= refs@.len(),
                        transient.wf(),
                        transient.password() == old(transient).password(),
                        transient.next_ref() == old(transient).next_ref(),
                        transient.secrets() == start.remove_keys(refs@.take(i as int).to_set()),
                    decreases refs@.len() - i,
                {
                    transient.remove_secret(refs[i]);
                    proof {
                        assert(refs@.take(i + 1) =~= refs@.take(i as int).push(refs@[i as int]));
                        refs@.take(i as int).lemma_push_to_set_commute(refs@[i as int]);
                        assert(transient.secrets() =~= start.remove_keys(
                            refs@.take(i + 1).to_set(),
                        ));
                    }
                    i = i + 1;
                }
                assert(refs@.take(refs@.len() as int) =~= refs@);
                Ok(())
            },
        }
    }
}

/// The credential count of a prefix grows by the credentials of the next entry.
proof fn lemma_cred_count_prefix(s: Seq<(Key, Bundle)>, n: int)
    requires
        0 < n <= s.len(),
    ensures
        cred_count(s.take(n)) == cred_count(s.take(n - 1)) + s[n - 1].1.creds@.len(),
        cred_count(s.take(n)) <= cred_count(s),
    decreases s.len(),
{
    assert(s.take(n).drop_last() =~= s.take(n - 1));
    if n < s.len() {
        lemma_cred_count_prefix(s.drop_last(), n);
        assert(s.drop_last().take(n) =~= s.take(n));
        assert(s.drop_last().take(n - 1) =~= s.take(n - 1));
    } else {
        assert(s.take(n) =~= s);
    }
}

} // verus!
