//! All documents of a file, kept in the case-insensitive order of their keys.
use super::document::Document;
use super::error::PlError;
use super::key::Key;
use super::keyed::{lemma_refs_insert, lemma_refs_remove, lemma_refs_update, refs_of, KeyedList};
use super::sorting::{is_sorted, sorted};
use super::transient::Transient;
use vstd::multiset::Multiset;
use vstd::prelude::*;

verus! {

/// The reference of a document, as a function.
pub open spec fn document_refs() -> spec_fn(Document) -> Seq<u64> {
    |d: Document| seq![d.secret.0]
}

/// The documents of a file, by key.
pub struct Documents(KeyedList<Document>);

impl View for Documents {
    type V = Map<Seq<u8>, (Key, Document)>;

    /// The documents with their keys, by the identity of the keys.
    closed spec fn view(&self) -> Map<Seq<u8>, (Key, Document)> {
        self.0@
    }
}

impl Documents {
    /// The documents with their keys, in key order.
    pub closed spec fn entries(&self) -> Seq<(Key, Document)> {
        self.0.entries()
    }

    /// The keys are sorted and distinct.
    pub closed spec fn wf(&self) -> bool {
        self.0.wf()
    }

    /// The references of all documents, in key order.
    pub open spec fn all_refs(&self) -> Seq<u64> {
        refs_of(self.entries(), document_refs())
    }

    /// There are finitely many documents, one per entry.
    pub proof fn lemma_finite(&self)
        requires
            self.wf(),
        ensures
            self@.dom().finite(),
            self@.len() == self.entries().len(),
    {
        self.0.lemma_len();
    }

    /// The document under `id` is one of the entries.
    pub proof fn lemma_entry(&self, id: Seq<u8>) -> (i: int)
        requires
            self@.contains_key(id),
        ensures
            0 <= i < self.entries().len(),
            self.entries()[i] == self@[id],
    {
        self.0.lemma_entry(id)
    }

    /// No documents.
    pub fn new() -> (d: Self)
        ensures
            d.wf(),
            d@ == Map::<Seq<u8>, (Key, Document)>::empty(),
            d.entries().len() == 0,
    {
        Documents(KeyedList::new())
    }

    /// The documents with their keys, in key order.
    pub fn iter(&self) -> (r: &Vec<(Key, Document)>)
        ensures
            r@ == self.entries(),
    {
        self.0.entries_ref()
    }

    /// The keys of the documents, in key order.
    pub fn iter_keys(&self) -> (r: Vec<&Key>)
        ensures
            r@.len() == self.entries().len(),
            forall|i: int| 0 <= i < r@.len() ==> *r@[i] == self.entries()[i].0,
    {
        let entries = self.0.entries_ref();
        let mut r: Vec<&Key> = Vec::new();
        let mut i: usize = 0;
        while i < entries.len()
            invariant
                entries@ == self.entries(),
                i <= entries@.len(),
                r@.len() == i,
                forall|j: int| 0 <= j < i ==> *r@[j] == entries@[j].0,
            decreases entries@.len() - i,
        {
            r.push(&entries[i].0);
            i = i + 1;
        }
        r
    }

    /// Whether there are no documents.
    pub fn is_empty(&self) -> (r: bool)
        requires
            self.wf(),
        ensures
            r == (self@.len() == 0),
    {
        self.0.len() == 0
    }

    /// The document under `key`.
    pub fn get(&self, key: &Key) -> (r: Option<&Document>)
        requires
            self.wf(),
        ensures
            match r {
                Some(d) => self@.contains_key(key.id()) && *d == self@[key.id()].1,
                None => !self@.contains_key(key.id()),
            },
    {
        self.0.get(key)
    }

    /// Whether there is a document under `key`.
    pub fn contains_key(&self, key: &Key) -> (r: bool)
        requires
            self.wf(),
        ensures
            r == self@.contains_key(key.id()),
    {
        self.0.contains_key(key)
    }

    /// The references of all documents, in ascending order.
    pub fn refs(&self) -> (r: Vec<u64>)
        ensures
            is_sorted(r@),
            r@.to_multiset() == self.all_refs().to_multiset(),
    {
        let entries = self.0.entries_ref();
        let mut all: Vec<u64> = Vec::new();
        let mut i: usize = 0;
        while i < entries.len()
            invariant
                entries@ == self.entries(),
                i <= entries@.len(),
                all@ == refs_of(entries@.take(i as int), document_refs()),
            decreases entries@.len() - i,
        {
            assert(entries@.take(i + 1).drop_last() =~= entries@.take(i as int));
            all.push(entries[i].1.reff());
            i = i + 1;
        }
        assert(entries@.take(entries@.len() as int) =~= entries@);
        sorted(&all)
    }

    /// Adds a document; refused where a document with an equal key exists.
    pub fn add(&mut self, key: Key, document: Document) -> (r: Result<(), PlError>)
        requires
            old(self).wf(),
        ensures
            final(self).wf(),
            match r {
                Ok(()) => !old(self)@.contains_key(key.id()) && final(self)@ == old(self)@.insert(
                    key.id(),
                    (key, document),
                ) && final(self)@.len() == old(self)@.len() + 1 && final(self).all_refs().to_multiset() == old(self).all_refs().to_multiset().insert(
                    document.secret.0,
                ),
                Err(e) => old(self)@.contains_key(key.id()) && final(self)@ == old(self)@
                    && final(self).all_refs() == old(self).all_refs() && e is Exists
                    && e->Exists_0 == old(self)@[key.id()].0.0,
            },
    {
        let ghost d = document;
        proof {
            old(self).0.lemma_len();
        }
        match self.0.add(key, document) {
            Ok(()) => {
                proof {
                    self.0.lemma_len();
                    let i = choose|i: int|
                        0 <= i <= old(self).entries().len() && self.0.entries() == old(
                            self,
                        ).0.entries().insert(i, (key, d));
                    lemma_refs_insert(old(self).entries(), i, (key, d), document_refs());
                    lemma_single_multiset(d.secret.0);
                }
                Ok(())
            },
            Err(k) => Err(PlError::Exists(k.0)),
        }
    }

    /// Replaces the document under `key`; refused where there is none.
    pub fn modify(&mut self, key: &Key, modified_document: Document) -> (r: Result<(), PlError>)
        requires
            old(self).wf(),
        ensures
            final(self).wf(),
            match r {
                Ok(()) => old(self)@.contains_key(key.id()) && final(self)@ == old(self)@.insert(
                    key.id(),
                    (old(self)@[key.id()].0, modified_document),
                ) && final(self).all_refs().to_multiset().insert(
                    old(self)@[key.id()].1.secret.0,
                ) == old(self).all_refs().to_multiset().insert(modified_document.secret.0),
                Err(e) => !old(self)@.contains_key(key.id()) && final(self)@ == old(self)@
                    && final(self).all_refs() == old(self).all_refs() && e is Missing
                    && e->Missing_0@ == key.0@,
            },
    {
        let ghost d = modified_document;
        match self.0.modify(key, modified_document) {
            Ok(()) => {
                proof {
                    let s = old(self).entries();
                    let i = choose|i: int|
                        0 <= i < s.len() && super::keyed::id_at(s, i) == key.id()
                            && self.0.entries() == s.update(i, (s[i].0, d));
                    lemma_refs_update(s, i, (s[i].0, d), document_refs());
                    old(self).0.lemma_view();
                    super::keyed::lemma_as_map_at(s, i);
                    lemma_single_multiset(d.secret.0);
                    lemma_single_multiset(s[i].1.secret.0);
                }
                Ok(())
            },
            Err(_) => Err(PlError::Missing(key.0.clone())),
        }
    }

    /// Removes the document under `key` together with its text; refused where
    /// there is no such document.
    pub fn remove_document_with_ref(&mut self, key: &Key, transient: &mut Transient) -> (r: Result<
        (),
        PlError,
    >)
        requires
            old(self).wf(),
            old(transient).wf(),
        ensures
            final(self).wf(),
            final(transient).wf(),
            final(transient).password() == old(transient).password(),
            final(transient).next_ref() == old(transient).next_ref(),
            match r {
                Ok(()) => old(self)@.contains_key(key.id()) && final(self)@ == old(self)@.remove(
                    key.id(),
                ) && final(transient).secrets() == old(transient).secrets().remove(
                    old(self)@[key.id()].1.secret.0,
                ) && old(self).all_refs().to_multiset() == final(self).all_refs().to_multiset().insert(
                    old(self)@[key.id()].1.secret.0,
                ),
                Err(e) => !old(self)@.contains_key(key.id()) && final(self)@ == old(self)@
                    && final(self).all_refs() == old(self).all_refs() && final(transient).secrets()
                    == old(transient).secrets() && e is Missing && e->Missing_0@ == key.0@,
            },
    {
        match self.0.remove(key) {
            None => Err(PlError::Missing(key.0.clone())),
            Some((_key, document)) => {
                proof {
                    let s = old(self).entries();
                    let i = choose|i: int|
                        0 <= i < s.len() && s[i] == (_key, document) && self.0.entries()
                            == s.remove(i);
                    lemma_refs_remove(s, i, document_refs());
                    lemma_single_multiset(document.secret.0);
                }
                transient.remove_secret(document.reff());
                Ok(())
            },
        }
    }
}

/// A one-element list as a multiset.
proof fn lemma_single_multiset(r: u64)
    ensures
        forall|m: Multiset<u64>| #[trigger] m.add(seq![r].to_multiset()) == m.insert(r),
{
    broadcast use vstd::seq_lib::group_to_multiset_ensures;
    broadcast use vstd::multiset::group_multiset_axioms;

    assert(seq![r] =~= Seq::<u64>::empty().push(r));
    assert(Seq::<u64>::empty().to_multiset() =~= Multiset::<u64>::empty()) by {
        vstd::seq_lib::to_multiset_len(Seq::<u64>::empty());
    }
    assert forall|m: Multiset<u64>| #[trigger] m.add(seq![r].to_multiset()) == m.insert(r) by {
        assert(m.add(seq![r].to_multiset()) =~= m.insert(r));
    }
}

} // verus!
