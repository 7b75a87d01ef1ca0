//! The secret values of a file, keyed by their references.
use rand::{distr::StandardUniform, rng, Rng};
use std::collections::hash_map::Keys;
use std::collections::HashMap;
use vstd::prelude::*;

verus! {

broadcast use vstd::std_specs::hash::group_hash_axioms;

/// A map from references to secret values, plus a random filler text that is
/// renewed before each encryption.
#[derive(Debug, Default)]
pub struct Secrets {
    random_string: String,
    content: HashMap<u64, String>,
}

impl View for Secrets {
    type V = Map<u64, Seq<char>>;

    /// The secret values, by reference.
    closed spec fn view(&self) -> Map<u64, Seq<char>> {
        Map::new(|k: u64| self.content@.contains_key(k), |k: u64| self.content@[k]@)
    }
}

/// `rand::Rng::random_range(lo..hi)` on the thread-local generator (which
/// panics on an empty range). Only the range of the result is known.
#[verifier::external_body]
fn random_len(lo: usize, hi: usize) -> (n: usize)
    requires
        lo < hi,
    ensures
        lo <= n < hi,
{
    rng().random_range(lo..hi)
}

/// `rand::Rng::sample_iter` of `StandardUniform` chars on the thread-local
/// generator, taking `len` of them. Only the length of the result is known.
#[verifier::external_body]
fn random_chars(len: usize) -> (s: String)
    ensures
        s@.len() == len,
{
    rng().sample_iter::<char, _>(StandardUniform).take(len).collect()
}

impl Secrets {
    /// No secrets, no filler.
    pub fn new() -> (s: Self)
        ensures
            s@ == Map::<u64, Seq<char>>::empty(),
            s.filler_text().len() == 0,
    {
        let s = Secrets { random_string: String::new(), content: HashMap::new() };
        assert(s@ =~= Map::<u64, Seq<char>>::empty());
        s
    }

    /// A map with the given secrets.
    pub fn from_map(content: HashMap<u64, String>, random_string: String) -> (s: Self)
        ensures
            s@.dom() == content@.dom(),
            forall|k: u64| #[trigger] s@.contains_key(k) ==> s@[k] == content@[k]@,
            s.filler_text() == random_string@,
    {
        Secrets { random_string, content }
    }

    /// The random filler text.
    pub fn filler(&self) -> (r: &str)
        ensures
            r@ == self.filler_text(),
    {
        self.random_string.as_str()
    }

    /// The secrets, as a map.
    pub fn content(&self) -> (r: &HashMap<u64, String>)
        ensures
            r@.dom() == self@.dom(),
            forall|k: u64| #[trigger] r@.contains_key(k) ==> r@[k]@ == self@[k],
    {
        &self.content
    }

    /// Renews the random filler text (20 to 79 random characters), so that
    /// two encryptions of the same secrets differ in length and content.
    pub fn prepare(&mut self)
        ensures
            final(self)@ == old(self)@,
            20 <= final(self).filler_len() < 80,
    {
        let len = random_len(20, 80);
        self.random_string = random_chars(len);
        assert(final_view_same(self, old(self)@)) by {
            assert(self@ =~= old(self)@);
        }
    }

    /// The random filler text, stored with the secrets so that two
    /// encryptions of the same secrets differ.
    pub closed spec fn filler_text(&self) -> Seq<char> {
        self.random_string@
    }

    /// The number of characters of the filler text.
    pub open spec fn filler_len(&self) -> nat {
        self.filler_text().len()
    }

    /// The references under which secrets are stored.
    pub fn keys(&self) -> (r: Keys<'_, u64, String>)
        ensures
            vstd::std_specs::hash::into_iter_keys(r).to_set() == self@.dom(),
            vstd::std_specs::hash::into_iter_keys(r).no_duplicates(),
    {
        let r = self.content.keys();
        proof {
            assert(self@.dom() =~= self.content@.dom());
        }
        r
    }

    /// The references under which secrets are stored, as a list.
    pub fn key_list(&self) -> (r: Vec<u64>)
        ensures
            r@.to_set() == self@.dom(),
            r@.no_duplicates(),
    {
        let mut r: Vec<u64> = Vec::new();
        let ghost all = vstd::std_specs::iter::IteratorSpec::remaining(&vstd::std_specs::hash::spec_keys_iter(&self.content)).unref();
        for k in it: self.content.keys()
            invariant
                it.seq() == vstd::std_specs::iter::IteratorSpec::remaining(&vstd::std_specs::hash::spec_keys_iter(&self.content)),
                all == it.seq().unref(),
                r@ =~= all.take(it.index() as int),
        {
            r.push(*k);
        }
        proof {
            assert(self@.dom() =~= self.content@.dom());
        }
        assert(r@ =~= all);
        r
    }

    /// Stores `s` under `idx`; returns the value that was stored there before.
    pub fn add(&mut self, idx: u64, s: String) -> (r: Option<String>)
        ensures
            final(self)@ == old(self)@.insert(idx, s@),
            final(self).filler_text() == old(self).filler_text(),
            match r {
                Some(v) => old(self)@.contains_key(idx) && v@ == old(self)@[idx],
                None => !old(self)@.contains_key(idx),
            },
    {
        let r = self.content.insert(idx, s);
        assert(self@ =~= old(self)@.insert(idx, s@));
        r
    }

    /// Removes the value stored under `idx`, if any.
    pub fn remove(&mut self, idx: u64)
        ensures
            final(self)@ == old(self)@.remove(idx),
            final(self).filler_text() == old(self).filler_text(),
    {
        self.content.remove(&idx);
        assert(self@ =~= old(self)@.remove(idx));
    }

    /// The value stored under `idx`.
    pub fn get(&self, idx: u64) -> (r: Option<&String>)
        ensures
            match r {
                Some(v) => self@.contains_key(idx) && v@ == self@[idx],
                None => !self@.contains_key(idx),
            },
    {
        self.content.get(&idx)
    }
}

spec fn final_view_same(s: &Secrets, v: Map<u64, Seq<char>>) -> bool {
    s@ == v
}


/// What `add`, `remove` and `get` do over any sequence of calls: a value
/// added under a reference is found there until it is replaced or removed;
/// a removed reference finds nothing; other references are not touched; new
/// secrets hold nothing; `get` changes nothing.
pub proof fn law_add_get_remove(s: Secrets, i: u64, v: Seq<char>, j: u64)
    ensures
        s@.insert(i, v).contains_key(i) && s@.insert(i, v)[i] == v,
        !s@.remove(i).contains_key(i),
        j != i ==> s@.insert(i, v).contains_key(j) == s@.contains_key(j),
        j != i && s@.contains_key(j) ==> s@.insert(i, v)[j] == s@[j],
        j != i ==> s@.remove(i).contains_key(j) == s@.contains_key(j),
        j != i && s@.contains_key(j) ==> s@.remove(i)[j] == s@[j],
        !Map::<u64, Seq<char>>::empty().contains_key(i),
{
}
} // verus!
