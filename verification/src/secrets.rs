//! A plain map from references to secret values.
use std::collections::hash_map::Keys;
use std::collections::HashMap;
use vstd::prelude::*;

verus! {

broadcast use vstd::std_specs::hash::group_hash_axioms;

/// A map from references to secret values.
#[derive(Debug, Default)]
pub struct Secrets(HashMap<u64, String>);

impl View for Secrets {
    type V = Map<u64, Seq<char>>;

    /// The secret values, by reference.
    closed spec fn view(&self) -> Map<u64, Seq<char>> {
        Map::new(|k: u64| self.0@.contains_key(k), |k: u64| self.0@[k]@)
    }
}

impl Secrets {
    /// No secrets.
    pub fn new() -> (s: Self)
        ensures
            s@ == Map::<u64, Seq<char>>::empty(),
    {
        let s = Secrets(HashMap::new());
        assert(s@ =~= Map::<u64, Seq<char>>::empty());
        s
    }

    /// The references under which secrets are stored.
    pub fn keys(&self) -> (r: Keys<'_, u64, String>)
        ensures
            vstd::std_specs::hash::into_iter_keys(r).to_set() == self@.dom(),
            vstd::std_specs::hash::into_iter_keys(r).no_duplicates(),
    {
        let r = self.0.keys();
        proof {
            assert(self@.dom() =~= self.0@.dom());
        }
        r
    }

    /// Stores `s` under `idx`; returns the value that was stored there before.
    pub fn add(&mut self, idx: u64, s: String) -> (r: Option<String>)
        ensures
            final(self)@ == old(self)@.insert(idx, s@),
            match r {
                Some(v) => old(self)@.contains_key(idx) && v@ == old(self)@[idx],
                None => !old(self)@.contains_key(idx),
            },
    {
        let r = self.0.insert(idx, s);
        assert(self@ =~= old(self)@.insert(idx, s@));
        r
    }

    /// The value stored under `idx`.
    pub fn get(&self, idx: u64) -> (r: Option<&String>)
        ensures
            match r {
                Some(v) => self@.contains_key(idx) && v@ == self@[idx],
                None => !self@.contains_key(idx),
            },
    {
        self.0.get(&idx)
    }
}

/// A value stored under a reference is what a lookup under that reference
/// finds; other references keep their values.
pub proof fn law_add_then_get(m: Map<u64, Seq<char>>, idx: u64, s: Seq<char>, other: u64)
    ensures
        m.insert(idx, s).contains_key(idx),
        m.insert(idx, s)[idx] == s,
        other != idx ==> m.insert(idx, s).contains_key(other) == m.contains_key(other),
        other != idx && m.contains_key(other) ==> m.insert(idx, s)[other] == m[other],
{
}

} // verus!
