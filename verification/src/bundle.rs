//! The first form of a bundle: a description and named secrets, each either
//! a new value that is not stored yet or a reference to a stored one. A
//! bundle can only be written to a file once all its secrets are references.
//!
//! The names are kept in the byte order of their texts, as a `BTreeMap` of
//! strings keeps them.
use crate::data::text::{bytes_lt, lemma_lex_irreflexive, lemma_lex_transitive, lemma_lex_trichotomy, lex_lt};
use crate::data::pl_file::bytes_eq;
use crate::data::transient::Transient;
use vstd::prelude::*;
use vstd::utf8::{encode_utf8, encode_utf8_decode_utf8};

verus! {

/// A secret of a bundle.
pub enum Secret {
    /// A value that is not stored yet.
    New(String),
    /// The reference of a stored value.
    Ref(u64),
}

/// A description and named secrets.
pub struct Bundle {
    description: String,
    named_secrets: Vec<(String, Secret)>,
}

/// The bytes of the name of entry `i`, by which entries are ordered.
pub open spec fn bytes_at(s: Seq<(String, Secret)>, i: int) -> Seq<u8> {
    encode_utf8(s[i].0@)
}

/// The names ascend strictly in byte order.
pub open spec fn ascending(s: Seq<(String, Secret)>) -> bool {
    forall|i: int, j: int| 0 <= i < j < s.len() ==> lex_lt(#[trigger] bytes_at(s, i), #[trigger] bytes_at(s, j))
}

/// The name of entry `i`.
pub open spec fn name_at(s: Seq<(String, Secret)>, i: int) -> Seq<char> {
    s[i].0@
}

/// Whether some entry has the name `n`.
pub open spec fn has_name(s: Seq<(String, Secret)>, n: Seq<char>) -> bool {
    exists|i: int| 0 <= i < s.len() && #[trigger] name_at(s, i) == n
}

/// The position of the entry named `n`.
pub open spec fn position_of(s: Seq<(String, Secret)>, n: Seq<char>) -> int {
    choose|i: int| 0 <= i < s.len() && #[trigger] name_at(s, i) == n
}

/// The secret of the entry named `n`.
pub open spec fn secret_named(s: Seq<(String, Secret)>, n: Seq<char>) -> Secret {
    s[position_of(s, n)].1
}

/// The entries as a map from name to secret.
pub open spec fn named_map(s: Seq<(String, Secret)>) -> Map<Seq<char>, Secret> {
    Map::new(|n: Seq<char>| has_name(s, n), |n: Seq<char>| secret_named(s, n))
}

/// The number of new secrets among the first `k` entries.
pub open spec fn new_count(s: Seq<(String, Secret)>, k: int) -> nat
    decreases k,
{
    if k <= 0 {
        0
    } else {
        new_count(s, k - 1) + if s[k - 1].1 is New { 1nat } else { 0nat }
    }
}

/// What a secret stands for, given the stored values.
pub open spec fn resolved(secret: Secret, stored: Map<u64, Seq<char>>) -> Seq<char> {
    match secret {
        Secret::New(s) => s@,
        Secret::Ref(i) => stored[i],
    }
}

/// Entries with equal names are the same entry.
proof fn lemma_unique(s: Seq<(String, Secret)>, i: int, j: int)
    requires
        ascending(s),
        0 <= i < s.len(),
        0 <= j < s.len(),
        s[i].0@ == s[j].0@,
    ensures
        i == j,
{
    lemma_lex_irreflexive(bytes_at(s, i));
    if i < j {
        assert(lex_lt(bytes_at(s, i), bytes_at(s, j)));
    } else if j < i {
        assert(lex_lt(bytes_at(s, j), bytes_at(s, i)));
    }
}

/// The map finds each entry under its name.
proof fn lemma_map_at(s: Seq<(String, Secret)>, i: int)
    requires
        ascending(s),
        0 <= i < s.len(),
    ensures
        named_map(s).contains_key(s[i].0@),
        named_map(s)[s[i].0@] == s[i].1,
{
    let n = s[i].0@;
    assert(name_at(s, i) == n);
    let k = position_of(s, n);
    lemma_unique(s, i, k);
}

/// Equal bytes mean equal names.
proof fn lemma_bytes_name(a: Seq<char>, b: Seq<char>)
    requires
        encode_utf8(a) == encode_utf8(b),
    ensures
        a == b,
{
    encode_utf8_decode_utf8(a);
    encode_utf8_decode_utf8(b);
}

/// Inserting an entry with a new name at its place adds it to the map.
proof fn lemma_map_insert(s: Seq<(String, Secret)>, i: int, e: (String, Secret))
    requires
        ascending(s),
        0 <= i <= s.len(),
        !has_name(s, e.0@),
        ascending(s.insert(i, e)),
    ensures
        named_map(s.insert(i, e)) == named_map(s).insert(e.0@, e.1),
{
    let t = s.insert(i, e);
    let m = named_map(s).insert(e.0@, e.1);
    assert forall|n: Seq<char>| #[trigger] named_map(t).contains_key(n) == m.contains_key(n) by {
        if has_name(t, n) {
            let k = position_of(t, n);
            if k < i {
                assert(name_at(s, k) == n);
            } else if k > i {
                assert(name_at(s, k - 1) == n);
            }
        }
        if has_name(s, n) {
            let k = position_of(s, n);
            if k < i {
                assert(name_at(t, k) == n);
            } else {
                assert(name_at(t, k + 1) == n);
            }
        }
        if n == e.0@ {
            assert(name_at(t, i) == n);
        }
    }
    assert forall|n: Seq<char>| #[trigger] named_map(t).contains_key(n) implies named_map(t)[n] == m[n] by {
        let k = position_of(t, n);
        lemma_map_at(t, k);
        if k < i {
            assert(t[k] == s[k]);
            lemma_map_at(s, k);
        } else if k > i {
            assert(t[k] == s[k - 1]);
            lemma_map_at(s, k - 1);
        }
    }
    assert(named_map(t) =~= m);
}

/// Replacing the secret of entry `i` replaces it in the map.
proof fn lemma_map_update(s: Seq<(String, Secret)>, i: int, v: Secret)
    requires
        ascending(s),
        0 <= i < s.len(),
    ensures
        ascending(s.update(i, (s[i].0, v))),
        named_map(s.update(i, (s[i].0, v))) == named_map(s).insert(s[i].0@, v),
{
    let t = s.update(i, (s[i].0, v));
    let m = named_map(s).insert(s[i].0@, v);
    assert forall|a: int, b: int| 0 <= a < b < t.len() implies lex_lt(#[trigger] bytes_at(t, a), #[trigger] bytes_at(t, b)) by {
        assert(bytes_at(t, a) == bytes_at(s, a));
        assert(bytes_at(t, b) == bytes_at(s, b));
    }
    assert forall|n: Seq<char>| #[trigger] named_map(t).contains_key(n) == m.contains_key(n) by {
        if has_name(t, n) {
            let k = position_of(t, n);
            assert(name_at(s, k) == n);
        }
        if has_name(s, n) {
            let k = position_of(s, n);
            assert(name_at(t, k) == n);
        }
        if n == s[i].0@ {
            assert(name_at(t, i) == n);
        }
    }
    assert forall|n: Seq<char>| #[trigger] named_map(t).contains_key(n) implies named_map(t)[n] == m[n] by {
        assert(ascending(t));
        let k = position_of(t, n);
        lemma_map_at(t, k);
        if k != i {
            assert(t[k] == s[k]);
            lemma_map_at(s, k);
            if n == s[i].0@ {
                assert(name_at(t, i) == n);
                lemma_unique(t, k, i);
            }
        }
    }
    assert(named_map(t) =~= m);
}

/// The map has one name per entry.
proof fn lemma_map_len(s: Seq<(String, Secret)>)
    requires
        ascending(s),
    ensures
        named_map(s).len() == s.len(),
{
    let names = s.map_values(|e: (String, Secret)| e.0@);
    assert forall|n: Seq<char>| #[trigger] named_map(s).dom().contains(n) == names.to_set().contains(n) by {
        if has_name(s, n) {
            let k = position_of(s, n);
            assert(names[k] == n);
        }
        if names.contains(n) {
            let k = choose|k: int| 0 <= k < names.len() && names[k] == n;
            assert(name_at(s, k) == n);
        }
    }
    assert(named_map(s).dom() =~= names.to_set());
    assert forall|a: int, b: int| 0 <= a < names.len() && 0 <= b < names.len() && a != b implies names[a] != names[b] by {
        if names[a] == names[b] {
            lemma_unique(s, a, b);
        }
    }
    assert(names.no_duplicates());
    names.unique_seq_to_set();
}

/// Counting new secrets up to a point never exceeds counting them further.
proof fn lemma_new_count_monotone(s: Seq<(String, Secret)>, i: int, k: int)
    requires
        i <= k,
    ensures
        new_count(s, i) <= new_count(s, k),
    decreases k - i,
{
    if i < k {
        lemma_new_count_monotone(s, i, k - 1);
    }
}

impl Bundle {
    /// The description.
    pub closed spec fn spec_description(&self) -> Seq<char> {
        self.description@
    }

    /// The named secrets, in the byte order of their names.
    pub closed spec fn entries(&self) -> Seq<(String, Secret)> {
        self.named_secrets@
    }

    /// The names ascend strictly.
    pub closed spec fn wf(&self) -> bool {
        ascending(self.named_secrets@)
    }

    /// The secrets, by name.
    pub open spec fn named(&self) -> Map<Seq<char>, Secret> {
        named_map(self.entries())
    }

    /// A bundle with the given description and no secrets.
    pub fn new(description: &str) -> (b: Self)
        ensures
            b.wf(),
            b.spec_description() == description@,
            b.entries().len() == 0,
            b.named() == Map::<Seq<char>, Secret>::empty(),
    {
        let b = Bundle { description: description.to_string(), named_secrets: Vec::new() };
        assert(b.named() =~= Map::<Seq<char>, Secret>::empty());
        b
    }

    /// The number of named secrets.
    pub fn len(&self) -> (n: usize)
        requires
            self.wf(),
        ensures
            n == self.named().len(),
    {
        proof {
            lemma_map_len(self.named_secrets@);
        }
        self.named_secrets.len()
    }

    /// Whether there are no named secrets.
    pub fn is_empty(&self) -> (r: bool)
        requires
            self.wf(),
        ensures
            r == (self.named().len() == 0),
    {
        self.len() == 0
    }

    /// Replaces the description.
    pub fn update_description(&mut self, description: &str)
        ensures
            final(self).spec_description() == description@,
            final(self).entries() == old(self).entries(),
            final(self).wf() == old(self).wf(),
    {
        self.description = description.to_string();
    }

    /// Sets the secret named `id` to the new value `password`, replacing any
    /// secret of that name.
    pub fn add_cred(&mut self, id: String, password: String)
        requires
            old(self).wf(),
        ensures
            final(self).wf(),
            final(self).spec_description() == old(self).spec_description(),
            final(self).named() == old(self).named().insert(id@, Secret::New(password)),
    {
        let ghost s = self.named_secrets@;
        let ghost id_text = id@;
        let n = self.named_secrets.len();
        let mut i: usize = 0;
        while i < n && bytes_lt(self.named_secrets[i].0.as_str().as_bytes(), id.as_str().as_bytes())
            invariant
                n == s.len(),
                self.named_secrets@ == s,
                ascending(s),
                i <= n,
                id@ == id_text,
                forall|j: int| 0 <= j < i ==> lex_lt(#[trigger] bytes_at(s, j), encode_utf8(id_text)),
            decreases n - i,
        {
            i = i + 1;
        }
        let found = i < n && bytes_eq(self.named_secrets[i].0.as_str().as_bytes(), id.as_str().as_bytes());
        if found {
            let name = self.named_secrets[i].0.clone();
            self.named_secrets.set(i, (name, Secret::New(password)));
            proof {
                lemma_bytes_name(s[i as int].0@, id_text);
                lemma_map_update(s, i as int, Secret::New(password));
            }
        } else {
            let ghost e = (id, Secret::New(password));
            proof {
                let id_bytes = encode_utf8(id_text);
                if i < n {
                    lemma_lex_trichotomy(bytes_at(s, i as int), id_bytes);
                }
                assert forall|k: int| 0 <= k < s.len() implies #[trigger] name_at(s, k) != id_text by {
                    if name_at(s, k) == id_text {
                        assert(bytes_at(s, k) == id_bytes);
                        lemma_lex_irreflexive(id_bytes);
                        if k > i {
                            assert(lex_lt(bytes_at(s, i as int), bytes_at(s, k)));
                            lemma_lex_trichotomy(bytes_at(s, i as int), id_bytes);
                        }
                    }
                }
                let t = s.insert(i as int, e);
                assert forall|a: int, b: int| 0 <= a < b < t.len() implies lex_lt(#[trigger] bytes_at(t, a), #[trigger] bytes_at(t, b)) by {
                    if b < i {
                        assert(bytes_at(t, a) == bytes_at(s, a));
                        assert(bytes_at(t, b) == bytes_at(s, b));
                    } else if b == i {
                        assert(bytes_at(t, a) == bytes_at(s, a));
                    } else if a == i {
                        assert(bytes_at(t, b) == bytes_at(s, b - 1));
                        if b - 1 > i {
                            assert(lex_lt(bytes_at(s, i as int), bytes_at(s, b - 1)));
                            lemma_lex_transitive(id_bytes, bytes_at(s, i as int), bytes_at(s, b - 1));
                        }
                    } else if a < i {
                        assert(bytes_at(t, a) == bytes_at(s, a));
                        assert(bytes_at(t, b) == bytes_at(s, b - 1));
                        if a < b - 1 {
                            assert(lex_lt(bytes_at(s, a), bytes_at(s, b - 1)));
                        } else {
                            lemma_lex_irreflexive(id_bytes);
                        }
                    } else {
                        assert(bytes_at(t, a) == bytes_at(s, a - 1));
                        assert(bytes_at(t, b) == bytes_at(s, b - 1));
                    }
                }
            }
            self.named_secrets.insert(i, (id, Secret::New(password)));
            proof {
                assert(self.named_secrets@ == s.insert(i as int, e));
                lemma_map_insert(s, i as int, e);
            }
        }
    }

    /// Stores every new value among the transient's secrets, in the order
    /// of the names, and puts its reference in its place; references stay
    /// as they are.
    pub fn convert_to_refs(&mut self, transient: &mut Transient)
        requires
            old(self).wf(),
            old(transient).wf(),
            old(transient).has_room_for(new_count(old(self).entries(), old(self).entries().len() as int)),
        ensures
            final(self).wf(),
            final(self).spec_description() == old(self).spec_description(),
            final(self).entries().len() == old(self).entries().len(),
            forall|i: int| 0 <= i < final(self).entries().len() ==> (#[trigger] final(self).entries()[i]).1 is Ref,
            final(transient).wf(),
            final(transient).password() == old(transient).password(),
            forall|i: int| 0 <= i < old(self).entries().len() ==> (#[trigger] final(self).entries()[i]).0 == old(
                self,
            ).entries()[i].0,
            forall|i: int| 0 <= i < old(self).entries().len() && old(self).entries()[i].1 is Ref ==> (
            #[trigger] final(self).entries()[i]).1 == old(self).entries()[i].1,
            forall|i: int| 0 <= i < old(self).entries().len() && old(self).entries()[i].1 is New ==> {
                let r = (old(transient).next_ref().unwrap() + new_count(old(self).entries(), i)) as u64;
                &&& old(transient).next_ref() is Some
                &&& (#[trigger] final(self).entries()[i]).1 == Secret::Ref(r)
                &&& final(transient).secrets()[r] == old(self).entries()[i].1->New_0@
            },
            forall|k: u64| #[trigger] final(transient).secrets().contains_key(k) <==> old(transient).secrets().contains_key(k)
                || (old(transient).next_ref() matches Some(b) && b <= k < b + new_count(
                old(self).entries(),
                old(self).entries().len() as int,
            )),
            forall|k: u64| #[trigger] old(transient).secrets().contains_key(k) ==> final(transient).secrets()[k]
                == old(transient).secrets()[k],
    {
        let ghost s = self.named_secrets@;
        let ghost total = new_count(s, s.len() as int);
        let ghost start = transient.secrets();
        let ghost base: int = match transient.next_ref() {
            Some(b) => b as int,
            None => 0,
        };
        let ghost first = *transient;
        let n = self.named_secrets.len();
        let mut i: usize = 0;
        while i < n
            invariant
                n == s.len(),
                ascending(s),
                i <= n,
                self.named_secrets@.len() == n,
                self.description == old(self).description,
                s == old(self).named_secrets@,
                total == new_count(s, n as int),
                start == first.secrets(),
                base == match first.next_ref() {
                    Some(b) => b as int,
                    None => 0,
                },
                new_count(s, i as int) <= total,
                transient.wf(),
                transient.password() == first.password(),
                transient.has_room_for((total - new_count(s, i as int)) as nat),
                new_count(s, i as int) < total ==> transient.next_ref() == Some((base + new_count(s, i as int)) as u64),
                total > 0 ==> first.next_ref() is Some,
                total > 0 ==> base + total <= u64::MAX + 1,
                forall|j: int| 0 <= j < n ==> (#[trigger] self.named_secrets@[j]).0 == s[j].0,
                forall|j: int| i <= j < n ==> (#[trigger] self.named_secrets@[j]) == s[j],
                forall|j: int| 0 <= j < i && s[j].1 is Ref ==> (#[trigger] self.named_secrets@[j]).1 == s[j].1,
                forall|j: int| 0 <= j < i && s[j].1 is New ==> {
                    let r = (base + new_count(s, j)) as u64;
                    &&& (#[trigger] self.named_secrets@[j]).1 == Secret::Ref(r)
                    &&& transient.secrets()[r] == s[j].1->New_0@
                },
                forall|k: u64| #[trigger] transient.secrets().contains_key(k) <==> start.contains_key(k)
                    || (first.next_ref() is Some && base <= k < base + new_count(s, i as int)),
                forall|k: u64| #[trigger] start.contains_key(k) ==> transient.secrets()[k] == start[k],
            decreases n - i,
        {
            proof {
                lemma_new_count_monotone(s, i + 1, n as int);
            }
            let is_new = match &self.named_secrets[i].1 {
                Secret::New(_) => true,
                Secret::Ref(_) => false,
            };
            if is_new {
                let value = match &self.named_secrets[i].1 {
                    Secret::New(v) => v.clone(),
                    Secret::Ref(_) => String::new(),
                };
                let ghost before = *transient;
                let ghost before_v = self.named_secrets@;
                let ghost c = new_count(s, i as int);
                proof {
                    assert(new_count(s, i + 1) == c + 1);
                    assert(c < total);
                    assert(before.next_ref() == Some((base + c) as u64));
                }
                let r = transient.add_secret(value);
                let name = self.named_secrets[i].0.clone();
                self.named_secrets.set(i, (name, Secret::Ref(r)));
                proof {
                    assert(r == base + c);
                    assert(before.has_room_for(((total - new_count(s, i + 1)) + 1) as nat));
                    assert forall|j: int| 0 <= j < i && s[j].1 is New implies transient.secrets()[(base + new_count(s, j)) as u64]
                        == s[j].1->New_0@ by {
                        lemma_new_count_monotone(s, j + 1, i as int);
                        assert(new_count(s, j + 1) == new_count(s, j) + 1);
                        assert(base + new_count(s, j) < r);
                        assert(before_v[j].1 == Secret::Ref((base + new_count(s, j)) as u64));
                    }
                }
            } else {
                proof {
                    assert(new_count(s, i + 1) == new_count(s, i as int));
                }
            }
            i = i + 1;
        }
        proof {
            assert forall|j: int| 0 <= j < n && s[j].1 is New implies first.next_ref() is Some by {
                lemma_new_count_monotone(s, j + 1, n as int);
            }
            assert forall|a: int, b: int| 0 <= a < b < self.named_secrets@.len() implies lex_lt(
                #[trigger] bytes_at(self.named_secrets@, a),
                #[trigger] bytes_at(self.named_secrets@, b),
            ) by {
                assert(bytes_at(self.named_secrets@, a) == bytes_at(s, a));
                assert(bytes_at(self.named_secrets@, b) == bytes_at(s, b));
            }
        }
    }

    /// Whether all secrets are references, so that the bundle can be written.
    pub fn is_storable(&self) -> (r: bool)
        ensures
            r == forall|i: int| 0 <= i < self.entries().len() ==> (#[trigger] self.entries()[i]).1 is Ref,
    {
        let mut i: usize = 0;
        while i < self.named_secrets.len()
            invariant
                i <= self.named_secrets@.len(),
                forall|j: int| 0 <= j < i ==> (#[trigger] self.named_secrets@[j]).1 is Ref,
            decreases self.named_secrets@.len() - i,
        {
            if let Secret::New(_) = &self.named_secrets[i].1 {
                return false;
            }
            i = i + 1;
        }
        true
    }

    /// The value of the secret named `name`.
    pub fn secret(&self, name: &str, transient: &Transient) -> (r: String)
        requires
            self.wf(),
            self.named().contains_key(name@),
            self.named()[name@] matches Secret::Ref(i) ==> transient.secrets().contains_key(i),
        ensures
            r@ == resolved(self.named()[name@], transient.secrets()),
    {
        let ghost s = self.named_secrets@;
        let mut i: usize = 0;
        while i < self.named_secrets.len()
            invariant
                s == self.named_secrets@,
                ascending(s),
                named_map(s).contains_key(name@),
                named_map(s)[name@] matches Secret::Ref(k) ==> transient.secrets().contains_key(k),
                i <= s.len(),
                forall|j: int| 0 <= j < i ==> bytes_at(s, j) != encode_utf8(name@),
            decreases s.len() - i,
        {
            if bytes_eq(self.named_secrets[i].0.as_str().as_bytes(), name.as_bytes()) {
                proof {
                    lemma_bytes_name(s[i as int].0@, name@);
                    lemma_map_at(s, i as int);
                }
                return self.named_secrets[i].1.resolve(transient);
            }
            i = i + 1;
        }
        proof {
            let k = position_of(s, name@);
            assert(bytes_at(s, k) == encode_utf8(name@));
        }
        String::new()
    }
}

impl Secret {
    /// The value the secret stands for: a new value as it is, a reference
    /// looked up among the stored secrets.
    pub fn resolve(&self, transient: &Transient) -> (r: String)
        requires
            *self matches Secret::Ref(i) ==> transient.secrets().contains_key(i),
        ensures
            r@ == resolved(*self, transient.secrets()),
    {
        match self {
            Secret::New(s) => s.clone(),
            Secret::Ref(i) => match transient.get_secret(*i) {
                Some(s) => s.clone(),
                None => String::new(),
            },
        }
    }
}

impl Default for Secret {
    fn default() -> (s: Secret)
        ensures
            s matches Secret::New(v) && v@.len() == 0,
    {
        Secret::New(String::new())
    }
}

} // verus!
