//! Names of bundles and documents, compared without regard to ASCII case.
use super::text::{eq_ignore_ascii_case, fold, lex_lt, lt_ignore_ascii_case};
use vstd::prelude::*;
use vstd::utf8::encode_utf8;

verus! {

/// The name of a bundle or document.
///
/// Two keys are equal when their texts are equal up to the case of ASCII
/// letters, and keys are ordered by their ASCII-lower-cased texts.
#[derive(Debug, Default, Eq)]
pub struct Key(pub String);

/// The bytes by which keys are compared: the UTF-8 encoding of the text with
/// ASCII letters lower-cased.
pub open spec fn folded(text: Seq<char>) -> Seq<u8> {
    fold(encode_utf8(text))
}

impl Key {
    /// The text of the key.
    pub open spec fn text(&self) -> Seq<char> {
        self.0@
    }

    /// The bytes that identify the key.
    pub open spec fn id(&self) -> Seq<u8> {
        folded(self.0@)
    }

    /// Whether this key sorts strictly before `other`.
    pub open spec fn before(&self, other: &Key) -> bool {
        lex_lt(self.id(), other.id())
    }

    /// A key with the given text.
    pub fn new(s: String) -> (k: Self)
        ensures
            k.text() == s@,
    {
        Key(s)
    }

    /// The text of the key.
    pub fn as_str(&self) -> (r: &str)
        ensures
            r@ == self.text(),
    {
        self.0.as_str()
    }

    /// Mutable access to the text of the key.
    pub fn as_mut(&mut self) -> (r: &mut String)
        ensures
            *r == old(self).0,
            final(self).0 == *final(r),
    {
        &mut self.0
    }

    /// Whether the text of the key is empty.
    pub fn is_empty(&self) -> (r: bool)
        ensures
            r == (self.text().len() == 0),
    {
        self.0.as_str().is_empty()
    }

    /// A copy of the key.
    pub fn duplicate(&self) -> (r: Key)
        ensures
            r == *self,
    {
        Key(self.0.clone())
    }

    /// Whether both keys name the same thing (texts equal up to ASCII case).
    pub fn same_as(&self, other: &Key) -> (r: bool)
        ensures
            r == (self.id() == other.id()),
    {
        eq_ignore_ascii_case(self.0.as_str().as_bytes(), other.0.as_str().as_bytes())
    }

    /// Whether this key sorts strictly before `other`.
    pub fn sorts_before(&self, other: &Key) -> (r: bool)
        ensures
            r == self.before(other),
    {
        lt_ignore_ascii_case(self.0.as_str().as_bytes(), other.0.as_str().as_bytes())
    }
}

impl Clone for Key {
    fn clone(&self) -> (r: Self)
        ensures
            r == *self,
    {
        self.duplicate()
    }
}

impl PartialEq for Key {
    fn eq(&self, other: &Key) -> (r: bool) {
        self.same_as(other)
    }
}

impl vstd::std_specs::cmp::PartialEqSpecImpl for Key {
    open spec fn obeys_eq_spec() -> bool {
        true
    }

    open spec fn eq_spec(&self, other: &Key) -> bool {
        self.id() == other.id()
    }
}

impl From<String> for Key {
    fn from(s: String) -> (k: Key) {
        Key(s)
    }
}

impl vstd::std_specs::convert::FromSpecImpl<String> for Key {
    open spec fn obeys_from_spec() -> bool {
        true
    }

    open spec fn from_spec(s: String) -> Key {
        Key(s)
    }
}

/// Equality of keys is an equivalence relation, and the order of keys is a
/// strict total order on the classes of equal keys.
pub proof fn law_key_order(a: Key, b: Key, c: Key)
    ensures
        a.id() == a.id(),
        a.id() == b.id() ==> b.id() == a.id(),
        a.id() == b.id() && b.id() == c.id() ==> a.id() == c.id(),
        !a.before(&a),
        a.id() == b.id() || a.before(&b) || b.before(&a),
        !(a.before(&b) && b.before(&a)),
        a.before(&b) ==> a.id() != b.id(),
        a.before(&b) && b.before(&c) ==> a.before(&c),
{
    super::text::lemma_lex_irreflexive(a.id());
    super::text::lemma_lex_trichotomy(a.id(), b.id());
    if a.before(&b) && b.before(&c) {
        super::text::lemma_lex_transitive(a.id(), b.id(), c.id());
    }
}

} // verus!
