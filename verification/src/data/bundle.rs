//! A bundle: a description and zero or more credentials.
use super::cred::Cred;
use jiff::Zoned;
use vstd::prelude::*;

verus! {

/// `jiff::Zoned`, a point in time with its time zone; carried as an opaque value.
#[verifier::external_type_specification]
#[verifier::external_body]
pub struct ExZoned(Zoned);

/// `jiff::Zoned::now`: the current time in the system's time zone. Nothing is
/// known of the result.
#[verifier::external_body]
pub(crate) fn now() -> (r: Zoned) {
    Zoned::now()
}

/// A bundle of credentials with a description.
#[derive(Debug)]
pub struct Bundle {
    pub description: String,
    pub creds: Vec<Cred>,
    pub last_changed_at: Zoned,
}

/// The references of the given credentials: name and secret of each, in order.
pub open spec fn cred_refs(creds: Seq<Cred>) -> Seq<u64>
    decreases creds.len(),
{
    if creds.len() == 0 {
        Seq::empty()
    } else {
        cred_refs(creds.drop_last()).push(creds.last().name.0).push(creds.last().secret.0)
    }
}

/// There are two references per credential.
pub proof fn lemma_cred_refs_len(creds: Seq<Cred>)
    ensures
        cred_refs(creds).len() == 2 * creds.len(),
    decreases creds.len(),
{
    if creds.len() > 0 {
        lemma_cred_refs_len(creds.drop_last());
    }
}

/// Both references of every credential are among the references.
pub proof fn lemma_cred_refs_contains(creds: Seq<Cred>, j: int)
    requires
        0 <= j < creds.len(),
    ensures
        cred_refs(creds).contains(creds[j].name.0),
        cred_refs(creds).contains(creds[j].secret.0),
    decreases creds.len(),
{
    let r = cred_refs(creds);
    let init = cred_refs(creds.drop_last());
    if j == creds.len() - 1 {
        assert(r[r.len() - 2] == creds[j].name.0);
        assert(r[r.len() - 1] == creds[j].secret.0);
    } else {
        lemma_cred_refs_contains(creds.drop_last(), j);
        let a = choose|a: int| 0 <= a < init.len() && init[a] == creds[j].name.0;
        let b = choose|b: int| 0 <= b < init.len() && init[b] == creds[j].secret.0;
        assert(r[a] == init[a]);
        assert(r[b] == init[b]);
    }
}

impl Bundle {
    /// The references of all credentials of the bundle.
    pub open spec fn spec_refs(&self) -> Seq<u64> {
        cred_refs(self.creds@)
    }

    /// A bundle with the given description and credentials, changed now.
    pub fn new(description: String, creds: Vec<Cred>) -> (b: Self)
        ensures
            b.description == description,
            b.creds == creds,
    {
        Bundle { description, creds, last_changed_at: now() }
    }

    /// The description.
    pub fn description(&self) -> (r: &str)
        ensures
            r@ == self.description@,
    {
        self.description.as_str()
    }

    /// The credentials.
    pub fn creds(&self) -> (r: &[Cred])
        ensures
            r@ == self.creds@,
    {
        self.creds.as_slice()
    }

    /// When the bundle was last changed.
    pub fn last_changed_at(&self) -> (r: &Zoned)
        ensures
            *r == self.last_changed_at,
    {
        &self.last_changed_at
    }

    /// The references of all credentials: name and secret of each, in order.
    pub fn refs(&self) -> (r: Vec<u64>)
        ensures
            r@ == self.spec_refs(),
    {
        let mut r: Vec<u64> = Vec::new();
        let mut i: usize = 0;
        while i < self.creds.len()
            invariant
                i <= self.creds@.len(),
                r@ == cred_refs(self.creds@.take(i as int)),
            decreases self.creds@.len() - i,
        {
            assert(self.creds@.take(i + 1).drop_last() =~= self.creds@.take(i as int));
            r.push(self.creds[i].name.0);
            r.push(self.creds[i].secret.0);
            i = i + 1;
        }
        assert(self.creds@.take(self.creds@.len() as int) =~= self.creds@);
        r
    }
}

} // verus!
