//! A reference to a secret value held by the `Transient`.
use super::transient::Transient;
use vstd::prelude::*;

verus! {

/// The reference under which a secret value is stored.
#[derive(Clone, Copy, Debug, PartialEq, Eq)]
pub struct Secret(pub u64);

impl Secret {
    /// Stores `value` as a new secret and refers to it.
    pub fn new(value: String, transient: &mut Transient) -> (s: Secret)
        requires
            old(transient).wf(),
            old(transient).has_room(),
        ensures
            final(transient).wf(),
            !old(transient).secrets().contains_key(s.0),
            final(transient).secrets() == old(transient).secrets().insert(s.0, value@),
            final(transient).password() == old(transient).password(),
            old(transient).next_ref() == Some(s.0),
            forall|c: nat| old(transient).has_room_for(c + 1) ==> #[trigger] final(transient).has_room_for(c),
    {
        Secret(transient.add_secret(value))
    }

    /// The reference.
    pub fn reff(&self) -> (r: u64)
        ensures
            r == self.0,
    {
        self.0
    }

    /// The secret value referred to; it must be present.
    pub fn disclose<'t>(&self, transient: &'t Transient) -> (r: &'t str)
        requires
            transient.secrets().contains_key(self.0),
        ensures
            r@ == transient.secrets()[self.0],
    {
        match transient.get_secret(self.0) {
            Some(s) => s.as_str(),
            None => "",
        }
    }
}

} // verus!
