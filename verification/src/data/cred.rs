//! A credential: a named secret, where both the name and the secret are kept
//! in the `Transient`.
use super::secret::Secret;
use super::transient::Transient;
use vstd::prelude::*;

verus! {

/// A credential of a bundle.
#[derive(Clone, Copy, Debug)]
pub struct Cred {
    pub name: Secret,
    pub secret: Secret,
}

impl Cred {
    /// Stores name and password as two new secrets.
    pub fn new(name: String, password: String, transient: &mut Transient) -> (c: Self)
        requires
            old(transient).wf(),
            old(transient).has_room_for(2),
        ensures
            final(transient).wf(),
            c.name.0 != c.secret.0,
            !old(transient).secrets().contains_key(c.name.0),
            !old(transient).secrets().contains_key(c.secret.0),
            final(transient).secrets() == old(transient).secrets().insert(c.name.0, name@).insert(
                c.secret.0,
                password@,
            ),
            final(transient).password() == old(transient).password(),
            forall|k: nat| old(transient).has_room_for(k + 2) ==> #[trigger] final(transient).has_room_for(k),
    {
        let n = Secret::new(name, transient);
        assert(transient.has_room_for(1));
        let s = Secret::new(password, transient);
        assert forall|k: nat| old(transient).has_room_for(k + 2) implies #[trigger] transient.has_room_for(k) by {
            assert(old(transient).has_room_for((k + 1) + 1));
        }
        Cred { name: n, secret: s }
    }

    /// The name of the credential.
    pub fn name<'t>(&self, transient: &'t Transient) -> (r: &'t str)
        requires
            transient.secrets().contains_key(self.name.0),
        ensures
            r@ == transient.secrets()[self.name.0],
    {
        self.name.disclose(transient)
    }

    /// The secret of the credential.
    pub fn secret<'t>(&self, transient: &'t Transient) -> (r: &'t str)
        requires
            transient.secrets().contains_key(self.secret.0),
        ensures
            r@ == transient.secrets()[self.secret.0],
    {
        self.secret.disclose(transient)
    }
}

} // verus!
