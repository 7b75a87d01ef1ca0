//! A document: a single secret text.
use super::bundle::now;
use super::secret::Secret;
use super::transient::Transient;
use jiff::Zoned;
use vstd::prelude::*;

verus! {

/// A document; its text is kept in the `Transient`.
#[derive(Debug)]
pub struct Document {
    pub secret: Secret,
    pub last_changed_at: Zoned,
}

impl Document {
    /// A document with the given secret, changed now.
    pub fn new(secret: Secret) -> (d: Self)
        ensures
            d.secret == secret,
    {
        Document { secret, last_changed_at: now() }
    }

    /// The reference to the text.
    pub fn secret(&self) -> (r: &Secret)
        ensures
            *r == self.secret,
    {
        &self.secret
    }

    /// The text of the document.
    pub fn text<'t>(&self, transient: &'t Transient) -> (r: &'t str)
        requires
            transient.secrets().contains_key(self.secret.0),
        ensures
            r@ == transient.secrets()[self.secret.0],
    {
        self.secret.disclose(transient)
    }

    /// When the document was last changed.
    pub fn last_changed_at(&self) -> (r: &Zoned)
        ensures
            *r == self.last_changed_at,
    {
        &self.last_changed_at
    }

    /// The reference to the text.
    pub fn reff(&self) -> (r: u64)
        ensures
            r == self.secret.0,
    {
        self.secret.0
    }
}

} // verus!
