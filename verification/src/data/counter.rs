//! The number generator of the `sequential` crate, as used for secret
//! references and for the update counter of a file.
//!
//! Each use holds a `sequential::Sequence` in a private field of an opaque
//! struct, whose contents are known only through what the counter shows
//! next; the functions below are the only access to it.
use sequential::Sequence as Counter;
use vstd::prelude::*;

verus! {

/// Hands out the references under which secrets are stored.
#[verifier::external_body]
pub struct RefCounter {
    inner: Counter<u64>,
}

/// What the next call of `next` on the counter returns, as shown by
/// `sequential::Sequence::peek`; `None` once the counter has passivated.
pub uninterp spec fn ref_counter_next(c: RefCounter) -> Option<u64>;

/// Counts the saves of a file.
#[verifier::external_body]
pub struct UpdateCounter {
    inner: Counter<usize>,
}

/// What `sequential::Sequence::peek` shows for the update counter.
pub uninterp spec fn update_counter_next(c: UpdateCounter) -> Option<usize>;

impl RefCounter {
    /// `sequential::Sequence::<u64>::start_after_highest` on the given keys.
    /// The crate's source starts after the largest value (after 0 when there
    /// is none) and passivates when that value is `u64::MAX`.
    #[verifier::external_body]
    pub(crate) fn after_highest(keys: &Vec<u64>) -> (c: RefCounter)
        ensures
            forall|k: u64| #[trigger] keys@.contains(k) ==> match ref_counter_next(c) {
                Some(n) => k < n,
                None => true,
            },
            ref_counter_next(c) is Some <==> !keys@.contains(u64::MAX),
            ref_counter_next(c) matches Some(n) ==> n > 0,
    {
        RefCounter { inner: Counter::start_after_highest(&mut keys.iter()) }
    }

    /// `Iterator::next` of `sequential::Sequence<u64>`: hands out the value
    /// that `peek` showed; afterwards `peek` shows the following value, or
    /// nothing at `u64::MAX` (the counter was started by `start_after_highest`,
    /// so it counts in steps of one up to `u64::MAX`).
    #[verifier::external_body]
    pub(crate) fn take(&mut self) -> (r: Option<u64>)
        ensures
            r == ref_counter_next(*old(self)),
            ref_counter_next(*final(self)) == match r {
                Some(v) => if v < u64::MAX { Some((v + 1) as u64) } else { None },
                None => None,
            },
    {
        self.inner.next()
    }

    /// `sequential::Sequence::<u64>::peek`.
    #[verifier::external_body]
    pub(crate) fn peek(&self) -> (r: Option<u64>)
        ensures
            r == ref_counter_next(*self),
    {
        self.inner.peek()
    }
}

impl UpdateCounter {
    /// `sequential::Sequence::<usize>::new`: starts with 0.
    #[verifier::external_body]
    pub(crate) fn new() -> (c: UpdateCounter)
        ensures
            update_counter_next(c) == Some(0usize),
    {
        UpdateCounter { inner: Counter::new() }
    }

    /// `sequential::Sequence::<usize>::start_with`: starts with `n`.
    #[verifier::external_body]
    pub(crate) fn starting_with(n: usize) -> (c: UpdateCounter)
        ensures
            update_counter_next(c) == Some(n),
    {
        UpdateCounter { inner: Counter::start_with(n) }
    }

    /// `sequential::Sequence::<usize>::start_after` on `usize::MAX`: a counter
    /// that has passivated and hands out nothing.
    #[verifier::external_body]
    pub(crate) fn exhausted() -> (c: UpdateCounter)
        ensures
            update_counter_next(c) is None,
    {
        UpdateCounter { inner: Counter::start_after(usize::MAX) }
    }

    /// `sequential::Sequence::<usize>::peek`.
    #[verifier::external_body]
    pub(crate) fn peek(&self) -> (r: Option<usize>)
        ensures
            r == update_counter_next(*self),
    {
        self.inner.peek()
    }

    /// `Iterator::next` of `sequential::Sequence<usize>`: hands out the value
    /// that `peek` showed; afterwards `peek` shows the following value, or
    /// nothing at `usize::MAX`.
    #[verifier::external_body]
    pub(crate) fn advance(&mut self) -> (r: Option<usize>)
        ensures
            r == update_counter_next(*old(self)),
            update_counter_next(*final(self)) == match r {
                Some(v) => if v < usize::MAX { Some((v + 1) as usize) } else { None },
                None => None,
            },
    {
        self.inner.next()
    }
}

} // verus!
