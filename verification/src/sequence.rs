//! A counter that hands out strictly increasing numbers.
use vstd::prelude::*;

verus! {

/// Produces monotonously increasing integer numbers, starting from a
/// configurable start point.
///
/// Can be fast-forwarded to skip numbers, but cannot be wound back.
#[derive(Clone, Copy, Debug, Default)]
pub struct Sequence {
    previous: u64,
}

impl View for Sequence {
    type V = nat;

    /// The highest value that counts as handed out.
    closed spec fn view(&self) -> nat {
        self.previous as nat
    }
}

/// Where the sequence stands after being told to continue after `val`.
pub open spec fn continued_after(previous: nat, val: u64) -> nat {
    if previous < val { val as nat } else { previous }
}

/// The largest element of `values`, or 0 for an empty sequence.
pub open spec fn highest(values: Seq<u64>) -> nat
    decreases values.len(),
{
    if values.len() == 0 {
        0
    } else {
        let rest = highest(values.drop_last());
        if values.last() > rest { values.last() as nat } else { rest }
    }
}

/// `highest` bounds every element and is either 0 or one of the elements.
pub proof fn lemma_highest(values: Seq<u64>)
    ensures
        forall|i: int| 0 <= i < values.len() ==> values[i] <= highest(values),
        highest(values) == 0 || values.contains(highest(values) as u64),
        highest(values) <= u64::MAX,
    decreases values.len(),
{
    if values.len() > 0 {
        lemma_highest(values.drop_last());
        assert forall|i: int| 0 <= i < values.len() implies values[i] <= highest(values) by {
            if i < values.len() - 1 {
                assert(values[i] == values.drop_last()[i]);
            }
        }
        if highest(values) != 0 && highest(values) != values.last() {
            let h = highest(values.drop_last()) as u64;
            let k = choose|k: int| 0 <= k < values.drop_last().len() && values.drop_last()[k] == h;
            assert(values[k] == h);
        }
    }
}

impl Sequence {
    /// A new instance whose next value is 1.
    pub fn new() -> (s: Self)
        ensures
            s@ == 0,
    {
        Sequence { previous: 0 }
    }

    /// A new instance whose next value is `val + 1`.
    pub fn from(val: u64) -> (s: Self)
        ensures
            s@ == val,
    {
        Sequence { previous: val }
    }

    /// A new instance that starts after the highest of the given values.
    pub fn from_highest(values: &[u64]) -> (s: Self)
        ensures
            s@ == highest(values@),
    {
        let mut instance = Self::new();
        let mut i: usize = 0;
        while i < values.len()
            invariant
                i <= values.len(),
                instance@ == highest(values@.take(i as int)),
            decreases values.len() - i,
        {
            assert(values@.take(i + 1).drop_last() =~= values@.take(i as int));
            instance.continue_after(values[i]);
            i = i + 1;
        }
        assert(values@.take(values.len() as int) =~= values@);
        instance
    }

    /// Makes sure that the sequence will never produce `val`, by raising the
    /// latest value if necessary.
    pub fn continue_after(&mut self, val: u64)
        ensures
            final(self)@ == continued_after(old(self)@, val),
    {
        if self.previous < val {
            self.previous = val;
        }
    }

    /// The highest value that is considered as handed out.
    pub fn previous(&self) -> (r: u64)
        ensures
            r == self@,
    {
        self.previous
    }

    /// Hands out the next value. The sequence must not be exhausted.
    pub fn next(&mut self) -> (r: u64)
        requires
            old(self)@ < u64::MAX,
        ensures
            r == old(self)@ + 1,
            final(self)@ == r,
    {
        self.previous = self.previous + 1;
        self.previous
    }

    /// Whether another value can be handed out.
    pub fn can_continue(&self) -> (r: bool)
        ensures
            r == (self@ < u64::MAX),
    {
        self.previous < u64::MAX
    }
}

/// Each value handed out is larger than every value handed out before, and
/// larger than every value that the sequence was told to continue after.
pub proof fn law_next_is_fresh(before: nat, skipped: u64)
    ensures
        continued_after(before, skipped) + 1 > before,
        continued_after(before, skipped) + 1 > skipped,
        continued_after(before, skipped) >= before,
{
}

/// A sequence built from a set of values never hands out any of them.
pub proof fn law_from_highest_avoids_values(values: Seq<u64>)
    ensures
        forall|v: u64| #[trigger] values.contains(v) ==> v < highest(values) + 1,
{
    lemma_highest(values);
}

} // verus!
