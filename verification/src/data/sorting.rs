//! Sorted lists of secret references.
use vstd::prelude::*;

verus! {

/// Whether the list is in non-decreasing order.
pub open spec fn is_sorted(s: Seq<u64>) -> bool {
    forall|i: int, j: int| 0 <= i < j < s.len() ==> s[i] <= s[j]
}

/// Inserts `x` at its place in a sorted list.
pub fn insert_sorted(v: &mut Vec<u64>, x: u64)
    requires
        is_sorted(old(v)@),
    ensures
        is_sorted(final(v)@),
        final(v)@.to_multiset() == old(v)@.to_multiset().insert(x),
        final(v)@.len() == old(v)@.len() + 1,
{
    broadcast use vstd::seq_lib::to_multiset_insert;

    let mut i: usize = 0;
    while i < v.len() && v[i] < x
        invariant
            i <= v.len(),
            forall|j: int| 0 <= j < i ==> v@[j] < x,
        decreases v.len() - i,
    {
        i = i + 1;
    }
    let ghost before = v@;
    v.insert(i, x);
    assert(v@ == before.insert(i as int, x));
    assert forall|a: int, b: int| 0 <= a < b < v@.len() implies v@[a] <= v@[b] by {
        if b < i {
        } else if b == i {
            assert(v@[a] == before[a]);
        } else if a < i {
            assert(v@[b] == before[b - 1]);
            assert(before[i as int] >= x);
            assert(before[a] <= before[i as int]);
        } else if a == i {
            assert(v@[b] == before[b - 1]);
            assert(before[i as int] >= x);
            assert(before[i as int] <= before[b - 1]);
        } else {
            assert(v@[a] == before[a - 1]);
            assert(v@[b] == before[b - 1]);
        }
    }
}

/// A sorted copy of the list.
pub fn sorted(v: &Vec<u64>) -> (r: Vec<u64>)
    ensures
        is_sorted(r@),
        r@.to_multiset() == v@.to_multiset(),
{
    let mut r: Vec<u64> = Vec::new();
    let mut i: usize = 0;
    assert(v@.take(0) =~= r@);
    while i < v.len()
        invariant
            i <= v.len(),
            is_sorted(r@),
            r@.to_multiset() == v@.take(i as int).to_multiset(),
        decreases v.len() - i,
    {
        let ghost prefix = v@.take(i as int);
        assert(v@.take(i + 1) =~= prefix.push(v@[i as int]));
        proof {
            vstd::seq_lib::to_multiset_build(prefix, v@[i as int]);
        }
        insert_sorted(&mut r, v[i]);
        i = i + 1;
    }
    assert(v@.take(v.len() as int) =~= v@);
    r
}

} // verus!
