//! Byte-level text helpers: ASCII case folding and lexicographic order.
use vstd::prelude::*;

verus! {

/// ASCII lower-casing of a single byte; other bytes stay as they are.
pub open spec fn ascii_lower(b: u8) -> u8 {
    if 65 <= b && b <= 90 {
        (b + 32) as u8
    } else {
        b
    }
}

/// A byte string with every ASCII upper-case letter replaced by its lower-case form.
pub open spec fn fold(bs: Seq<u8>) -> Seq<u8> {
    bs.map_values(|b: u8| ascii_lower(b))
}

/// Strict lexicographic order on byte strings (the order of `str` and `[u8]`).
pub open spec fn lex_lt(a: Seq<u8>, b: Seq<u8>) -> bool
    decreases a.len(),
{
    if a.len() == 0 {
        b.len() > 0
    } else if b.len() == 0 {
        false
    } else if a[0] != b[0] {
        a[0] < b[0]
    } else {
        lex_lt(a.drop_first(), b.drop_first())
    }
}

/// The lexicographic order is irreflexive.
pub proof fn lemma_lex_irreflexive(a: Seq<u8>)
    ensures
        !lex_lt(a, a),
    decreases a.len(),
{
    if a.len() > 0 {
        lemma_lex_irreflexive(a.drop_first());
    }
}

/// Any two byte strings are equal or ordered one way, and not both ways.
pub proof fn lemma_lex_trichotomy(a: Seq<u8>, b: Seq<u8>)
    ensures
        a == b || lex_lt(a, b) || lex_lt(b, a),
        !(lex_lt(a, b) && lex_lt(b, a)),
        lex_lt(a, b) ==> a != b,
    decreases a.len(),
{
    if a.len() == 0 {
        if b.len() == 0 {
            assert(a =~= b);
        }
    } else if b.len() == 0 {
    } else if a[0] != b[0] {
    } else {
        lemma_lex_trichotomy(a.drop_first(), b.drop_first());
        if a.drop_first() == b.drop_first() {
            assert(a =~= seq![a[0]] + a.drop_first());
            assert(b =~= seq![b[0]] + b.drop_first());
        }
        if lex_lt(a, b) {
            lemma_lex_irreflexive(a.drop_first());
        }
    }
}

/// The lexicographic order is transitive.
pub proof fn lemma_lex_transitive(a: Seq<u8>, b: Seq<u8>, c: Seq<u8>)
    requires
        lex_lt(a, b),
        lex_lt(b, c),
    ensures
        lex_lt(a, c),
    decreases a.len(),
{
    if a.len() > 0 && b.len() > 0 && c.len() > 0 {
        if a[0] == b[0] && b[0] == c[0] {
            lemma_lex_transitive(a.drop_first(), b.drop_first(), c.drop_first());
        }
    }
}

/// Comparing from a common prefix on is the same as comparing the whole.
proof fn lemma_lex_skip_common(a: Seq<u8>, b: Seq<u8>, i: int)
    requires
        0 <= i <= a.len(),
        i <= b.len(),
        a.take(i) == b.take(i),
    ensures
        lex_lt(a, b) == lex_lt(a.skip(i), b.skip(i)),
    decreases i,
{
    if i > 0 {
        assert(a[0] == a.take(i)[0]);
        assert(b[0] == b.take(i)[0]);
        assert(a.drop_first().take(i - 1) =~= a.take(i).drop_first());
        assert(b.drop_first().take(i - 1) =~= b.take(i).drop_first());
        lemma_lex_skip_common(a.drop_first(), b.drop_first(), i - 1);
        assert(a.drop_first().skip(i - 1) =~= a.skip(i));
        assert(b.drop_first().skip(i - 1) =~= b.skip(i));
    } else {
        assert(a.skip(0) =~= a);
        assert(b.skip(0) =~= b);
    }
}

/// ASCII lower-casing of one byte.
pub fn lower_byte(b: u8) -> (r: u8)
    ensures
        r == ascii_lower(b),
{
    if 65 <= b && b <= 90 {
        b + 32
    } else {
        b
    }
}

/// Whether two byte strings are equal when ASCII letters are compared case-insensitively.
pub fn eq_ignore_ascii_case(a: &[u8], b: &[u8]) -> (r: bool)
    ensures
        r == (fold(a@) == fold(b@)),
{
    if a.len() != b.len() {
        assert(fold(a@).len() != fold(b@).len());
        return false;
    }
    let mut i: usize = 0;
    while i < a.len()
        invariant
            a.len() == b.len(),
            i <= a.len(),
            forall|j: int| 0 <= j < i ==> ascii_lower(a@[j]) == ascii_lower(b@[j]),
        decreases a.len() - i,
    {
        if lower_byte(a[i]) != lower_byte(b[i]) {
            assert(fold(a@)[i as int] != fold(b@)[i as int]);
            return false;
        }
        i = i + 1;
    }
    assert(fold(a@) =~= fold(b@));
    true
}

/// Whether `a` comes strictly before `b` when ASCII letters are compared
/// case-insensitively.
pub fn lt_ignore_ascii_case(a: &[u8], b: &[u8]) -> (r: bool)
    ensures
        r == lex_lt(fold(a@), fold(b@)),
{
    let ghost fa = fold(a@);
    let ghost fb = fold(b@);
    let mut i: usize = 0;
    while i < a.len() && i < b.len()
        invariant
            i <= a.len(),
            i <= b.len(),
            fa == fold(a@),
            fb == fold(b@),
            fa.take(i as int) =~= fb.take(i as int),
        decreases a.len() - i,
    {
        let x = lower_byte(a[i]);
        let y = lower_byte(b[i]);
        if x != y {
            proof {
                lemma_lex_skip_common(fa, fb, i as int);
                assert(fa.skip(i as int)[0] == x);
                assert(fb.skip(i as int)[0] == y);
            }
            return x < y;
        }
        i = i + 1;
        assert(fa.take(i as int) =~= fa.take(i - 1).push(x));
        assert(fb.take(i as int) =~= fb.take(i - 1).push(y));
    }
    proof {
        lemma_lex_skip_common(fa, fb, i as int);
    }
    i == a.len() && i < b.len()
}

/// Whether `a` comes strictly before `b` in the byte order of `str`.
pub fn bytes_lt(a: &[u8], b: &[u8]) -> (r: bool)
    ensures
        r == lex_lt(a@, b@),
{
    let mut i: usize = 0;
    while i < a.len() && i < b.len()
        invariant
            i <= a.len(),
            i <= b.len(),
            a@.take(i as int) =~= b@.take(i as int),
        decreases a.len() - i,
    {
        if a[i] != b[i] {
            proof {
                lemma_lex_skip_common(a@, b@, i as int);
            }
            return a[i] < b[i];
        }
        i = i + 1;
        assert(a@.take(i as int) =~= a@.take(i - 1).push(a@[i - 1]));
        assert(b@.take(i as int) =~= b@.take(i - 1).push(b@[i - 1]));
    }
    proof {
        lemma_lex_skip_common(a@, b@, i as int);
    }
    i == a.len() && i < b.len()
}

} // verus!
