//! Byte-string keys and their lexicographic order.
//!
//! The engine orders entries by key, comparing byte strings from the
//! beginning to the end. This module defines that order at the
//! specification level, proves it is a strict total order, and provides
//! the executable comparisons the rest of the crate positions cursors with.

use vstd::prelude::*;

verus! {

/// Strict lexicographic order on byte strings: `a` comes before `b`.
pub open spec fn lex_lt(a: Seq<u8>, b: Seq<u8>) -> bool
    decreases a.len(),
{
    if b.len() == 0 {
        false
    } else if a.len() == 0 {
        true
    } else if a[0] < b[0] {
        true
    } else if a[0] > b[0] {
        false
    } else {
        lex_lt(a.skip(1), b.skip(1))
    }
}

/// `a` comes before `b`, or they are the same key.
pub open spec fn lex_le(a: Seq<u8>, b: Seq<u8>) -> bool {
    a == b || lex_lt(a, b)
}

/// The order is irreflexive.
pub proof fn lemma_lex_lt_irreflexive(a: Seq<u8>)
    ensures
        !lex_lt(a, a),
    decreases a.len(),
{
    if a.len() > 0 {
        lemma_lex_lt_irreflexive(a.skip(1));
    }
}

/// Any two keys are ordered one way, the other, or equal.
pub proof fn lemma_lex_lt_total(a: Seq<u8>, b: Seq<u8>)
    ensures
        lex_lt(a, b) || lex_lt(b, a) || a == b,
    decreases a.len(),
{
    if a.len() == 0 {
        if b.len() == 0 {
            assert(a =~= b);
        }
    } else if b.len() == 0 {
    } else if a[0] == b[0] {
        lemma_lex_lt_total(a.skip(1), b.skip(1));
        if !lex_lt(a, b) && !lex_lt(b, a) {
            assert(a.skip(1) == b.skip(1));
            assert forall|i: int| 0 <= i < a.len() implies a[i] == b[i] by {
                if i >= 1 {
                    assert(a.skip(1)[i - 1] == a[i]);
                    assert(b.skip(1)[i - 1] == b[i]);
                }
            }
            assert(a =~= b);
        }
    }
}

/// The order is transitive.
pub proof fn lemma_lex_lt_transitive(a: Seq<u8>, b: Seq<u8>, c: Seq<u8>)
    requires
        lex_lt(a, b),
        lex_lt(b, c),
    ensures
        lex_lt(a, c),
    decreases b.len(),
{
    if a.len() == 0 {
    } else {
        if a[0] == b[0] && b[0] == c[0] {
            lemma_lex_lt_transitive(a.skip(1), b.skip(1), c.skip(1));
        }
    }
}

/// Whether two byte strings hold the same bytes.
pub fn bytes_eq(a: &[u8], b: &[u8]) -> (r: bool)
    ensures
        r == (a@ == b@),
{
    if a.len() != b.len() {
        proof {
            assert(a@.len() != b@.len());
        }
        return false;
    }
    let n: usize = a.len();
    let mut i: usize = 0;
    while i < n
        invariant
            n == a@.len() == b@.len(),
            0 <= i <= n,
            forall|j: int| 0 <= j < i ==> a@[j] == b@[j],
        decreases n - i,
    {
        if a[i] != b[i] {
            return false;
        }
        i += 1;
    }
    proof {
        assert(a@ =~= b@);
    }
    true
}

/// Whether `a` comes strictly before `b` in the key order.
pub fn bytes_lt(a: &[u8], b: &[u8]) -> (r: bool)
    ensures
        r == lex_lt(a@, b@),
{
    let an: usize = a.len();
    let bn: usize = b.len();
    let mut i: usize = 0;
    proof {
        assert(a@.skip(0) =~= a@);
        assert(b@.skip(0) =~= b@);
    }
    while i < an && i < bn
        invariant
            an == a@.len(),
            bn == b@.len(),
            0 <= i,
            i <= an,
            i <= bn,
            forall|j: int| 0 <= j < i ==> a@[j] == b@[j],
            lex_lt(a@, b@) == lex_lt(a@.skip(i as int), b@.skip(i as int)),
        decreases an - i,
    {
        if a[i] < b[i] {
            proof {
                assert(a@.skip(i as int)[0] == a@[i as int]);
                assert(b@.skip(i as int)[0] == b@[i as int]);
            }
            return true;
        }
        if a[i] > b[i] {
            proof {
                assert(a@.skip(i as int)[0] == a@[i as int]);
                assert(b@.skip(i as int)[0] == b@[i as int]);
            }
            return false;
        }
        proof {
            let ai = a@.skip(i as int);
            let bi = b@.skip(i as int);
            assert(ai[0] == a@[i as int]);
            assert(bi[0] == b@[i as int]);
            assert(ai.skip(1) =~= a@.skip(i + 1));
            assert(bi.skip(1) =~= b@.skip(i + 1));
        }
        i += 1;
    }
    proof {
        assert(a@.skip(i as int).len() == an - i);
        assert(b@.skip(i as int).len() == bn - i);
    }
    i < bn
}

} // verus!
