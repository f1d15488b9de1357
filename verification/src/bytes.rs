//! Byte strings: concatenation, prefixes and the lexicographic order in which
//! a store hands out its addresses.

use vstd::prelude::*;
use vstd::slice::slice_to_vec;

verus! {

/// `a` comes strictly before `b` in lexicographic byte order: at the first
/// position where they differ `a` has the smaller byte, or `a` ends there
/// and `b` goes on.
pub open spec fn lex_lt(a: Seq<u8>, b: Seq<u8>) -> bool {
    exists|i: int| differs_below(a, b, i)
}

/// `a` and `b` agree on their first `i` bytes and `a` is the smaller one at
/// position `i`.
pub open spec fn differs_below(a: Seq<u8>, b: Seq<u8>, i: int) -> bool {
    &&& 0 <= i <= a.len()
    &&& i < b.len()
    &&& forall|j: int| 0 <= j < i ==> a[j] == b[j]
    &&& (i < a.len() ==> a[i] < b[i])
}

/// The order is irreflexive.
pub proof fn lemma_lex_lt_irreflexive(a: Seq<u8>)
    ensures
        !lex_lt(a, a),
{
}

/// The order is transitive.
pub proof fn lemma_lex_lt_transitive(a: Seq<u8>, b: Seq<u8>, c: Seq<u8>)
    requires
        lex_lt(a, b),
        lex_lt(b, c),
    ensures
        lex_lt(a, c),
{
    let i = choose|i: int| differs_below(a, b, i);
    let k = choose|k: int| differs_below(b, c, k);
    let m = if i <= k {
        i
    } else {
        k
    };
    assert(differs_below(a, c, m));
}

/// Any two byte strings are equal or ordered one way or the other.
pub proof fn lemma_lex_lt_total(a: Seq<u8>, b: Seq<u8>)
    ensures
        a == b || lex_lt(a, b) || lex_lt(b, a),
    decreases a.len(),
{
    if a.len() == 0 {
        if b.len() == 0 {
            assert(a =~= b);
        } else {
            assert(differs_below(a, b, 0));
        }
    } else if b.len() == 0 {
        assert(differs_below(b, a, 0));
    } else if a[0] < b[0] {
        assert(differs_below(a, b, 0));
    } else if b[0] < a[0] {
        assert(differs_below(b, a, 0));
    } else {
        let a1 = a.drop_first();
        let b1 = b.drop_first();
        lemma_lex_lt_total(a1, b1);
        if a1 == b1 {
            assert(a =~= b) by {
                assert forall|j: int| 0 <= j < a.len() implies a[j] == b[j] by {
                    if j > 0 {
                        assert(a[j] == a1[j - 1]);
                        assert(b[j] == b1[j - 1]);
                    }
                }
            }
        } else if lex_lt(a1, b1) {
            let i = choose|i: int| differs_below(a1, b1, i);
            assert(differs_below(a, b, i + 1)) by {
                assert forall|j: int| 0 <= j < i + 1 implies a[j] == b[j] by {
                    if j > 0 {
                        assert(a[j] == a1[j - 1]);
                        assert(b[j] == b1[j - 1]);
                    }
                }
                if i + 1 < a.len() {
                    assert(a[i + 1] == a1[i]);
                    assert(b[i + 1] == b1[i]);
                }
            }
        } else {
            let i = choose|i: int| differs_below(b1, a1, i);
            assert(differs_below(b, a, i + 1)) by {
                assert forall|j: int| 0 <= j < i + 1 implies b[j] == a[j] by {
                    if j > 0 {
                        assert(a[j] == a1[j - 1]);
                        assert(b[j] == b1[j - 1]);
                    }
                }
                if i + 1 < b.len() {
                    assert(a[i + 1] == a1[i]);
                    assert(b[i + 1] == b1[i]);
                }
            }
        }
    }
}

/// Whether two byte strings hold the same bytes.
pub fn bytes_eq(a: &[u8], b: &[u8]) -> (same: bool)
    ensures
        same == (a@ == b@),
{
    if a.len() != b.len() {
        return false;
    }
    let mut i: usize = 0;
    while i < a.len()
        invariant
            a@.len() == b@.len(),
            i <= a@.len(),
            forall|j: int| 0 <= j < i ==> a@[j] == b@[j],
        decreases a@.len() - i,
    {
        if a[i] != b[i] {
            return false;
        }
        i += 1;
    }
    assert(a@ =~= b@);
    true
}

/// Whether `a` comes strictly before `b` in lexicographic byte order.
pub fn bytes_lt(a: &[u8], b: &[u8]) -> (before: bool)
    ensures
        before == lex_lt(a@, b@),
{
    let mut i: usize = 0;
    while i < a.len() && i < b.len()
        invariant
            i <= a@.len(),
            i <= b@.len(),
            forall|j: int| 0 <= j < i ==> a@[j] == b@[j],
        decreases a@.len() - i,
    {
        if a[i] < b[i] {
            assert(differs_below(a@, b@, i as int));
            return true;
        }
        if a[i] > b[i] {
            assert forall|k: int| !differs_below(a@, b@, k) by {
                if differs_below(a@, b@, k) {
                    if k < i {
                        assert(a@[k] == b@[k]);
                    } else if k > i {
                        assert(a@[i as int] == b@[i as int]);
                    }
                }
            }
            return false;
        }
        i += 1;
    }
    if i < b.len() {
        assert(differs_below(a@, b@, i as int));
        true
    } else {
        assert forall|k: int| !differs_below(a@, b@, k) by {
            if differs_below(a@, b@, k) {
                assert(k < b@.len());
                assert(a@[k] == b@[k]);
            }
        }
        false
    }
}

/// Whether `whole` begins with the bytes of `prefix`.
pub fn starts_with(whole: &[u8], prefix: &[u8]) -> (begins: bool)
    ensures
        begins == prefix@.is_prefix_of(whole@),
{
    if prefix.len() > whole.len() {
        return false;
    }
    let mut i: usize = 0;
    while i < prefix.len()
        invariant
            prefix@.len() <= whole@.len(),
            i <= prefix@.len(),
            forall|j: int| 0 <= j < i ==> prefix@[j] == whole@[j],
        decreases prefix@.len() - i,
    {
        if prefix[i] != whole[i] {
            assert(whole@.subrange(0, prefix@.len() as int)[i as int] == whole@[i as int]);
            return false;
        }
        i += 1;
    }
    assert(prefix@ =~= whole@.subrange(0, prefix@.len() as int));
    true
}

/// The bytes of `a` followed by the bytes of `b`.
pub fn join(a: &[u8], b: &[u8]) -> (out: Vec<u8>)
    ensures
        out@ == a@ + b@,
{
    let mut out = slice_to_vec(a);
    let mut i: usize = 0;
    while i < b.len()
        invariant
            i <= b@.len(),
            out@ == a@ + b@.subrange(0, i as int),
        decreases b@.len() - i,
    {
        out.push(b[i]);
        i += 1;
        assert(out@ =~= a@ + b@.subrange(0, i as int));
    }
    assert(b@.subrange(0, b@.len() as int) =~= b@);
    out
}

/// The bytes of `whole` from position `from` to the end.
pub fn tail(whole: &[u8], from: usize) -> (out: Vec<u8>)
    requires
        from <= whole@.len(),
    ensures
        out@ == whole@.subrange(from as int, whole@.len() as int),
{
    let mut out: Vec<u8> = Vec::new();
    let mut i: usize = from;
    while i < whole.len()
        invariant
            from <= i <= whole@.len(),
            out@ == whole@.subrange(from as int, i as int),
        decreases whole@.len() - i,
    {
        out.push(whole[i]);
        i += 1;
        assert(out@ =~= whole@.subrange(from as int, i as int));
    }
    out
}

} // verus!
