//! Byte-sequence helpers: literal substring search and small copying
//! utilities that the substitution engine is built on.

use vstd::prelude::*;

verus! {

/// The pattern `p` occurs in `t` starting at index `i`.
pub open spec fn occurs_at(t: Seq<u8>, p: Seq<u8>, i: int) -> bool {
    &&& 0 <= i
    &&& i + p.len() <= t.len()
    &&& t.subrange(i, i + p.len() as int) == p
}

/// The first index at or after `from` where `p` occurs in `t`, if any.
/// An empty pattern occurs at every index up to and including `t.len()`.
pub open spec fn first_occurrence(t: Seq<u8>, p: Seq<u8>, from: int) -> Option<int>
    decreases t.len() - from,
{
    if from < 0 || from + p.len() > t.len() {
        None
    } else if p.len() == 0 {
        Some(from)
    } else if occurs_at(t, p, from) {
        Some(from)
    } else {
        first_occurrence(t, p, from + 1)
    }
}

/// `first_occurrence` finds exactly the leftmost occurrence at or after
/// `from`, and reports `None` exactly when there is none.
pub proof fn lemma_first_occurrence(t: Seq<u8>, p: Seq<u8>, from: int)
    requires
        0 <= from,
    ensures
        match first_occurrence(t, p, from) {
            Some(i) => {
                &&& from <= i
                &&& occurs_at(t, p, i)
                &&& forall|j: int| from <= j < i ==> !occurs_at(t, p, j)
            },
            None => forall|j: int| from <= j ==> !occurs_at(t, p, j),
        },
    decreases t.len() - from,
{
    if from + p.len() > t.len() {
        assert forall|j: int| from <= j implies !occurs_at(t, p, j) by {
            assert(j + p.len() >= from + p.len());
        }
    } else if p.len() == 0 {
        assert(t.subrange(from, from) =~= p);
    } else if occurs_at(t, p, from) {
    } else {
        lemma_first_occurrence(t, p, from + 1);
    }
}

/// Compare `p` against the bytes of `t` starting at `i`.
fn matches_at(t: &Vec<u8>, p: &Vec<u8>, i: usize) -> (r: bool)
    requires
        i + p@.len() <= t@.len(),
    ensures
        r == occurs_at(t@, p@, i as int),
{
    let tlen: usize = t.len();
    let mut j: usize = 0;
    while j < p.len()
        invariant
            0 <= j <= p@.len(),
            i + p@.len() <= t@.len(),
            t@.len() == tlen,
            forall|k: int| 0 <= k < j ==> t@[i + k] == p@[k],
        decreases p@.len() - j,
    {
        if t[i + j] != p[j] {
            proof {
                assert(t@.subrange(i as int, i + p@.len() as int)[j as int] == t@[i + j]);
            }
            return false;
        }
        j += 1;
    }
    proof {
        assert(t@.subrange(i as int, i + p@.len() as int) =~= p@);
    }
    true
}

/// Find the leftmost occurrence of `p` in `t` at or after index `from`.
pub fn find_from(t: &Vec<u8>, p: &Vec<u8>, from: usize) -> (r: Option<usize>)
    ensures
        match r {
            Some(i) => {
                &&& first_occurrence(t@, p@, from as int) == Some(i as int)
                &&& from <= i
                &&& i + p@.len() <= t@.len()
            },
            None => first_occurrence(t@, p@, from as int) is None,
        },
{
    if from > t.len() {
        return None;
    }
    let mut i: usize = from;
    while p.len() <= t.len() - i
        invariant
            from <= i <= t@.len(),
            first_occurrence(t@, p@, from as int) == first_occurrence(t@, p@, i as int),
        decreases t@.len() - i,
    {
        if p.len() == 0 {
            return Some(i);
        }
        if matches_at(t, p, i) {
            return Some(i);
        }
        i += 1;
    }
    None
}

/// The two byte vectors hold the same bytes.
pub fn bytes_eq(a: &Vec<u8>, b: &Vec<u8>) -> (r: bool)
    ensures
        r == (a@ == b@),
{
    if a.len() != b.len() {
        return false;
    }
    let r = matches_at(a, b, 0);
    proof {
        assert(a@.subrange(0, a@.len() as int) =~= a@);
    }
    r
}

/// Append `src[from..to]` to `out`.
pub fn push_range(out: &mut Vec<u8>, src: &Vec<u8>, from: usize, to: usize)
    requires
        from <= to <= src@.len(),
    ensures
        final(out)@ == old(out)@ + src@.subrange(from as int, to as int),
{
    let mut i: usize = from;
    while i < to
        invariant
            from <= i <= to <= src@.len(),
            out@ == old(out)@ + src@.subrange(from as int, i as int),
        decreases to - i,
    {
        out.push(src[i]);
        proof {
            assert(old(out)@ + src@.subrange(from as int, i + 1) =~= (old(out)@
                + src@.subrange(from as int, i as int)).push(src@[i as int]));
        }
        i += 1;
    }
}

/// Copy `src[from..to]` into a fresh byte vector.
pub fn copy_range(src: &Vec<u8>, from: usize, to: usize) -> (r: Vec<u8>)
    requires
        from <= to <= src@.len(),
    ensures
        r@ == src@.subrange(from as int, to as int),
{
    let mut r: Vec<u8> = Vec::new();
    push_range(&mut r, src, from, to);
    proof {
        assert(r@ =~= src@.subrange(from as int, to as int));
    }
    r
}

/// Copy a whole byte vector.
pub fn copy_bytes(src: &Vec<u8>) -> (r: Vec<u8>)
    ensures
        r@ == src@,
{
    let r = copy_range(src, 0, src.len());
    proof {
        assert(src@.subrange(0, src@.len() as int) =~= src@);
    }
    r
}

} // verus!
