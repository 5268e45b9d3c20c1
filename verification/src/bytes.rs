//! Searching, splitting and comparing sequences of bytes.
use vstd::prelude::*;

verus! {

/// The contents of a sequence of byte vectors.
pub open spec fn views(v: Seq<Vec<u8>>) -> Seq<Seq<u8>> {
    Seq::new(v.len(), |i: int| v[i]@)
}

/// The contents of a sequence of byte slices.
pub open spec fn slice_views(v: Seq<&[u8]>) -> Seq<Seq<u8>> {
    Seq::new(v.len(), |i: int| v[i]@)
}

/// The position of the first `b` in `s`, or the length of `s` if there is none.
pub open spec fn find(s: Seq<u8>, b: u8) -> nat
    decreases s.len(),
{
    if s.len() == 0 || s[0] == b {
        0
    } else {
        1 + find(s.skip(1), b)
    }
}

/// The pieces of `s` between the occurrences of `b`: one more than there are occurrences.
pub open spec fn split_on(s: Seq<u8>, b: u8) -> Seq<Seq<u8>>
    decreases s.len(),
{
    if find(s, b) < s.len() {
        seq![s.take(find(s, b) as int)] + split_on(s.skip(find(s, b) as int + 1), b)
    } else {
        seq![s]
    }
}

/// [`find`] gives the first position of `b`, and only that.
pub proof fn lemma_find(s: Seq<u8>, b: u8)
    ensures
        find(s, b) <= s.len(),
        forall|i: int| 0 <= i < find(s, b) ==> #[trigger] s[i] != b,
        find(s, b) < s.len() ==> s[find(s, b) as int] == b,
    decreases s.len(),
{
    if s.len() > 0 && s[0] != b {
        let rest = s.skip(1);
        lemma_find(rest, b);
        assert forall|i: int| 0 <= i < find(s, b) implies #[trigger] s[i] != b by {
            if i > 0 {
                assert(rest[i - 1] == s[i]);
            }
        }
    }
}

/// A position with the properties of the first `b` is the one that [`find`] gives.
pub proof fn lemma_find_is(s: Seq<u8>, b: u8, p: nat)
    requires
        p <= s.len(),
        forall|i: int| 0 <= i < p ==> #[trigger] s[i] != b,
        p < s.len() ==> s[p as int] == b,
    ensures
        find(s, b) == p,
{
    lemma_find(s, b);
    let f = find(s, b);
    if f < p {
        assert(s[f as int] != b);
    } else if p < f {
        assert(s[p as int] != b);
    }
}

/// Splitting text that starts with a piece without `b`, followed by one `b`, gives that piece
/// and then the pieces of the rest.
pub proof fn lemma_split_on_prefix(piece: Seq<u8>, rest: Seq<u8>, b: u8)
    requires
        forall|i: int| 0 <= i < piece.len() ==> #[trigger] piece[i] != b,
    ensures
        split_on(piece + seq![b] + rest, b) == seq![piece] + split_on(rest, b),
{
    let s = piece + seq![b] + rest;
    assert forall|i: int| 0 <= i < piece.len() implies #[trigger] s[i] != b by {
        assert(s[i] == piece[i]);
    }
    lemma_find_is(s, b, piece.len());
    assert(s.take(piece.len() as int) =~= piece);
    assert(s.skip(piece.len() as int + 1) =~= rest);
}

/// Text without `b` is its own single piece.
pub proof fn lemma_split_on_single(piece: Seq<u8>, b: u8)
    requires
        forall|i: int| 0 <= i < piece.len() ==> #[trigger] piece[i] != b,
    ensures
        split_on(piece, b) == seq![piece],
{
    lemma_find_is(piece, b, piece.len());
}

/// The position of the first `b` in `s`, or the length of `s` if there is none.
pub fn position(s: &[u8], b: u8) -> (p: usize)
    ensures
        p == find(s@, b),
        p <= s@.len(),
        p < s@.len() ==> s@[p as int] == b,
{
    let mut p: usize = 0;
    while p < s.len() && s[p] != b
        invariant
            p <= s@.len(),
            forall|i: int| 0 <= i < p ==> #[trigger] s@[i] != b,
        decreases s@.len() - p,
    {
        p += 1;
    }
    proof {
        lemma_find_is(s@, b, p as nat);
    }
    p
}

/// Whether two byte slices have the same contents.
pub fn same_bytes(a: &[u8], b: &[u8]) -> (same: bool)
    ensures
        same == (a@ == b@),
{
    if a.len() != b.len() {
        return false;
    }
    let mut i: usize = 0;
    while i < a.len()
        invariant
            a@.len() == b@.len(),
            i <= a@.len(),
            forall|j: int| 0 <= j < i ==> a@[j] == b@[j],
        decreases a@.len() - i,
    {
        if a[i] != b[i] {
            return false;
        }
        i += 1;
    }
    assert(a@ =~= b@);
    true
}

/// Whether two lists of byte vectors have the same contents.
pub fn same_fields(a: &Vec<Vec<u8>>, b: &Vec<Vec<u8>>) -> (same: bool)
    ensures
        same == (views(a@) == views(b@)),
{
    if a.len() != b.len() {
        assert(views(a@).len() != views(b@).len());
        return false;
    }
    let mut i: usize = 0;
    while i < a.len()
        invariant
            a@.len() == b@.len(),
            i <= a@.len(),
            forall|j: int| 0 <= j < i ==> views(a@)[j] == views(b@)[j],
        decreases a@.len() - i,
    {
        if !same_bytes(a[i].as_slice(), b[i].as_slice()) {
            assert(views(a@)[i as int] != views(b@)[i as int]);
            return false;
        }
        i += 1;
    }
    assert(views(a@) =~= views(b@));
    true
}

/// The contents of several vectors or slices are those of each of them, in order.
pub proof fn law_views(vecs: Seq<Vec<u8>>, slices: Seq<&[u8]>, i: int)
    ensures
        views(vecs).len() == vecs.len(),
        0 <= i < vecs.len() ==> views(vecs)[i] == vecs[i]@,
        slice_views(slices).len() == slices.len(),
        0 <= i < slices.len() ==> slice_views(slices)[i] == slices[i]@,
{
}

} // verus!
