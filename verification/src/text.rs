//! Small executable helpers on byte strings.
//!
//! Message text is handled as UTF-8 bytes throughout the engine, because
//! link spans are byte offsets into the message.
use vstd::prelude::*;

verus! {

/// Equality of two byte slices.
pub fn bytes_eq(a: &[u8], b: &[u8]) -> (r: bool)
    ensures
        r == (a@ == b@),
{
    if a.len() != b.len() {
        assert(a@ != b@) by {
            assert(a@.len() != b@.len());
        }
        return false;
    }
    let mut i: usize = 0;
    while i < a.len()
        invariant
            0 <= i <= a@.len(),
            a@.len() == b@.len(),
            forall|j: int| 0 <= j < i ==> a@[j] == b@[j],
        decreases a@.len() - i,
    {
        if a[i] != b[i] {
            return false;
        }
        i += 1;
    }
    assert(a@ =~= b@);
    true
}

/// A copy of the bytes of `v` between `start` and `end`.
pub fn bytes_range(v: &[u8], start: usize, end: usize) -> (r: Vec<u8>)
    requires
        start <= end <= v@.len(),
    ensures
        r@ == v@.subrange(start as int, end as int),
{
    let mut r: Vec<u8> = Vec::new();
    let mut i: usize = start;
    while i < end
        invariant
            start <= i <= end <= v@.len(),
            r@ == v@.subrange(start as int, i as int),
        decreases end - i,
    {
        r.push(v[i]);
        assert(r@ =~= v@.subrange(start as int, i + 1 as int));
        i += 1;
    }
    r
}

/// `v` with the bytes of the range `start..end` replaced by `rep`.
pub fn splice_bytes(v: &Vec<u8>, start: usize, end: usize, rep: &Vec<u8>) -> (r: Vec<u8>)
    requires
        start <= end <= v@.len(),
    ensures
        r@ == v@.subrange(0, start as int) + rep@ + v@.subrange(end as int, v@.len() as int),
{
    let mut r: Vec<u8> = bytes_range(v.as_slice(), 0, start);
    let mut i: usize = 0;
    while i < rep.len()
        invariant
            0 <= i <= rep@.len(),
            start <= end <= v@.len(),
            r@ == v@.subrange(0, start as int) + rep@.subrange(0, i as int),
        decreases rep@.len() - i,
    {
        r.push(rep[i]);
        assert(r@ =~= v@.subrange(0, start as int) + rep@.subrange(0, i + 1 as int));
        i += 1;
    }
    assert(rep@.subrange(0, rep@.len() as int) =~= rep@);
    let mut j: usize = end;
    while j < v.len()
        invariant
            end <= j <= v@.len(),
            start <= end,
            r@ == v@.subrange(0, start as int) + rep@ + v@.subrange(end as int, j as int),
        decreases v@.len() - j,
    {
        r.push(v[j]);
        assert(r@ =~= v@.subrange(0, start as int) + rep@ + v@.subrange(end as int, j + 1 as int));
        j += 1;
    }
    r
}

} // verus!
