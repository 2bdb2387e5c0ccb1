//! Little-endian fields inside a byte region.

use vstd::bytes::*;
use vstd::prelude::*;
use vstd::slice::slice_subrange;

verus! {

/// `r` with the bytes from `at` on replaced by `b`.
pub open spec fn splice(r: Seq<u8>, at: int, b: Seq<u8>) -> Seq<u8> {
    r.subrange(0, at) + b + r.subrange(at + b.len(), r.len() as int)
}

/// The little-endian `u64` stored at byte `at` of `r`.
pub open spec fn u64_at(r: Seq<u8>, at: int) -> u64 {
    spec_u64_from_le_bytes(r.subrange(at, at + 8))
}

/// The little-endian `u32` stored at byte `at` of `r`.
pub open spec fn u32_at(r: Seq<u8>, at: int) -> u32 {
    spec_u32_from_le_bytes(r.subrange(at, at + 4))
}

pub fn read_u64(b: &[u8], at: usize) -> (r: u64)
    requires
        at + 8 <= b@.len(),
    ensures
        r == u64_at(b@, at as int),
{
    let n = b.len();
    assert(at + 8 <= n);
    u64_from_le_bytes(slice_subrange(b, at, at + 8))
}

pub fn read_u32(b: &[u8], at: usize) -> (r: u32)
    requires
        at + 4 <= b@.len(),
    ensures
        r == u32_at(b@, at as int),
{
    let n = b.len();
    assert(at + 4 <= n);
    u32_from_le_bytes(slice_subrange(b, at, at + 4))
}

/// Appends the little-endian bytes of `x`.
pub fn push_u64(out: &mut Vec<u8>, x: u64)
    ensures
        final(out)@ == old(out)@ + spec_u64_to_le_bytes(x),
{
    let mut b = u64_to_le_bytes(x);
    out.append(&mut b);
}

/// Appends the little-endian bytes of `x`.
pub fn push_u32(out: &mut Vec<u8>, x: u32)
    ensures
        final(out)@ == old(out)@ + spec_u32_to_le_bytes(x),
{
    let mut b = u32_to_le_bytes(x);
    out.append(&mut b);
}

/// Appends the bytes of `b`.
pub fn push_bytes(out: &mut Vec<u8>, b: &[u8])
    ensures
        final(out)@ == old(out)@ + b@,
{
    let ghost start = out@;
    let mut i: usize = 0;
    while i < b.len()
        invariant
            i <= b@.len(),
            out@ == start + b@.take(i as int),
        decreases b@.len() - i,
    {
        out.push(b[i]);
        i += 1;
        assert(out@ =~= start + b@.take(i as int));
    }
    assert(b@.take(i as int) =~= b@);
}

/// Overwrites the bytes of `region` from `at` on with `b`.
pub fn copy_in(region: &mut Vec<u8>, at: usize, b: &[u8])
    requires
        at + b@.len() <= old(region)@.len(),
    ensures
        final(region)@ == splice(old(region)@, at as int, b@),
{
    let ghost start = region@;
    let n = region.len();
    let mut i: usize = 0;
    while i < b.len()
        invariant
            i <= b@.len(),
            at + b@.len() <= start.len(),
            start.len() == n,
            region@ == splice(start, at as int, b@.take(i as int)),
        decreases b@.len() - i,
    {
        region.set(at + i, b[i]);
        i += 1;
        assert(region@ =~= splice(start, at as int, b@.take(i as int)));
    }
    assert(b@.take(i as int) =~= b@);
}

/// A splice leaves the bytes outside it as they were.
pub proof fn lemma_splice_outside(r: Seq<u8>, at: int, b: Seq<u8>, x: int, y: int)
    requires
        0 <= at,
        at + b.len() <= r.len(),
        0 <= x <= y <= r.len(),
        y <= at || at + b.len() <= x,
    ensures
        splice(r, at, b).len() == r.len(),
        splice(r, at, b).subrange(x, y) == r.subrange(x, y),
{
    assert(splice(r, at, b).subrange(x, y) =~= r.subrange(x, y));
}

/// A splice holds the spliced bytes where it put them.
pub proof fn lemma_splice_inside(r: Seq<u8>, at: int, b: Seq<u8>)
    requires
        0 <= at,
        at + b.len() <= r.len(),
    ensures
        splice(r, at, b).len() == r.len(),
        splice(r, at, b).subrange(at, at + b.len()) == b,
{
    assert(splice(r, at, b).subrange(at, at + b.len()) =~= b);
}

/// A `u64` read inside a run of bytes reads the same in the whole.
pub proof fn lemma_u64_within(r: Seq<u8>, a: int, b: Seq<u8>, k: int)
    requires
        0 <= a,
        a + b.len() <= r.len(),
        r.subrange(a, a + b.len()) == b,
        0 <= k,
        k + 8 <= b.len(),
    ensures
        u64_at(r, a + k) == u64_at(b, k),
{
    assert(r.subrange(a + k, a + k + 8) =~= b.subrange(k, k + 8));
}

/// Whether `a` and `b` hold the same bytes.
pub fn same_bytes(a: &[u8], b: &[u8]) -> (r: bool)
    ensures
        r == (a@ == b@),
{
    if a.len() != b.len() {
        return false;
    }
    let mut i: usize = 0;
    while i < a.len()
        invariant
            i <= a@.len(),
            a@.len() == b@.len(),
            forall|j: int| 0 <= j < i ==> a@[j] == b@[j],
        decreases a@.len() - i,
    {
        if a[i] != b[i] {
            return false;
        }
        i += 1;
    }
    assert(a@ =~= b@);
    true
}

} // verus!
