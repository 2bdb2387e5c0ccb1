//! Name references: a short name held in the reference itself, or the id of
//! a string in the string table.

use crate::disk::StrId;
use vstd::prelude::*;

verus! {

/// Byte `i` (from the least significant) of `v`.
pub open spec fn byte_of(v: u64, i: int) -> u8 {
    ((v >> (8 * i) as u64) & 0xff) as u8
}

/// Length of the short name in `v`: its low bytes up to the first zero, at
/// most seven.
pub open spec fn short_len(v: u64, i: int) -> int
    decreases 7 - i,
{
    if i >= 7 || byte_of(v, i) == 0 {
        i
    } else {
        short_len(v, i + 1)
    }
}

/// The short name that a reference with its top bit set holds.
pub open spec fn short_name(v: u64) -> Seq<u8> {
    Seq::new(short_len(v, 0) as nat, |i: int| byte_of(v, i))
}

/// What a name reference designates.
#[derive(PartialEq, Eq, Debug)]
pub enum VStr {
    /// A short name, held in the reference itself.
    Inline(Vec<u8>),
    /// A string of the string table.
    Interned(StrId),
}

proof fn lemma_short_len_bounds(v: u64, i: int)
    requires
        0 <= i <= 7,
    ensures
        i <= short_len(v, i) <= 7,
        forall|j: int| i <= j < short_len(v, i) ==> byte_of(v, j) != 0,
        short_len(v, i) < 7 ==> byte_of(v, short_len(v, i)) == 0,
    decreases 7 - i,
{
    if i < 7 && byte_of(v, i) != 0 {
        lemma_short_len_bounds(v, i + 1);
    }
}

/// Decodes a name reference: with the top bit set, the short name in its
/// low seven bytes; otherwise a string id.
pub fn decode_name(v: u64) -> (r: VStr)
    ensures
        v >> 63 == 1 ==> (r matches VStr::Inline(b) && b@ == short_name(v)),
        v >> 63 == 0 ==> r == VStr::Interned(StrId(v)),
{
    if v >> 63 == 0 {
        return VStr::Interned(StrId(v));
    }
    proof {
        lemma_short_len_bounds(v, 0);
        assert(forall|x: u64| #[trigger] (x & 0xff) < 256) by (bit_vector);
    }
    let mut out: Vec<u8> = Vec::new();
    let mut i: u64 = 0;
    while i < 7 && ((v >> (8 * i)) & 0xff) != 0
        invariant
            i <= short_len(v, 0),
            short_len(v, 0) <= 7,
            forall|j: int| 0 <= j < short_len(v, 0) ==> byte_of(v, j) != 0,
            short_len(v, 0) < 7 ==> byte_of(v, short_len(v, 0)) == 0,
            out@ == Seq::new(i as nat, |j: int| byte_of(v, j)),
            forall|x: u64| #[trigger] (x & 0xff) < 256,
        decreases 7 - i,
    {
        out.push(((v >> (8 * i)) & 0xff) as u8);
        i += 1;
        assert(out@ =~= Seq::new(i as nat, |j: int| byte_of(v, j)));
    }
    proof {
        if i < 7 {
            assert(((v >> (8 * i)) & 0xff) == 0);
            assert(byte_of(v, i as int) == 0);
        }
    }
    assert(i == short_len(v, 0));
    VStr::Inline(out)
}

} // verus!
