//! The block occupancy map: two bits of state for each block of the region,
//! kept by the `bitmap` crate and stored in the region as little-endian
//! 64-bit words.

use crate::bytes::{push_u64, u64_at};
use bitmap::{Bitmap, TwoBits};
use vstd::bytes::*;
use vstd::prelude::*;

verus! {

/// A `bitmap::Bitmap` of two-bit cells over a vector of words, hidden from
/// the verifier: its bounds name traits of the `bitmap` crate.
#[verifier::external_body]
pub struct TwoBitMap {
    inner: Bitmap<Vec<usize>, TwoBits>,
}

/// The values of the cells of a two-bit map, in order.
pub uninterp spec fn cells(m: TwoBitMap) -> Seq<u64>;

/// The number of words of the storage that a two-bit map was made with.
pub uninterp spec fn storage_words(m: TwoBitMap) -> nat;

/// The value of cell `i` in words of 64 bits: the first cell takes the least
/// significant bits of the first word.
pub open spec fn cell_in_words(w: Seq<u64>, i: int) -> u64 {
    (w[(2 * i) / 64] >> ((2 * i) % 64) as u64) & 3
}

/// Relies on `Bitmap::from_storage`: a map of `entries` two-bit cells over
/// `storage`, refused only where the bit count overflows; zeroed storage
/// reads as zero cells. Words are taken to have 64 bits (a 64-bit target);
/// `requires` asks for enough of them for every cell, since the crate's own
/// size check rounds down.
#[verifier::external_body]
fn bitmap_from_storage(entries: usize, storage: Vec<usize>) -> (r: Option<
    TwoBitMap,
>)
    requires
        storage@.len() * 64 >= entries * 2,
        forall|k: int| 0 <= k < storage@.len() ==> storage@[k] == 0,
    ensures
        r is Some <==> entries * 2 + (entries * 2) % 64 <= usize::MAX,
        r is Some ==> cells(r.unwrap()) == Seq::new(entries as nat, |i: int| 0u64),
        r is Some ==> storage_words(r.unwrap()) == storage@.len(),
{
    match Bitmap::from_storage(entries, (), storage) {
        Some(inner) => Some(TwoBitMap { inner }),
        None => None,
    }
}

/// Relies on `Bitmap::set`: writes cell `i` where it exists and `v` fits in
/// two bits, and reports whether it did.
#[verifier::external_body]
fn bitmap_set(m: &mut TwoBitMap, i: usize, v: u64) -> (ok: bool)
    requires
        storage_words(*old(m)) * 64 >= cells(*old(m)).len() * 2,
    ensures
        ok == (i < cells(*old(m)).len() && v < 4),
        ok ==> cells(*final(m)) == cells(*old(m)).update(i as int, v),
        !ok ==> cells(*final(m)) == cells(*old(m)),
        storage_words(*final(m)) == storage_words(*old(m)),
{
    m.inner.set(i, v)
}

/// Relies on `Bitmap::get`: the value of cell `i`, where it exists.
#[verifier::external_body]
fn bitmap_get(m: &TwoBitMap, i: usize) -> (r: Option<u64>)
    requires
        storage_words(*m) * 64 >= cells(*m).len() * 2,
    ensures
        r == (if i < cells(*m).len() {
            Some(cells(*m)[i as int])
        } else {
            None
        }),
{
    m.inner.get(i)
}

/// Relies on `Bitmap::unwrap`: hands back the storage, in which (on a 64-bit
/// target) cell `i` is the two bits from bit `2 * i`.
#[verifier::external_body]
fn bitmap_unwrap(m: TwoBitMap) -> (r: Vec<usize>)
    ensures
        r@.len() == storage_words(m),
        forall|i: int|
            0 <= i < cells(m).len() ==> #[trigger] cells(m)[i] == cell_in_words(
                r@.map_values(|x: usize| x as u64),
                i,
            ),
{
    m.inner.unwrap()
}

/// The state of every block of the region, two bits each: zero is free, one
/// is in use.
pub struct FreeMap {
    bits: TwoBitMap,
    blocks: u64,
}

impl View for FreeMap {
    type V = Seq<u64>;

    closed spec fn view(&self) -> Seq<u64> {
        cells(self.bits)
    }
}

/// Words of storage for `n` two-bit cells.
pub open spec fn words_for(n: nat) -> nat {
    ((2 * n + 63) / 64) as nat
}

impl FreeMap {
    pub closed spec fn wf(&self) -> bool {
        &&& storage_words(self.bits) == words_for(cells(self.bits).len())
        &&& self.blocks == cells(self.bits).len()
        &&& self.blocks <= usize::MAX
    }

    /// A map of `blocks` free blocks; `None` where it cannot be held in memory.
    pub fn new(blocks: u64) -> (r: Option<FreeMap>)
        ensures
            r is Some <==> blocks * 2 + (blocks * 2) % 64 <= usize::MAX,
            r is Some ==> r.unwrap().wf() && r.unwrap()@ == Seq::new(blocks as nat, |i: int| 0u64),
    {
        let bits: u128 = 2 * blocks as u128;
        if bits + bits % 64 > usize::MAX as u128 {
            return None;
        }
        let words: usize = ((bits + 63) / 64) as usize;
        let storage: Vec<usize> = vec![0usize; words];
        assert(storage@.len() * 64 >= blocks * 2);
        match bitmap_from_storage(blocks as usize, storage) {
            Some(bits) => Some(FreeMap { bits, blocks }),
            None => None,
        }
    }

    /// Number of blocks the map covers.
    pub fn blocks(&self) -> (r: u64)
        requires
            self.wf(),
        ensures
            r == self@.len(),
    {
        self.blocks
    }

    /// Sets the state of block `i` to `v`; `false`, with the map unchanged,
    /// where there is no such block or `v` does not fit in two bits.
    pub fn set(&mut self, i: u64, v: u64) -> (ok: bool)
        requires
            old(self).wf(),
        ensures
            final(self).wf(),
            ok == (i < old(self)@.len() && v < 4),
            ok ==> final(self)@ == old(self)@.update(i as int, v),
            !ok ==> final(self)@ == old(self)@,
    {
        if i >= self.blocks {
            return false;
        }
        bitmap_set(&mut self.bits, i as usize, v)
    }

    /// The state of block `i`, where there is such a block.
    pub fn get(&self, i: u64) -> (r: Option<u64>)
        requires
            self.wf(),
        ensures
            r == (if i < self@.len() {
                Some(self@[i as int])
            } else {
                None
            }),
    {
        if i >= self.blocks {
            return None;
        }
        bitmap_get(&self.bits, i as usize)
    }

    /// Bytes that the map takes in the region.
    pub fn byte_len(&self) -> (r: u64)
        requires
            self.wf(),
        ensures
            r == 8 * words_for(self@.len()),
    {
        (((2 * self.blocks as u128 + 63) / 64) * 8) as u64
    }

    /// The map as stored in the region: its words, little-endian, in order.
    pub fn into_bytes(self) -> (r: Vec<u8>)
        requires
            self.wf(),
        ensures
            r@.len() == 8 * words_for(self@.len()),
            forall|i: int| 0 <= i < self@.len() ==> #[trigger] stored_cell(r@, 0, i) == self@[i],
    {
        let ghost c = self@;
        let words = bitmap_unwrap(self.bits);
        let ghost w64 = words@.map_values(|x: usize| x as u64);
        let mut out: Vec<u8> = Vec::new();
        let mut k: usize = 0;
        while k < words.len()
            invariant
                k <= words@.len(),
                w64 == words@.map_values(|x: usize| x as u64),
                out@.len() == 8 * k,
                forall|j: int| 0 <= j < k ==> #[trigger] u64_at(out@, 8 * j) == w64[j],
            decreases words@.len() - k,
        {
            let ghost before = out@;
            push_u64(&mut out, words[k] as u64);
            proof {
                lemma_auto_spec_u64_to_from_le_bytes();
                assert forall|j: int| 0 <= j <= k implies #[trigger] u64_at(out@, 8 * j) == w64[j] by {
                    if j < k {
                        assert(out@.subrange(8 * j, 8 * j + 8) =~= before.subrange(8 * j, 8 * j + 8));
                        assert(u64_at(before, 8 * j) == w64[j]);
                    } else {
                        assert(w64[j] == words@[j] as u64);
                        assert(out@.subrange(8 * j, 8 * j + 8) =~= spec_u64_to_le_bytes(
                            words@[j] as u64,
                        ));
                    }
                }
            }
            k += 1;
        }
        proof {
            assert forall|i: int| 0 <= i < c.len() implies #[trigger] stored_cell(out@, 0, i)
                == c[i] by {
                assert(c[i] == cell_in_words(w64, i));
                assert((2 * i) / 64 < words@.len());
                assert(u64_at(out@, 8 * ((2 * i) / 64)) == w64[(2 * i) / 64]);
            }
        }
        out
    }
}

/// The state of block `i` in a map stored at `at` in `r`.
pub open spec fn stored_cell(r: Seq<u8>, at: int, i: int) -> u64 {
    (u64_at(r, at + 8 * ((2 * i) / 64)) >> ((2 * i) % 64) as u64) & 3
}

} // verus!
