//! Walking an inline list: the items of each node in order, then the node
//! that continues it.

use crate::bytes::{read_u64, u64_at};
use crate::disk::{ContentChunk, Entity, IList, Offset, Persist, INLINE};
use crate::fs::FsError;
use core::marker::PhantomData;
use vstd::prelude::*;
use vstd::slice::slice_subrange;

verus! {

/// Whether the node whose header is at `at`, holding `len` items of `T`, lies
/// inside `r`.
pub open spec fn node_fits<T: Persist>(r: Seq<u8>, at: int, len: int) -> bool {
    at + 16 + len * T::width() <= r.len()
}

/// Item `i` of the node whose header is at `at`.
pub open spec fn item_at<T: Persist>(r: Seq<u8>, at: int, i: int) -> T::V {
    T::parse(r.subrange(at + 16 + i * T::width(), at + 16 + i * T::width() + T::width()))
}

/// Items `lo` up to `hi` of the node whose header is at `at`.
pub open spec fn node_items<T: Persist>(r: Seq<u8>, at: int, lo: int, hi: int) -> Seq<T::V> {
    Seq::new((hi - lo) as nat, |i: int| item_at::<T>(r, at, lo + i))
}

/// What a walk yields from item `loc` of the node at `at` (with `len` items
/// and continuation `next`), following at most `fuel` continuations: the
/// items it reaches, and whether it then runs into a node that reaches past
/// the region or into a chain longer than `fuel`.
pub open spec fn chain<T: Persist>(
    r: Seq<u8>,
    at: int,
    len: int,
    next: int,
    loc: int,
    fuel: nat,
) -> (Seq<T::V>, bool)
    decreases fuel,
{
    if loc > len || !node_fits::<T>(r, at, len) {
        (Seq::empty(), true)
    } else if next == 0 {
        (node_items::<T>(r, at, loc, len), false)
    } else if fuel == 0 || next + 16 > r.len() {
        (node_items::<T>(r, at, loc, len), true)
    } else {
        let t = chain::<T>(
            r,
            next,
            u64_at(r, next + 8) as int,
            u64_at(r, next) as int,
            0,
            (fuel - 1) as nat,
        );
        (node_items::<T>(r, at, loc, len) + t.0, t.1)
    }
}

/// Taking one item off the front of a node.
proof fn lemma_chain_step<T: Persist>(
    r: Seq<u8>,
    at: int,
    len: int,
    next: int,
    loc: int,
    fuel: nat,
)
    requires
        0 <= loc < len,
        node_fits::<T>(r, at, len),
    ensures
        ({
            let (s, c) = chain::<T>(r, at, len, next, loc, fuel);
            &&& s.len() > 0
            &&& s[0] == item_at::<T>(r, at, loc)
            &&& chain::<T>(r, at, len, next, loc + 1, fuel) == (s.drop_first(), c)
        }),
{
    let here = node_items::<T>(r, at, loc, len);
    let rest = node_items::<T>(r, at, loc + 1, len);
    assert(rest =~= here.drop_first());
    if next != 0 && !(fuel == 0 || next + 16 > r.len()) {
        let tail = chain::<T>(
            r,
            next,
            u64_at(r, next + 8) as int,
            u64_at(r, next) as int,
            0,
            (fuel - 1) as nat,
        );
        assert((rest + tail.0) =~= (here + tail.0).drop_first());
    }
}

/// The views of the records in `v`.
pub open spec fn views<T: View>(v: Seq<T>) -> Seq<T::V> {
    v.map_values(|x: T| x@)
}

/// Whether a node whose header is at `at`, holding `len` items of `w` bytes,
/// lies inside a region of `n` bytes.
fn node_in(at: u64, len: u64, w: u64, n: usize) -> (r: bool)
    requires
        w <= 72,
    ensures
        r == (at + 16 + len * w <= n),
{
    assert(len * w <= 0xffff_ffff_ffff_ffff * 72) by (nonlinear_arith)
        requires
            len <= 0xffff_ffff_ffff_ffff,
            w <= 72,
    ;
    (at as u128) + 16 + (len as u128) * (w as u128) <= (n as u128)
}

/// How a walk over an inline list can fail.
#[derive(Clone, Copy, PartialEq, Eq, Structural, Debug)]
pub enum ListError {
    /// A node reaches past the end of the region, or the chain of nodes is
    /// longer than the region could hold without a cycle.
    Corrupt,
}

/// A position in a walk over an inline list.
pub struct IListElements<T> {
    /// Offset of the current node's header.
    pub at: u64,
    /// Items in the current node.
    pub len: u64,
    /// The current node's continuation.
    pub next: u64,
    /// Index of the next item of the current node.
    pub loc: u64,
    /// Continuations that may still be followed.
    pub fuel: u64,
    /// Set once the walk has reported a corrupt list.
    pub done: bool,
    pub marker: PhantomData<T>,
}

impl<T: Persist> IListElements<T> {
    /// The items that the walk has still to yield in `r`, and whether it then
    /// runs into a corrupt node.
    pub open spec fn remaining(&self, r: Seq<u8>) -> (Seq<T::V>, bool) {
        if self.done {
            (Seq::empty(), false)
        } else {
            chain::<T>(
                r,
                self.at as int,
                self.len as int,
                self.next as int,
                self.loc as int,
                self.fuel as nat,
            )
        }
    }

    /// Yields the next item; `None` once the list is exhausted, and an error,
    /// once, where it is corrupt.
    pub fn next(&mut self, region: &[u8]) -> (r: Option<Result<T, ListError>>)
        ensures
            ({
                let (s, c) = old(self).remaining(region@);
                if s.len() > 0 {
                    &&& r matches Some(Ok(v)) && v@ == s[0]
                    &&& final(self).remaining(region@) == (s.drop_first(), c)
                } else if c {
                    &&& r matches Some(Err(e)) && e == ListError::Corrupt
                    &&& final(self).remaining(region@) == (Seq::<T::V>::empty(), false)
                } else {
                    &&& r is None
                    &&& final(self).remaining(region@) == (s, c)
                }
            }),
    {
        let n = region.len();
        let w = T::size();
        loop
            invariant
                self.remaining(region@) == old(self).remaining(region@),
                n == region@.len(),
                w as nat == T::width(),
                0 < w <= 72,
            decreases self.fuel,
        {
            if self.done {
                return None;
            }
            if self.loc > self.len || !node_in(self.at, self.len, w, n) {
                self.done = true;
                return Some(Err(ListError::Corrupt));
            }
            if self.loc < self.len {
                assert(self.loc * w + w <= self.len * w) by (nonlinear_arith)
                    requires
                        self.loc < self.len,
                ;
                let p = self.at + 16 + self.loc * w;
                let item = T::load(slice_subrange(region, p as usize, (p + w) as usize));
                assert(item@ == item_at::<T>(region@, self.at as int, self.loc as int));
                proof {
                    lemma_chain_step::<T>(
                        region@,
                        self.at as int,
                        self.len as int,
                        self.next as int,
                        self.loc as int,
                        self.fuel as nat,
                    );
                }
                self.loc = self.loc + 1;
                return Some(Ok(item));
            }
            if self.next == 0 {
                return None;
            }
            if self.fuel == 0 || self.next > n as u64 || 16 > n as u64 - self.next {
                self.done = true;
                return Some(Err(ListError::Corrupt));
            }
            let ghost before = *self;
            let at = self.next as usize;
            self.len = read_u64(region, at + 8);
            self.next = read_u64(region, at);
            self.at = at as u64;
            self.loc = 0;
            self.fuel = self.fuel - 1;
            proof {
                let here = node_items::<T>(
                    region@,
                    before.at as int,
                    before.loc as int,
                    before.len as int,
                );
                assert(here =~= Seq::<T::V>::empty());
                let tail = self.remaining(region@);
                assert(here + tail.0 =~= tail.0);
            }
        }
    }

    /// Every item that the walk has still to yield, or the error where the
    /// list is corrupt.
    pub fn to_vec(&mut self, region: &[u8]) -> (r: Result<Vec<T>, ListError>)
        ensures
            ({
                let (s, c) = old(self).remaining(region@);
                if c {
                    r matches Err(e) && e == ListError::Corrupt
                } else {
                    r matches Ok(v) && views(v@) == s
                }
            }),
    {
        let ghost s = self.remaining(region@).0;
        let ghost c = self.remaining(region@).1;
        let mut out: Vec<T> = Vec::new();
        loop
            invariant
                (s, c) == old(self).remaining(region@),
                out@.len() <= s.len(),
                self.remaining(region@) == (s.skip(out@.len() as int), c),
                views(out@) == s.take(out@.len() as int),
            decreases s.len() - out@.len(),
        {
            let ghost k: int = out@.len() as int;
            match self.next(region) {
                None => {
                    assert(s.take(k) =~= s);
                    return Ok(out);
                },
                Some(Ok(v)) => {
                    out.push(v);
                    assert(s.skip(k).drop_first() =~= s.skip(k + 1int));
                    assert(views(out@) =~= s.take(k + 1int));
                },
                Some(Err(e)) => {
                    return Err(e);
                },
            }
        }
    }
}

impl<T> IList<T> {
    /// A list with no items and no continuation.
    pub fn empty() -> (r: IList<T>)
        ensures
            r.next.loc == 0,
            r.len == 0,
    {
        IList { next: Offset::new(0), len: 0 }
    }
}

impl<T: Persist> IList<T> {
    /// The items of this list, whose header is at `at`, followed by those of
    /// the nodes that continue it, and whether a corrupt node cuts it short.
    pub open spec fn items(&self, r: Seq<u8>, at: int) -> (Seq<T::V>, bool) {
        chain::<T>(r, at, self.len as int, self.next.loc as int, 0, r.len())
    }

    /// A walk over the items of this list, whose header is at `at`.
    pub fn iter(&self, at: u64, region: &[u8]) -> (r: IListElements<T>)
        ensures
            r.remaining(region@) == self.items(region@, at as int),
    {
        IListElements {
            at,
            len: self.len,
            next: self.next.loc,
            loc: 0,
            fuel: region.len() as u64,
            done: false,
            marker: PhantomData,
        }
    }

    /// Item `idx` of this node alone (continuations are not followed), whose
    /// header is at `at`; `None` where there is no such item in the region.
    pub fn get(&self, at: u64, idx: u64, region: &[u8]) -> (r: Option<T>)
        ensures
            r is Some <==> idx < self.len && node_fits::<T>(region@, at as int, self.len as int),
            r is Some ==> r.unwrap()@ == item_at::<T>(region@, at as int, idx as int),
    {
        let n = region.len();
        let w = T::size();
        if idx >= self.len || !node_in(at, self.len, w, n) {
            None
        } else {
            assert(idx * w + w <= self.len * w) by (nonlinear_arith)
                requires
                    idx < self.len,
            ;
            let p = at + 16 + idx * w;
            Some(T::load(slice_subrange(region, p as usize, (p + w) as usize)))
        }
    }
}

impl<T: Persist> IList<T> {
    /// Overwrites item `idx` of this node alone, whose header is at `at`;
    /// `false`, with the region untouched, where there is no such item.
    pub fn set(&self, at: u64, idx: u64, v: &T, region: &mut Vec<u8>) -> (ok: bool)
        ensures
            ok == (idx < self.len && node_fits::<T>(old(region)@, at as int, self.len as int)),
            ok ==> final(region)@ == crate::bytes::splice(
                old(region)@,
                at + 16 + idx * T::width(),
                v.image(),
            ),
            !ok ==> final(region)@ == old(region)@,
    {
        let n = region.len();
        let w = T::size();
        if idx >= self.len || !node_in(at, self.len, w, n) {
            false
        } else {
            assert(idx * w + w <= self.len * w) by (nonlinear_arith)
                requires
                    idx < self.len,
            ;
            Offset::<T>::new(at + 16 + idx * w).put(region, v)
        }
    }
}

impl Entity {
    /// Whether all of this entity's content is inline.
    pub open spec fn is_inline(&self) -> bool {
        self.flags & INLINE != 0
    }

    /// Exactly one content mode is active: an entity whose content is inline
    /// has an empty chunk list with no continuation.
    pub open spec fn content_mode_ok(&self) -> bool {
        self.is_inline() ==> self.chunks.len == 0 && self.chunks.next.loc == 0
    }

    /// A walk over this entity's chunk list, where the entity is stored at
    /// `at`; `None` where its content is inline, and an error where it is
    /// marked inline but still has a chunk list.
    pub fn chunks(&self, at: u64, region: &[u8]) -> (r: Result<
        Option<IListElements<ContentChunk>>,
        FsError,
    >)
        requires
            at + 56 <= u64::MAX,
        ensures
            r is Err <==> !self.content_mode_ok(),
            r is Err ==> r == Err::<Option<IListElements<ContentChunk>>, FsError>(
                FsError::ReferentialCorruption(self.id),
            ),
            r matches Ok(w) ==> (w is None <==> self.is_inline()),
            r matches Ok(Some(w)) ==> w.remaining(region@) == self.chunks.items(region@, at + 56),
    {
        if self.flags & INLINE != 0 {
            if self.chunks.len == 0 && self.chunks.next.loc == 0 {
                Ok(None)
            } else {
                Err(FsError::ReferentialCorruption(self.id))
            }
        } else {
            Ok(Some(self.chunks.iter(at + 56, region)))
        }
    }
}

/// A list with no items and no continuation yields nothing, and ends.
pub proof fn lemma_empty_list<T: Persist>(r: Seq<u8>, l: IList<T>, at: int)
    requires
        l.len == 0,
        l.next.loc == 0,
        0 <= at,
        at + 16 <= r.len(),
    ensures
        l.items(r, at) == (Seq::<T::V>::empty(), false),
{
    assert(node_items::<T>(r, at, 0, 0) =~= Seq::<T::V>::empty());
}

/// A node whose continuation is a last node yields its own items, then those
/// of that node, and ends.
pub proof fn lemma_two_nodes<T: Persist>(r: Seq<u8>, l: IList<T>, a: int)
    requires
        0 <= a,
        l.next.loc != 0,
        l.next.loc + 16 <= r.len(),
        node_fits::<T>(r, a, l.len as int),
        u64_at(r, l.next.loc + 0) == 0,
        node_fits::<T>(r, l.next.loc as int, u64_at(r, l.next.loc + 8) as int),
    ensures
        l.items(r, a) == (node_items::<T>(r, a, 0, l.len as int) + node_items::<T>(
            r,
            l.next.loc as int,
            0,
            u64_at(r, l.next.loc + 8) as int,
        ), false),
{
    let b = l.next.loc as int;
    let fuel = r.len();
    assert(chain::<T>(r, b, u64_at(r, b + 8) as int, 0, 0, (fuel - 1) as nat) == (
        node_items::<T>(r, b, 0, u64_at(r, b + 8) as int),
        false,
    ));
}

} // verus!
