//! Records of the on-disk layout and the typed offsets that locate them.
//!
//! Every record has a fixed-size little-endian image; `Persist` ties each
//! record type to that image.

use crate::bytes::{push_bytes, push_u32, push_u64, read_u32, read_u64, u32_at, u64_at};
use crate::freemap::FreeMap;
use core::marker::PhantomData;
use vstd::bytes::*;
use vstd::prelude::*;

verus! {

/// A record with a fixed-size image in the region.
pub trait Persist: Sized + View {
    /// Bytes that the record takes.
    spec fn width() -> nat;

    /// The record that a run of `width()` bytes holds.
    spec fn parse(b: Seq<u8>) -> Self::V;

    /// The bytes that store this record.
    spec fn image(&self) -> Seq<u8>;

    /// Reading back what was stored gives the same record.
    proof fn lemma_image(&self)
        ensures
            self.image().len() == Self::width(),
            Self::parse(self.image()) == self@,
    ;

    fn size() -> (r: u64)
        ensures
            r as nat == Self::width(),
            0 < r <= 72,
    ;

    fn load(b: &[u8]) -> (r: Self)
        requires
            b@.len() == Self::width(),
        ensures
            r@ == Self::parse(b@),
    ;

    fn save(&self) -> (r: Vec<u8>)
        ensures
            r@ == self.image(),
    ;
}

/// The tag `derpfs!!` that opens every formatted region.
pub open spec fn magic_tag() -> Seq<u8> {
    seq![100u8, 101u8, 114u8, 112u8, 102u8, 115u8, 33u8, 33u8]
}

pub fn magic() -> (r: [u8; 8])
    ensures
        r@ == magic_tag(),
{
    let r: [u8; 8] = [100u8, 101u8, 114u8, 112u8, 102u8, 115u8, 33u8, 33u8];
    assert(r@ =~= magic_tag());
    r
}

/// Copies `N` bytes of `b` from `at` on.
pub fn take_array<const N: usize>(b: &[u8], at: usize) -> (r: [u8; N])
    requires
        at + N <= b@.len(),
    ensures
        r@ == b@.subrange(at as int, at + N),
{
    let n = b.len();
    let mut r: [u8; N] = [0u8; N];
    let mut i: usize = 0;
    while i < N
        invariant
            i <= N,
            at + N <= b@.len(),
            n == b@.len(),
            r@.len() == N,
            forall|j: int| 0 <= j < i ==> r@[j] == b@[at + j],
        decreases N - i,
    {
        r[i] = b[at + i];
        i += 1;
    }
    assert(r@ =~= b@.subrange(at as int, at + N));
    r
}

/// Names an entity (an inode).
#[derive(Clone, Copy, PartialEq, Eq, Structural, Debug, Hash)]
pub struct EntityId(pub u64);

impl EntityId {
    pub fn new(v: u64) -> (r: EntityId)
        ensures
            r.0 == v,
    {
        EntityId(v)
    }

    pub fn val(&self) -> (r: u64)
        ensures
            r == self.0,
    {
        self.0
    }
}

/// Names an interned string.
#[derive(Clone, Copy, PartialEq, Eq, Structural, Debug, Hash)]
pub struct StrId(pub u64);

impl StrId {
    pub fn new(v: u64) -> (r: StrId)
        ensures
            r.0 == v,
    {
        StrId(v)
    }

    pub fn val(&self) -> (r: u64)
        ensures
            r == self.0,
    {
        self.0
    }
}

/// A byte offset into the region, tagged with the type stored there. Zero
/// stands for "absent".
pub struct Offset<T> {
    pub loc: u64,
    pub marker: PhantomData<T>,
}

pub open spec fn offset<T>(loc: u64) -> Offset<T> {
    Offset { loc, marker: PhantomData }
}

impl<T> Clone for Offset<T> {
    fn clone(&self) -> (r: Self)
        ensures
            r == *self,
    {
        Offset { loc: self.loc, marker: PhantomData }
    }
}

impl<T> Copy for Offset<T> {

}

impl<T> PartialEq for Offset<T> {
    fn eq(&self, o: &Offset<T>) -> (r: bool) {
        self.loc == o.loc
    }
}

impl<T> vstd::std_specs::cmp::PartialEqSpecImpl for Offset<T> {
    open spec fn obeys_eq_spec() -> bool {
        true
    }

    open spec fn eq_spec(&self, o: &Offset<T>) -> bool {
        self.loc == o.loc
    }
}

impl<T> Offset<T> {
    pub fn new(loc: u64) -> (r: Offset<T>)
        ensures
            r == offset::<T>(loc),
    {
        Offset { loc, marker: PhantomData }
    }

    /// Whether a record of `T` at this offset lies inside `region`.
    pub open spec fn fits(&self, region: Seq<u8>) -> bool where T: Persist {
        self.loc + T::width() <= region.len()
    }
}

impl<T: Persist> Offset<T> {
    /// The record stored at this offset, or `None` where it would reach past
    /// the end of the region.
    pub fn get(&self, region: &[u8]) -> (r: Option<T>)
        ensures
            r is Some <==> self.fits(region@),
            r is Some ==> r.unwrap()@ == T::parse(
                region@.subrange(self.loc as int, self.loc + T::width()),
            ),
    {
        let w = T::size();
        let n = region.len();
        if self.loc > n as u64 || w > n as u64 - self.loc {
            None
        } else {
            let at = self.loc as usize;
            Some(T::load(vstd::slice::slice_subrange(region, at, at + w as usize)))
        }
    }

    /// Stores `v` at this offset; `false`, with the region untouched, where it
    /// would reach past the end.
    pub fn put(&self, region: &mut Vec<u8>, v: &T) -> (ok: bool)
        ensures
            ok == self.fits(old(region)@),
            ok ==> final(region)@ == crate::bytes::splice(old(region)@, self.loc as int, v.image()),
            !ok ==> final(region)@ == old(region)@,
    {
        let w = T::size();
        let n = region.len();
        if self.loc > n as u64 || w > n as u64 - self.loc {
            false
        } else {
            let b = v.save();
            proof {
                v.lemma_image();
            }
            crate::bytes::copy_in(region, self.loc as usize, b.as_slice());
            true
        }
    }
}

/// Tag for the location of an inline-list node whose items are `T`s.
pub struct Node<T> {
    pub marker: PhantomData<T>,
}

/// The header of an inline list: its items follow it directly in the region,
/// and `next`, where not zero, locates the node that continues it.
pub struct IList<T> {
    pub next: Offset<Node<T>>,
    pub len: u64,
}

impl<T> Clone for IList<T> {
    fn clone(&self) -> (r: Self)
        ensures
            r == *self,
    {
        IList { next: self.next, len: self.len }
    }
}

impl<T> Copy for IList<T> {

}

impl<T> View for IList<T> {
    type V = IList<T>;

    open spec fn view(&self) -> IList<T> {
        *self
    }
}

impl<T> Persist for IList<T> {
    open spec fn width() -> nat {
        16
    }

    open spec fn parse(b: Seq<u8>) -> IList<T> {
        IList { next: offset(u64_at(b, 0)), len: u64_at(b, 8) }
    }

    open spec fn image(&self) -> Seq<u8> {
        spec_u64_to_le_bytes(self.next.loc) + spec_u64_to_le_bytes(self.len)
    }

    proof fn lemma_image(&self) {
        lemma_auto_spec_u64_to_from_le_bytes();
        let b = self.image();
        assert(b.subrange(0, 8) =~= spec_u64_to_le_bytes(self.next.loc));
        assert(b.subrange(8, 16) =~= spec_u64_to_le_bytes(self.len));
    }

    fn size() -> (r: u64) {
        16
    }

    fn load(b: &[u8]) -> (r: IList<T>) {
        IList { next: Offset::new(read_u64(b, 0)), len: read_u64(b, 8) }
    }

    fn save(&self) -> (r: Vec<u8>) {
        let mut v: Vec<u8> = Vec::new();
        push_u64(&mut v, self.next.loc);
        push_u64(&mut v, self.len);
        assert(v@ =~= self.image());
        v
    }
}

/// One row of the id map: where the entity `id` is stored.
#[derive(Clone, Copy)]
pub struct IdEntry {
    pub id: EntityId,
    pub offset: Offset<Entity>,
}

impl View for IdEntry {
    type V = IdEntry;

    open spec fn view(&self) -> IdEntry {
        *self
    }
}

impl Persist for IdEntry {
    open spec fn width() -> nat {
        16
    }

    open spec fn parse(b: Seq<u8>) -> IdEntry {
        IdEntry { id: EntityId(u64_at(b, 0)), offset: offset(u64_at(b, 8)) }
    }

    open spec fn image(&self) -> Seq<u8> {
        spec_u64_to_le_bytes(self.id.0) + spec_u64_to_le_bytes(self.offset.loc)
    }

    proof fn lemma_image(&self) {
        lemma_auto_spec_u64_to_from_le_bytes();
        let b = self.image();
        assert(b.subrange(0, 8) =~= spec_u64_to_le_bytes(self.id.0));
        assert(b.subrange(8, 16) =~= spec_u64_to_le_bytes(self.offset.loc));
    }

    fn size() -> (r: u64) {
        16
    }

    fn load(b: &[u8]) -> (r: IdEntry) {
        IdEntry { id: EntityId(read_u64(b, 0)), offset: Offset::new(read_u64(b, 8)) }
    }

    fn save(&self) -> (r: Vec<u8>) {
        let mut v: Vec<u8> = Vec::new();
        push_u64(&mut v, self.id.0);
        push_u64(&mut v, self.offset.loc);
        assert(v@ =~= self.image());
        v
    }
}

/// One row of the string map: the string `id` has `len` bytes at `loc`.
#[derive(Clone, Copy)]
pub struct StrEntry {
    pub id: StrId,
    pub len: u64,
    pub loc: Offset<u8>,
}

impl View for StrEntry {
    type V = StrEntry;

    open spec fn view(&self) -> StrEntry {
        *self
    }
}

impl Persist for StrEntry {
    open spec fn width() -> nat {
        24
    }

    open spec fn parse(b: Seq<u8>) -> StrEntry {
        StrEntry { id: StrId(u64_at(b, 0)), len: u64_at(b, 8), loc: offset(u64_at(b, 16)) }
    }

    open spec fn image(&self) -> Seq<u8> {
        spec_u64_to_le_bytes(self.id.0) + spec_u64_to_le_bytes(self.len) + spec_u64_to_le_bytes(
            self.loc.loc,
        )
    }

    proof fn lemma_image(&self) {
        lemma_auto_spec_u64_to_from_le_bytes();
        let b = self.image();
        assert(b.subrange(0, 8) =~= spec_u64_to_le_bytes(self.id.0));
        assert(b.subrange(8, 16) =~= spec_u64_to_le_bytes(self.len));
        assert(b.subrange(16, 24) =~= spec_u64_to_le_bytes(self.loc.loc));
    }

    fn size() -> (r: u64) {
        24
    }

    fn load(b: &[u8]) -> (r: StrEntry) {
        StrEntry {
            id: StrId(read_u64(b, 0)),
            len: read_u64(b, 8),
            loc: Offset::new(read_u64(b, 16)),
        }
    }

    fn save(&self) -> (r: Vec<u8>) {
        let mut v: Vec<u8> = Vec::new();
        push_u64(&mut v, self.id.0);
        push_u64(&mut v, self.len);
        push_u64(&mut v, self.loc.loc);
        assert(v@ =~= self.image());
        v
    }
}

/// One 16-byte slot of an entity's chunk list. For a directory it is an entry
/// (a name and a child id); for a file, an extent (a length and a location).
#[derive(Clone, Copy)]
pub struct ContentChunk {
    pub len_or_name: u64,
    pub offset: Offset<u8>,
}

impl View for ContentChunk {
    type V = ContentChunk;

    open spec fn view(&self) -> ContentChunk {
        *self
    }
}

impl Persist for ContentChunk {
    open spec fn width() -> nat {
        16
    }

    open spec fn parse(b: Seq<u8>) -> ContentChunk {
        ContentChunk { len_or_name: u64_at(b, 0), offset: offset(u64_at(b, 8)) }
    }

    open spec fn image(&self) -> Seq<u8> {
        spec_u64_to_le_bytes(self.len_or_name) + spec_u64_to_le_bytes(self.offset.loc)
    }

    proof fn lemma_image(&self) {
        lemma_auto_spec_u64_to_from_le_bytes();
        let b = self.image();
        assert(b.subrange(0, 8) =~= spec_u64_to_le_bytes(self.len_or_name));
        assert(b.subrange(8, 16) =~= spec_u64_to_le_bytes(self.offset.loc));
    }

    fn size() -> (r: u64) {
        16
    }

    fn load(b: &[u8]) -> (r: ContentChunk) {
        ContentChunk { len_or_name: read_u64(b, 0), offset: Offset::new(read_u64(b, 8)) }
    }

    fn save(&self) -> (r: Vec<u8>) {
        let mut v: Vec<u8> = Vec::new();
        push_u64(&mut v, self.len_or_name);
        push_u64(&mut v, self.offset.loc);
        assert(v@ =~= self.image());
        v
    }
}

/// Flag bit of an entity: it is a directory.
pub const DIRECTORY: u32 = 1;

/// Flag bit of an entity: all its content is inline and its chunk list is
/// unused.
pub const INLINE: u32 = 2;

/// An inode: the metadata of a file or a directory.
#[derive(Clone, Copy)]
pub struct Entity {
    pub id: EntityId,
    pub parent: EntityId,
    pub size: u64,
    pub owner: u64,
    pub group: u64,
    pub perm: u32,
    pub flags: u32,
    pub attrs: Offset<u8>,
    pub chunks: IList<ContentChunk>,
}

impl View for Entity {
    type V = Entity;

    open spec fn view(&self) -> Entity {
        *self
    }
}

impl Persist for Entity {
    open spec fn width() -> nat {
        72
    }

    open spec fn parse(b: Seq<u8>) -> Entity {
        Entity {
            id: EntityId(u64_at(b, 0)),
            parent: EntityId(u64_at(b, 8)),
            size: u64_at(b, 16),
            owner: u64_at(b, 24),
            group: u64_at(b, 32),
            perm: u32_at(b, 40),
            flags: u32_at(b, 44),
            attrs: offset(u64_at(b, 48)),
            chunks: IList { next: offset(u64_at(b, 56)), len: u64_at(b, 64) },
        }
    }

    open spec fn image(&self) -> Seq<u8> {
        spec_u64_to_le_bytes(self.id.0) + spec_u64_to_le_bytes(self.parent.0)
            + spec_u64_to_le_bytes(self.size) + spec_u64_to_le_bytes(self.owner)
            + spec_u64_to_le_bytes(self.group) + spec_u32_to_le_bytes(self.perm)
            + spec_u32_to_le_bytes(self.flags) + spec_u64_to_le_bytes(self.attrs.loc)
            + spec_u64_to_le_bytes(self.chunks.next.loc) + spec_u64_to_le_bytes(self.chunks.len)
    }

    proof fn lemma_image(&self) {
        lemma_auto_spec_u64_to_from_le_bytes();
        lemma_auto_spec_u32_to_from_le_bytes();
        let b = self.image();
        assert(b.subrange(0, 8) =~= spec_u64_to_le_bytes(self.id.0));
        assert(b.subrange(8, 16) =~= spec_u64_to_le_bytes(self.parent.0));
        assert(b.subrange(16, 24) =~= spec_u64_to_le_bytes(self.size));
        assert(b.subrange(24, 32) =~= spec_u64_to_le_bytes(self.owner));
        assert(b.subrange(32, 40) =~= spec_u64_to_le_bytes(self.group));
        assert(b.subrange(40, 44) =~= spec_u32_to_le_bytes(self.perm));
        assert(b.subrange(44, 48) =~= spec_u32_to_le_bytes(self.flags));
        assert(b.subrange(48, 56) =~= spec_u64_to_le_bytes(self.attrs.loc));
        assert(b.subrange(56, 64) =~= spec_u64_to_le_bytes(self.chunks.next.loc));
        assert(b.subrange(64, 72) =~= spec_u64_to_le_bytes(self.chunks.len));
    }

    fn size() -> (r: u64) {
        72
    }

    fn load(b: &[u8]) -> (r: Entity) {
        Entity {
            id: EntityId(read_u64(b, 0)),
            parent: EntityId(read_u64(b, 8)),
            size: read_u64(b, 16),
            owner: read_u64(b, 24),
            group: read_u64(b, 32),
            perm: read_u32(b, 40),
            flags: read_u32(b, 44),
            attrs: Offset::new(read_u64(b, 48)),
            chunks: IList { next: Offset::new(read_u64(b, 56)), len: read_u64(b, 64) },
        }
    }

    fn save(&self) -> (r: Vec<u8>) {
        let mut v: Vec<u8> = Vec::new();
        push_u64(&mut v, self.id.0);
        push_u64(&mut v, self.parent.0);
        push_u64(&mut v, self.size);
        push_u64(&mut v, self.owner);
        push_u64(&mut v, self.group);
        push_u32(&mut v, self.perm);
        push_u32(&mut v, self.flags);
        push_u64(&mut v, self.attrs.loc);
        push_u64(&mut v, self.chunks.next.loc);
        push_u64(&mut v, self.chunks.len);
        assert(v@ =~= self.image());
        v
    }
}

/// The root record at offset zero, which locates every other structure.
pub struct Superblock {
    pub magic: [u8; 8],
    pub uuid: [u8; 16],
    pub size: u64,
    pub flags: u64,
    pub freemap: Offset<FreeMap>,
    pub idmap: Offset<Node<IdEntry>>,
    pub strmap: Offset<Node<StrEntry>>,
    pub root: Offset<Entity>,
}

/// A superblock as plain values.
pub ghost struct SuperblockView {
    pub magic: Seq<u8>,
    pub uuid: Seq<u8>,
    pub size: u64,
    pub flags: u64,
    pub freemap: u64,
    pub idmap: u64,
    pub strmap: u64,
    pub root: u64,
}

impl View for Superblock {
    type V = SuperblockView;

    open spec fn view(&self) -> SuperblockView {
        SuperblockView {
            magic: self.magic@,
            uuid: self.uuid@,
            size: self.size,
            flags: self.flags,
            freemap: self.freemap.loc,
            idmap: self.idmap.loc,
            strmap: self.strmap.loc,
            root: self.root.loc,
        }
    }
}

impl Persist for Superblock {
    open spec fn width() -> nat {
        72
    }

    open spec fn parse(b: Seq<u8>) -> SuperblockView {
        SuperblockView {
            magic: b.subrange(0, 8),
            uuid: b.subrange(8, 24),
            size: u64_at(b, 24),
            flags: u64_at(b, 32),
            freemap: u64_at(b, 40),
            idmap: u64_at(b, 48),
            strmap: u64_at(b, 56),
            root: u64_at(b, 64),
        }
    }

    open spec fn image(&self) -> Seq<u8> {
        self.magic@ + self.uuid@ + spec_u64_to_le_bytes(self.size) + spec_u64_to_le_bytes(
            self.flags,
        ) + spec_u64_to_le_bytes(self.freemap.loc) + spec_u64_to_le_bytes(self.idmap.loc)
            + spec_u64_to_le_bytes(self.strmap.loc) + spec_u64_to_le_bytes(self.root.loc)
    }

    proof fn lemma_image(&self) {
        lemma_auto_spec_u64_to_from_le_bytes();
        let b = self.image();
        assert(b.subrange(0, 8) =~= self.magic@);
        assert(b.subrange(8, 24) =~= self.uuid@);
        assert(b.subrange(24, 32) =~= spec_u64_to_le_bytes(self.size));
        assert(b.subrange(32, 40) =~= spec_u64_to_le_bytes(self.flags));
        assert(b.subrange(40, 48) =~= spec_u64_to_le_bytes(self.freemap.loc));
        assert(b.subrange(48, 56) =~= spec_u64_to_le_bytes(self.idmap.loc));
        assert(b.subrange(56, 64) =~= spec_u64_to_le_bytes(self.strmap.loc));
        assert(b.subrange(64, 72) =~= spec_u64_to_le_bytes(self.root.loc));
    }

    fn size() -> (r: u64) {
        72
    }

    fn load(b: &[u8]) -> (r: Superblock) {
        Superblock {
            magic: take_array(b, 0),
            uuid: take_array(b, 8),
            size: read_u64(b, 24),
            flags: read_u64(b, 32),
            freemap: Offset::new(read_u64(b, 40)),
            idmap: Offset::new(read_u64(b, 48)),
            strmap: Offset::new(read_u64(b, 56)),
            root: Offset::new(read_u64(b, 64)),
        }
    }

    fn save(&self) -> (r: Vec<u8>) {
        let mut v: Vec<u8> = Vec::new();
        push_bytes(&mut v, vstd::array::array_as_slice(&self.magic));
        push_bytes(&mut v, vstd::array::array_as_slice(&self.uuid));
        push_u64(&mut v, self.size);
        push_u64(&mut v, self.flags);
        push_u64(&mut v, self.freemap.loc);
        push_u64(&mut v, self.idmap.loc);
        push_u64(&mut v, self.strmap.loc);
        push_u64(&mut v, self.root.loc);
        assert(v@ =~= self.image());
        v
    }
}

impl Superblock {
    /// A superblock with the magic tag, a nil identifier and every other
    /// field zero.
    pub fn empty() -> (r: Superblock)
        ensures
            r.magic@ == magic_tag(),
            r.uuid@ == Seq::new(16, |i: int| 0u8),
            r.size == 0,
            r.flags == 0,
            r.freemap.loc == 0,
            r.idmap.loc == 0,
            r.strmap.loc == 0,
            r.root.loc == 0,
    {
        let uuid: [u8; 16] = [0u8; 16];
        assert(uuid@ =~= Seq::new(16, |i: int| 0u8));
        Superblock {
            magic: magic(),
            uuid,
            size: 0,
            flags: 0,
            freemap: Offset::new(0),
            idmap: Offset::new(0),
            strmap: Offset::new(0),
            root: Offset::new(0),
        }
    }
}

/// Every record has its fixed size on disk.
pub proof fn lemma_record_sizes()
    ensures
        Superblock::width() == 72,
        Entity::width() == 72,
        StrEntry::width() == 24,
        IdEntry::width() == 16,
        ContentChunk::width() == 16,
        IList::<ContentChunk>::width() == 16,
        IList::<IdEntry>::width() == 16,
        IList::<StrEntry>::width() == 16,
{
}

} // verus!
