//! The filesystem as a whole: laying out a fresh region, validating and
//! loading an existing one, and looking entities up in it.

use crate::bytes::{copy_in, lemma_splice_inside, lemma_splice_outside, lemma_u64_within, same_bytes};
use crate::disk::{
    magic, magic_tag, offset, take_array, ContentChunk, Entity, EntityId, IList, IdEntry, Offset, Persist,
    StrEntry, StrId, Superblock, SuperblockView, DIRECTORY,
};
use crate::freemap::{stored_cell, words_for, FreeMap};
use crate::ident::{fresh_id, is_nil, nil_id};
use crate::ilist::{node_items, views};
use crate::names::{decode_name, short_name, VStr};
use crate::{block_size, spec_block_size, BLOCK};
use std::collections::HashMap;
use vstd::prelude::*;
use vstd::slice::slice_subrange;

verus! {

broadcast use vstd::std_specs::hash::group_hash_axioms;

/// Blocks reserved for each of the id map and the string map (10 MiB).
pub const RESERVED_BLOCKS: u64 = 2560;

/// Flag bit of the superblock: not cleanly unmounted.
pub const DIRTY: u64 = 1;

/// Permission bits of the root directory (`0o755`).
pub const ROOT_PERM: u32 = 0o755;

/// Blocks that the occupancy map of a `size`-byte filesystem takes.
pub open spec fn map_blocks(size: nat) -> nat {
    spec_block_size(8 * words_for(spec_block_size(size)))
}

/// Offset of the id map: right after the superblock and the occupancy map.
pub open spec fn idmap_at(size: nat) -> nat {
    (1 + map_blocks(size)) * 4096
}

/// Offset of the string map: after the id map's reservation.
pub open spec fn strmap_at(size: nat) -> nat {
    idmap_at(size) + 2560 * 4096
}

/// Offset of the root entity: after the string map's reservation.
pub open spec fn root_at(size: nat) -> nat {
    strmap_at(size) + 2560 * 4096
}

/// Blocks in use once the layout is written, the root entity's included.
pub open spec fn used_blocks(size: nat) -> nat {
    root_at(size) / 4096 + 1
}

/// The superblock that formatting writes.
pub open spec fn formatted_sb(size: nat, uuid: Seq<u8>) -> SuperblockView {
    SuperblockView {
        magic: magic_tag(),
        uuid,
        size: size as u64,
        flags: DIRTY,
        freemap: 4096,
        idmap: idmap_at(size) as u64,
        strmap: strmap_at(size) as u64,
        root: root_at(size) as u64,
    }
}

/// The root directory: entity 1, its own parent, mode `0o755`, no content.
pub open spec fn root_entity() -> Entity {
    Entity {
        id: EntityId(1),
        parent: EntityId(1),
        size: 0,
        owner: 0,
        group: 0,
        perm: ROOT_PERM,
        flags: DIRECTORY,
        attrs: offset(0),
        chunks: IList { next: offset(0), len: 0 },
    }
}

/// The id-map row of the root directory.
pub open spec fn root_row(size: nat) -> IdEntry {
    IdEntry { id: EntityId(1), offset: offset(root_at(size) as u64) }
}

/// The rows of the id map whose header is at `at`, and whether a corrupt
/// node cuts them short.
pub open spec fn id_rows(r: Seq<u8>, at: int) -> (Seq<IdEntry>, bool) {
    IList::<IdEntry>::parse(r.subrange(at, at + 16)).items(r, at)
}

/// The rows of the string map whose header is at `at`.
pub open spec fn str_rows(r: Seq<u8>, at: int) -> (Seq<StrEntry>, bool) {
    IList::<StrEntry>::parse(r.subrange(at, at + 16)).items(r, at)
}

/// Entity id to entity offset, as the rows give it (a later row wins).
pub open spec fn index_of(rows: Seq<IdEntry>) -> Map<u64, u64>
    decreases rows.len(),
{
    if rows.len() == 0 {
        Map::empty()
    } else {
        index_of(rows.drop_last()).insert(rows.last().id.0, rows.last().offset.loc)
    }
}

/// What a region holds once a `size`-byte filesystem with identifier `uuid`
/// has been laid out in it.
pub open spec fn formatted(r: Seq<u8>, size: nat, uuid: Seq<u8>) -> bool {
    &&& root_at(size) + 72 <= size <= r.len()
    &&& size <= u64::MAX
    &&& Superblock::parse(r.subrange(0, 72)) == formatted_sb(size, uuid)
    &&& forall|i: int|
        0 <= i < spec_block_size(size) ==> #[trigger] stored_cell(r, 4096, i) == if i
            < used_blocks(size) {
            1u64
        } else {
            0u64
        }
    &&& IList::<IdEntry>::parse(r.subrange(idmap_at(size) as int, idmap_at(size) + 16int))
        == IList::<IdEntry> { next: offset(0), len: 1 }
    &&& IList::<StrEntry>::parse(r.subrange(strmap_at(size) as int, strmap_at(size) + 16int))
        == IList::<StrEntry> { next: offset(0), len: 0 }
    &&& id_rows(r, idmap_at(size) as int) == (seq![root_row(size)], false)
    &&& str_rows(r, strmap_at(size) as int) == (Seq::<StrEntry>::empty(), false)
    &&& Entity::parse(r.subrange(root_at(size) as int, root_at(size) + 72int)) == root_entity()
}

/// Why formatting can fail.
#[derive(Clone, Copy, PartialEq, Eq, Structural, Debug)]
pub enum FormatError {
    /// The region is smaller than the requested size, or the size is too
    /// small for the layout.
    InsufficientBackingSize,
    /// The layout needs more blocks than the occupancy map covers.
    AllocatorExhausted,
}

/// A mounted filesystem: its superblock, the region, and an in-memory index
/// from entity id to entity offset.
pub struct DerpFS {
    sb: Superblock,
    map: Vec<u8>,
    ids: HashMap<u64, u64>,
}

/// The superblock stored at the start of `r`.
pub open spec fn sb_in(r: Seq<u8>) -> SuperblockView {
    Superblock::parse(r.subrange(0, 72))
}

/// Whether `r` holds a filesystem that mounts: a whole superblock with the
/// magic tag, a non-nil identifier, a size within the region, and an id map
/// that can be walked to its end.
pub open spec fn mountable(r: Seq<u8>) -> bool {
    &&& r.len() >= 72
    &&& sb_in(r).magic == magic_tag()
    &&& sb_in(r).uuid != nil_id()
    &&& sb_in(r).size <= r.len()
    &&& sb_in(r).idmap + 16 <= r.len()
    &&& !id_rows(r, sb_in(r).idmap as int).1
}

/// The error that mounting `r` reports, checked in this order: the magic tag
/// as soon as there are eight bytes, the identifier as soon as there are
/// twenty-four, and a superblock cut short only after those.
pub open spec fn open_error(r: Seq<u8>, e: OpenError) -> bool {
    if r.len() < 8 {
        e is Corrupt
    } else if r.subrange(0, 8) != magic_tag() {
        e matches OpenError::InvalidMagic(m) && m@ == r.subrange(0, 8)
    } else if r.len() < 24 {
        e is Corrupt
    } else if r.subrange(8, 24) == nil_id() {
        e is NilUuid
    } else if r.len() < 72 {
        e is Corrupt
    } else if sb_in(r).size > r.len() {
        e is InsufficientBackingSize
    } else {
        e is Corrupt
    }
}

/// Why mounting can fail.
#[derive(Clone, Copy, Debug)]
pub enum OpenError {
    /// The region does not start with the magic tag; these are its first
    /// eight bytes.
    InvalidMagic([u8; 8]),
    /// The identifier is nil.
    NilUuid,
    /// The region is shorter than the size the superblock records.
    InsufficientBackingSize,
    /// The superblock is cut short, or the id map reaches past the region or
    /// runs in a cycle.
    Corrupt,
}

/// One entry of a directory: a name reference and the child's id.
#[derive(Clone, Copy, PartialEq, Eq, Structural, Debug)]
pub struct DirEntry {
    pub name: u64,
    pub child: EntityId,
}

/// Why a request on a mounted filesystem can fail.
#[derive(Clone, Copy, PartialEq, Eq, Structural, Debug)]
pub enum FsError {
    /// No entity has this id.
    NotFound,
    /// The entity is not a directory.
    NotDirectory,
    /// An entry names an entity that the id map does not hold, or an entity
    /// marked inline still has a chunk list.
    ReferentialCorruption(EntityId),
    /// A list reaches past the region or runs in a cycle.
    Corrupt,
    /// The entity's content is not held as extents: it is a directory, or
    /// its content is inline.
    NotApplicable,
}

/// One extent of a file's content: `len` bytes at `at`.
#[derive(Clone, Copy, PartialEq, Eq, Structural, Debug)]
pub struct Extent {
    pub len: u64,
    pub at: u64,
}

/// The extents that the chunks `s` of a file give.
pub open spec fn extents_of(s: Seq<ContentChunk>) -> Seq<Extent> {
    Seq::new(s.len(), |i: int| Extent { len: s[i].len_or_name, at: s[i].offset.loc })
}

/// The entry that chunk `c` of a directory gives, checked against `idx`.
pub open spec fn dir_entry(c: ContentChunk, idx: Map<u64, u64>) -> Result<DirEntry, FsError> {
    if idx.contains_key(c.offset.loc) {
        Ok(DirEntry { name: c.len_or_name, child: EntityId(c.offset.loc) })
    } else {
        Err(FsError::ReferentialCorruption(EntityId(c.offset.loc)))
    }
}

/// The entries that the chunks `s` of a directory give.
pub open spec fn dir_entries(s: Seq<ContentChunk>, idx: Map<u64, u64>) -> Seq<
    Result<DirEntry, FsError>,
> {
    Seq::new(s.len(), |i: int| dir_entry(s[i], idx))
}

/// The first row of `rows` for string `id`.
pub open spec fn find_str(rows: Seq<StrEntry>, id: u64) -> Option<StrEntry>
    decreases rows.len(),
{
    if rows.len() == 0 {
        None
    } else if rows[0].id.0 == id {
        Some(rows[0])
    } else {
        find_str(rows.drop_first(), id)
    }
}

impl DerpFS {
    /// The bytes of string `id` as a scan of the string map finds them.
    pub open spec fn resolved(&self, id: u64) -> Result<Seq<u8>, FsError> {
        let r = self.region_view();
        let at = self.sb_view().strmap as int;
        if at + 16 > r.len() || str_rows(r, at).1 {
            Err(FsError::Corrupt)
        } else {
            match find_str(str_rows(r, at).0, id) {
                None => Err(FsError::NotFound),
                Some(e) => if e.loc.loc + e.len <= r.len() {
                    Ok(r.subrange(e.loc.loc as int, e.loc.loc + e.len))
                } else {
                    Err(FsError::Corrupt)
                },
            }
        }
    }

    pub closed spec fn sb_view(&self) -> SuperblockView {
        self.sb@
    }

    pub closed spec fn region_view(&self) -> Seq<u8> {
        self.map@
    }

    pub closed spec fn index_view(&self) -> Map<u64, u64> {
        self.ids@
    }

    /// The entity with this id and its offset, where the index holds the id
    /// and the entity lies inside the region.
    pub open spec fn entity_at(&self, id: u64) -> Option<(Entity, int)> {
        if self.index_view().contains_key(id) && self.index_view()[id] + 72
            <= self.region_view().len() {
            let at = self.index_view()[id] as int;
            Some((Entity::parse(self.region_view().subrange(at, at + 72)), at))
        } else {
            None
        }
    }

    /// The superblock is the one stored at offset zero, and the index is the
    /// one the id map gives.
    pub closed spec fn wf(&self) -> bool {
        &&& self.map@.len() >= 72
        &&& self.sb@ == Superblock::parse(self.map@.subrange(0, 72))
        &&& self.sb.idmap.loc + 16 <= self.map@.len()
        &&& !id_rows(self.map@, self.sb.idmap.loc as int).1
        &&& self.ids@ == index_of(id_rows(self.map@, self.sb.idmap.loc as int).0)
    }

    /// Lays out a `size`-byte filesystem with identifier `uuid` at the start
    /// of `map`: superblock, occupancy map, the id map (holding the root
    /// directory), the string map (empty) and the root directory, marked
    /// dirty.
    pub fn format_with(map: Vec<u8>, size: u64, uuid: [u8; 16]) -> (r: Result<DerpFS, FormatError>)
        ensures
            size > map@.len() ==> r == Err::<DerpFS, FormatError>(FormatError::InsufficientBackingSize),
            size <= map@.len() && used_blocks(size as nat) > spec_block_size(size as nat) ==> r == Err::<DerpFS, FormatError>(FormatError::AllocatorExhausted),
            size <= map@.len() && used_blocks(size as nat) <= spec_block_size(size as nat) && root_at(
                size as nat,
            ) + 72 > size ==> r == Err::<DerpFS, FormatError>(FormatError::InsufficientBackingSize),
            size <= map@.len() && root_at(size as nat) + 72 <= size ==> (r matches Ok(fs) && {
                &&& fs.wf()
                &&& fs.region_view().len() == map@.len()
                &&& formatted(fs.region_view(), size as nat, uuid@)
                &&& fs.sb_view() == formatted_sb(size as nat, uuid@)
                &&& fs.index_view() == map![1u64 => root_at(size as nat) as u64]
            }),
    {
        let n = map.len();
        if size > n as u64 {
            return Err(FormatError::InsufficientBackingSize);
        }
        let blocks = block_size(size);
        assert(blocks * 2 + (blocks * 2) % 64 <= usize::MAX);
        let mut fm = match FreeMap::new(blocks) {
            Some(fm) => fm,
            None => {
                return Err(FormatError::AllocatorExhausted);
            },
        };
        let bm_bytes = fm.byte_len();
        let bm_blocks = block_size(bm_bytes);
        let idmap = (1 + bm_blocks) * BLOCK;
        let strmap = idmap + RESERVED_BLOCKS * BLOCK;
        let root = strmap + RESERVED_BLOCKS * BLOCK;
        let used = root / BLOCK + 1;
        if used > blocks {
            return Err(FormatError::AllocatorExhausted);
        }
        let mut i: u64 = 0;
        while i < used
            invariant
                i <= used <= blocks,
                fm.wf(),
                fm@ == Seq::new(blocks as nat, |j: int| if j < i { 1u64 } else { 0u64 }),
            decreases used - i,
        {
            if !fm.set(i, 1) {
                return Err(FormatError::AllocatorExhausted);
            }
            i += 1;
            assert(fm@ =~= Seq::new(blocks as nat, |j: int| if j < i { 1u64 } else { 0u64 }));
        }
        if root + 72 > size {
            return Err(FormatError::InsufficientBackingSize);
        }
        let sb = Superblock {
            magic: magic(),
            uuid,
            size,
            flags: DIRTY,
            freemap: Offset::new(BLOCK),
            idmap: Offset::new(idmap),
            strmap: Offset::new(strmap),
            root: Offset::new(root),
        };
        let ghost cells = fm@;
        let bytes = fm.into_bytes();
        let ids_hdr: IList<IdEntry> = IList { next: Offset::new(0), len: 1 };
        let row = IdEntry { id: EntityId::new(1), offset: Offset::new(root) };
        let strs_hdr: IList<StrEntry> = IList::empty();
        let ent = Entity {
            id: EntityId::new(1),
            parent: EntityId::new(1),
            size: 0,
            owner: 0,
            group: 0,
            perm: ROOT_PERM,
            flags: DIRECTORY,
            attrs: Offset::new(0),
            chunks: IList::empty(),
        };
        let mut map = map;
        let ghost r0 = map@;
        Offset::<Superblock>::new(0).put(&mut map, &sb);
        let ghost r1 = map@;
        copy_in(&mut map, BLOCK as usize, bytes.as_slice());
        let ghost r2 = map@;
        Offset::<IList<IdEntry>>::new(idmap).put(&mut map, &ids_hdr);
        let ghost r3 = map@;
        Offset::<IdEntry>::new(idmap + 16).put(&mut map, &row);
        let ghost r4 = map@;
        Offset::<IList<StrEntry>>::new(strmap).put(&mut map, &strs_hdr);
        let ghost r5 = map@;
        Offset::<Entity>::new(root).put(&mut map, &ent);
        let ghost r6 = map@;
        let mut ids: HashMap<u64, u64> = HashMap::new();
        ids.insert(1, root);
        let fs = DerpFS { sb, map, ids };
        proof {
            let sbi = sb.image();
            let hi = ids_hdr.image();
            let ri = row.image();
            let si = strs_hdr.image();
            let ei = ent.image();
            sb.lemma_image();
            ids_hdr.lemma_image();
            row.lemma_image();
            strs_hdr.lemma_image();
            ent.lemma_image();
            let bl = bytes@.len() as int;
            // the superblock
            lemma_splice_inside(r0, 0, sbi);
            lemma_splice_outside(r1, 4096, bytes@, 0, 72);
            lemma_splice_outside(r2, idmap as int, hi, 0, 72);
            lemma_splice_outside(r3, idmap + 16, ri, 0, 72);
            lemma_splice_outside(r4, strmap as int, si, 0, 72);
            lemma_splice_outside(r5, root as int, ei, 0, 72);
            // the occupancy map
            lemma_splice_inside(r1, 4096, bytes@);
            lemma_splice_outside(r2, idmap as int, hi, 4096, 4096 + bl);
            lemma_splice_outside(r3, idmap + 16, ri, 4096, 4096 + bl);
            lemma_splice_outside(r4, strmap as int, si, 4096, 4096 + bl);
            lemma_splice_outside(r5, root as int, ei, 4096, 4096 + bl);
            assert forall|i: int| 0 <= i < blocks implies #[trigger] stored_cell(r6, 4096, i) == if i
                < used {
                1u64
            } else {
                0u64
            } by {
                assert(stored_cell(bytes@, 0, i) == cells[i]);
                lemma_u64_within(r6, 4096, bytes@, 8 * ((2 * i) / 64));
            }
            // the id map
            lemma_splice_inside(r2, idmap as int, hi);
            lemma_splice_outside(r3, idmap + 16, ri, idmap as int, idmap + 16);
            lemma_splice_outside(r4, strmap as int, si, idmap as int, idmap + 16);
            lemma_splice_outside(r5, root as int, ei, idmap as int, idmap + 16);
            lemma_splice_inside(r3, idmap + 16, ri);
            lemma_splice_outside(r4, strmap as int, si, idmap + 16, idmap + 32);
            lemma_splice_outside(r5, root as int, ei, idmap + 16, idmap + 32);
            assert(node_items::<IdEntry>(r6, idmap as int, 0, 1) =~= seq![row]);
            // the string map
            lemma_splice_inside(r4, strmap as int, si);
            lemma_splice_outside(r5, root as int, ei, strmap as int, strmap + 16);
            assert(node_items::<StrEntry>(r6, strmap as int, 0, 0) =~= Seq::<StrEntry>::empty());
            // the root entity
            lemma_splice_inside(r5, root as int, ei);
            // the index
            assert(seq![row].drop_last() =~= Seq::<IdEntry>::empty());
            assert(fs.ids@ =~= map![1u64 => root]);
            assert(index_of(Seq::<IdEntry>::empty()) == Map::<u64, u64>::empty());
            assert(index_of(seq![row]) =~= map![1u64 => root]);
            assert(sb@ == formatted_sb(size as nat, uuid@));
        }
        Ok(fs)
    }

    /// Lays out a `size`-byte filesystem at the start of `map`, with a fresh
    /// random identifier.
    pub fn format(map: Vec<u8>, size: u64) -> (r: Result<DerpFS, FormatError>)
        ensures
            size > map@.len() ==> r == Err::<DerpFS, FormatError>(FormatError::InsufficientBackingSize),
            size <= map@.len() && used_blocks(size as nat) > spec_block_size(size as nat) ==> r == Err::<
                DerpFS,
                FormatError,
            >(FormatError::AllocatorExhausted),
            size <= map@.len() && used_blocks(size as nat) <= spec_block_size(size as nat) && root_at(
                size as nat,
            ) + 72 > size ==> r == Err::<DerpFS, FormatError>(FormatError::InsufficientBackingSize),
            size <= map@.len() && root_at(size as nat) + 72 <= size ==> (r matches Ok(fs) && {
                &&& fs.wf()
                &&& fs.region_view().len() == map@.len()
                &&& fs.sb_view().uuid != nil_id()
                &&& formatted(fs.region_view(), size as nat, fs.sb_view().uuid)
                &&& fs.sb_view() == formatted_sb(size as nat, fs.sb_view().uuid)
                &&& fs.index_view() == map![1u64 => root_at(size as nat) as u64]
            }),
    {
        let uuid = fresh_id();
        DerpFS::format_with(map, size, uuid)
    }

    /// Mounts the filesystem that `map` holds: checks the superblock and
    /// rebuilds the index from the id map.
    pub fn open(map: Vec<u8>) -> (r: Result<DerpFS, OpenError>)
        ensures
            match r {
                Ok(fs) => {
                    &&& mountable(map@)
                    &&& fs.wf()
                    &&& fs.region_view() == map@
                    &&& fs.sb_view() == sb_in(map@)
                    &&& fs.index_view() == index_of(id_rows(map@, sb_in(map@).idmap as int).0)
                },
                Err(e) => !mountable(map@) && open_error(map@, e),
            },
    {
        let n = map.len();
        if n < 8 {
            return Err(OpenError::Corrupt);
        }
        let found: [u8; 8] = take_array(map.as_slice(), 0);
        proof {
            if map@.len() >= 72 {
                assert(map@.subrange(0, 72).subrange(0, 8) =~= map@.subrange(0, 8));
                assert(map@.subrange(0, 72).subrange(8, 24) =~= map@.subrange(8, 24));
            }
        }
        let tag = magic();
        if !same_bytes(vstd::array::array_as_slice(&found), vstd::array::array_as_slice(&tag)) {
            return Err(OpenError::InvalidMagic(found));
        }
        if n < 24 {
            return Err(OpenError::Corrupt);
        }
        let uuid: [u8; 16] = take_array(map.as_slice(), 8);
        if is_nil(&uuid) {
            return Err(OpenError::NilUuid);
        }
        if n < 72 {
            return Err(OpenError::Corrupt);
        }
        let sb = Superblock::load(slice_subrange(map.as_slice(), 0, 72));

        if sb.size > n as u64 {
            return Err(OpenError::InsufficientBackingSize);
        }
        let hdr = match Offset::<IList<IdEntry>>::new(sb.idmap.loc).get(map.as_slice()) {
            Some(h) => h,
            None => {
                return Err(OpenError::Corrupt);
            },
        };
        let mut walk = hdr.iter(sb.idmap.loc, map.as_slice());
        let rows = match walk.to_vec(map.as_slice()) {
            Ok(v) => v,
            Err(_) => {
                return Err(OpenError::Corrupt);
            },
        };
        let ghost all = id_rows(map@, sb.idmap.loc as int).0;
        assert(rows@ =~= all) by {
            assert(views(rows@) =~= rows@);
        }
        let mut ids: HashMap<u64, u64> = HashMap::new();
        let mut k: usize = 0;
        while k < rows.len()
            invariant
                k <= rows@.len(),
                rows@ == all,
                ids@ == index_of(all.take(k as int)),
            decreases rows@.len() - k,
        {
            ids.insert(rows[k].id.0, rows[k].offset.loc);
            k += 1;
            assert(all.take(k as int).drop_last() =~= all.take(k - 1));
        }
        assert(all.take(k as int) =~= all);
        Ok(DerpFS { sb, map, ids })
    }

    /// The superblock.
    pub fn superblock(&self) -> (r: &Superblock)
        ensures
            r@ == self.sb_view(),
    {
        &self.sb
    }

    /// The bytes of the region.
    pub fn region(&self) -> (r: &[u8])
        ensures
            r@ == self.region_view(),
    {
        self.map.as_slice()
    }

    /// The entity with id `id`, read from where the index locates it.
    pub fn lookup(&self, id: EntityId) -> (r: Option<Entity>)
        ensures
            r is Some <==> self.entity_at(id.0) is Some,
            r is Some ==> r.unwrap() == self.entity_at(id.0).unwrap().0,
    {
        match self.ids.get(&id.0) {
            Some(at) => Offset::<Entity>::new(*at).get(self.map.as_slice()),
            None => None,
        }
    }

    /// The entries of directory `id`: one per chunk, each an error where it
    /// names an entity that the index does not hold.
    pub fn children(&self, id: EntityId) -> (r: Result<Vec<Result<DirEntry, FsError>>, FsError>)
        ensures
            match self.entity_at(id.0) {
                None => r == Err::<Vec<Result<DirEntry, FsError>>, FsError>(FsError::NotFound),
                Some((e, at)) => if e.flags & DIRECTORY == 0 {
                    r == Err::<Vec<Result<DirEntry, FsError>>, FsError>(FsError::NotDirectory)
                } else if e.is_inline() {
                    if e.chunks.len == 0 && e.chunks.next.loc == 0 {
                        (r matches Ok(v) && v@.len() == 0)
                    } else {
                        r == Err::<Vec<Result<DirEntry, FsError>>, FsError>(
                            FsError::ReferentialCorruption(id),
                        )
                    }
                } else {
                    let (s, c) = e.chunks.items(self.region_view(), at + 56);
                    if c {
                        r == Err::<Vec<Result<DirEntry, FsError>>, FsError>(FsError::Corrupt)
                    } else {
                        (r matches Ok(v) && v@ == dir_entries(s, self.index_view()))
                    }
                },
            },
    {
        let at = match self.ids.get(&id.0) {
            Some(at) => *at,
            None => {
                return Err(FsError::NotFound);
            },
        };
        let e = match Offset::<Entity>::new(at).get(self.map.as_slice()) {
            Some(e) => e,
            None => {
                return Err(FsError::NotFound);
            },
        };
        if e.flags & DIRECTORY == 0 {
            return Err(FsError::NotDirectory);
        }
        let n = self.map.len();
        assert(at + 72 <= n);
        let mut walk = match e.chunks(at, self.map.as_slice()) {
            Ok(Some(w)) => w,
            Ok(None) => {
                return Ok(Vec::new());
            },
            Err(_) => {
                return Err(FsError::ReferentialCorruption(id));
            },
        };
        let chunks = match walk.to_vec(self.map.as_slice()) {
            Ok(v) => v,
            Err(_) => {
                return Err(FsError::Corrupt);
            },
        };
        let ghost s = e.chunks.items(self.map@, at + 56).0;
        assert(chunks@ =~= s) by {
            assert(views(chunks@) =~= chunks@);
        }
        let mut out: Vec<Result<DirEntry, FsError>> = Vec::new();
        let mut k: usize = 0;
        while k < chunks.len()
            invariant
                k <= chunks@.len(),
                chunks@ == s,
                out@ == dir_entries(s.take(k as int), self.ids@),
            decreases chunks@.len() - k,
        {
            let c = chunks[k];
            if self.ids.contains_key(&c.offset.loc) {
                out.push(Ok(DirEntry { name: c.len_or_name, child: EntityId(c.offset.loc) }));
            } else {
                out.push(Err(FsError::ReferentialCorruption(EntityId(c.offset.loc))));
            }
            k += 1;
            assert(out@ =~= dir_entries(s.take(k as int), self.ids@));
        }
        assert(s.take(k as int) =~= s);
        Ok(out)
    }

    /// The bytes of string `id`, found by a scan of the string map.
    pub fn resolve(&self, id: StrId) -> (r: Result<Vec<u8>, FsError>)
        ensures
            match r {
                Ok(b) => self.resolved(id.0) == Ok::<Seq<u8>, FsError>(b@),
                Err(e) => self.resolved(id.0) == Err::<Seq<u8>, FsError>(e),
            },
    {
        let at = self.sb.strmap.loc;
        let region = self.map.as_slice();
        let hdr = match Offset::<IList<StrEntry>>::new(at).get(region) {
            Some(h) => h,
            None => {
                return Err(FsError::Corrupt);
            },
        };
        let mut walk = hdr.iter(at, region);
        let rows = match walk.to_vec(region) {
            Ok(v) => v,
            Err(_) => {
                return Err(FsError::Corrupt);
            },
        };
        let ghost all = str_rows(self.map@, at as int).0;
        assert(rows@ =~= all) by {
            assert(views(rows@) =~= rows@);
        }
        assert(all.skip(0) =~= all);
        let mut k: usize = 0;
        while k < rows.len()
            invariant
                k <= rows@.len(),
                rows@ == all,
                all == str_rows(self.map@, at as int).0,
                find_str(all, id.0) == find_str(all.skip(k as int), id.0),
                region@ == self.map@,
                at == self.sb.strmap.loc,
                at + 16 <= self.map@.len(),
                !str_rows(self.map@, at as int).1,
            decreases rows@.len() - k,
        {
            let e = rows[k];
            assert(all.skip(k as int)[0] == e);
            if e.id.0 == id.0 {
                let n = region.len();
                if e.loc.loc > n as u64 || e.len > n as u64 - e.loc.loc {
                    return Err(FsError::Corrupt);
                }
                let lo = e.loc.loc as usize;
                let hi = (e.loc.loc + e.len) as usize;
                return Ok(vstd::slice::slice_to_vec(slice_subrange(region, lo, hi)));
            }
            assert(all.skip(k as int).drop_first() =~= all.skip(k + 1));
            k += 1;
        }
        Err(FsError::NotFound)
    }

    /// The bytes of the name that reference `v` designates: the short name it
    /// holds, or the string of the string table it names.
    pub fn resolve_name(&self, v: u64) -> (r: Result<Vec<u8>, FsError>)
        ensures
            v >> 63 == 1 ==> (r matches Ok(b) && b@ == short_name(v)),
            v >> 63 == 0 ==> match r {
                Ok(b) => self.resolved(v) == Ok::<Seq<u8>, FsError>(b@),
                Err(e) => self.resolved(v) == Err::<Seq<u8>, FsError>(e),
            },
    {
        match decode_name(v) {
            VStr::Inline(b) => Ok(b),
            VStr::Interned(id) => self.resolve(id),
        }
    }

    /// The extents of file `id`, in order.
    pub fn extents(&self, id: EntityId) -> (r: Result<Vec<Extent>, FsError>)
        ensures
            match self.entity_at(id.0) {
                None => r == Err::<Vec<Extent>, FsError>(FsError::NotFound),
                Some((e, at)) => if e.flags & DIRECTORY != 0 {
                    r == Err::<Vec<Extent>, FsError>(FsError::NotApplicable)
                } else if e.is_inline() {
                    if e.chunks.len == 0 && e.chunks.next.loc == 0 {
                        r == Err::<Vec<Extent>, FsError>(FsError::NotApplicable)
                    } else {
                        r == Err::<Vec<Extent>, FsError>(FsError::ReferentialCorruption(id))
                    }
                } else {
                    let (s, c) = e.chunks.items(self.region_view(), at + 56);
                    if c {
                        r == Err::<Vec<Extent>, FsError>(FsError::Corrupt)
                    } else {
                        (r matches Ok(v) && v@ == extents_of(s))
                    }
                },
            },
    {
        let at = match self.ids.get(&id.0) {
            Some(at) => *at,
            None => {
                return Err(FsError::NotFound);
            },
        };
        let e = match Offset::<Entity>::new(at).get(self.map.as_slice()) {
            Some(e) => e,
            None => {
                return Err(FsError::NotFound);
            },
        };
        if e.flags & DIRECTORY != 0 {
            return Err(FsError::NotApplicable);
        }
        let n = self.map.len();
        assert(at + 72 <= n);
        let mut walk = match e.chunks(at, self.map.as_slice()) {
            Ok(Some(w)) => w,
            Ok(None) => {
                return Err(FsError::NotApplicable);
            },
            Err(_) => {
                return Err(FsError::ReferentialCorruption(id));
            },
        };
        let chunks = match walk.to_vec(self.map.as_slice()) {
            Ok(v) => v,
            Err(_) => {
                return Err(FsError::Corrupt);
            },
        };
        let ghost s = e.chunks.items(self.map@, at + 56).0;
        assert(chunks@ =~= s) by {
            assert(views(chunks@) =~= chunks@);
        }
        let mut out: Vec<Extent> = Vec::new();
        let mut k: usize = 0;
        while k < chunks.len()
            invariant
                k <= chunks@.len(),
                chunks@ == s,
                out@ == extents_of(s.take(k as int)),
            decreases chunks@.len() - k,
        {
            let c = chunks[k];
            out.push(Extent { len: c.len_or_name, at: c.offset.loc });
            k += 1;
            assert(out@ =~= extents_of(s.take(k as int)));
        }
        assert(s.take(k as int) =~= s);
        Ok(out)
    }

    /// Unmounts cleanly: clears the dirty bit, stores the superblock, and
    /// hands back the region.
    pub fn destroy(self) -> (r: Vec<u8>)
        requires
            self.wf(),
        ensures
            r@.len() == self.region_view().len(),
            sb_in(r@) == (SuperblockView { flags: self.sb_view().flags & !DIRTY, ..self.sb_view() }),
            sb_in(r@).flags & DIRTY == 0,
            r@.subrange(72, r@.len() as int) == self.region_view().subrange(
                72,
                self.region_view().len() as int,
            ),
    {
        let sb = Superblock {
            magic: self.sb.magic,
            uuid: self.sb.uuid,
            size: self.sb.size,
            flags: self.sb.flags & !DIRTY,
            freemap: self.sb.freemap,
            idmap: self.sb.idmap,
            strmap: self.sb.strmap,
            root: self.sb.root,
        };
        let mut map = self.map;
        let ghost r0 = map@;
        Offset::<Superblock>::new(0).put(&mut map, &sb);
        proof {
            sb.lemma_image();
            lemma_splice_inside(r0, 0, sb.image());
            lemma_splice_outside(r0, 0, sb.image(), 72, r0.len() as int);
            let f = self.sb.flags;
            assert((f & !1u64) & 1u64 == 0) by (bit_vector);
        }
        map
    }
}

/// Formatting then mounting: a region that formatting laid out mounts, and
/// the superblock it yields is the one formatting wrote, field for field,
/// with the dirty bit set.
pub proof fn lemma_format_then_mount(r: Seq<u8>, size: nat, uuid: Seq<u8>)
    requires
        formatted(r, size, uuid),
        uuid.len() == 16,
        uuid != nil_id(),
    ensures
        mountable(r),
        sb_in(r) == formatted_sb(size, uuid),
        sb_in(r).flags & DIRTY == DIRTY,
{
    assert(1u64 & 1u64 == 1u64) by (bit_vector);
}

/// The root directory that formatting writes has exactly one content mode:
/// it is not inline, and its chunk list is empty.
pub proof fn lemma_root_content_mode(r: Seq<u8>, size: nat, uuid: Seq<u8>)
    requires
        formatted(r, size, uuid),
    ensures
        Entity::parse(r.subrange(root_at(size) as int, root_at(size) + 72int)).content_mode_ok(),
        !Entity::parse(r.subrange(root_at(size) as int, root_at(size) + 72int)).is_inline(),
{
    assert(DIRECTORY & 2u32 == 0) by (bit_vector);
}

} // verus!
