use derpfs::block_size;
use derpfs::disk::{
    magic, ContentChunk, Entity, EntityId, IList, IdEntry, Offset, Persist, StrEntry, StrId,
    Superblock,
};
use derpfs::freemap::FreeMap;
use derpfs::fs::FsError;
use derpfs::ilist::ListError;

fn put_u64(r: &mut Vec<u8>, at: usize, v: u64) {
    r[at..at + 8].copy_from_slice(&v.to_le_bytes());
}

fn chunk(n: u64) -> ContentChunk {
    ContentChunk { len_or_name: n, offset: Offset::new(n * 10) }
}

fn put_chunk(r: &mut Vec<u8>, at: usize, n: u64) {
    put_u64(r, at, n);
    put_u64(r, at + 8, n * 10);
}

#[test]
fn size_of() {
    assert_eq!(Superblock::size(), 72);
    assert_eq!(Entity::size(), 72);
    assert_eq!(StrEntry::size(), 24);
    assert_eq!(IdEntry::size(), 16);
    assert_eq!(IList::<u64>::size(), 16);
    assert_eq!(IList::<ContentChunk>::size(), 16);
    assert_eq!(ContentChunk::size(), 16);
    assert_eq!(Superblock::empty().save().len(), 72);
}

#[test]
fn block_size_rounds_up() {
    assert_eq!(block_size(0), 1);
    assert_eq!(block_size(1), 1);
    assert_eq!(block_size(4095), 1);
    assert_eq!(block_size(4096), 1);
    assert_eq!(block_size(4097), 2);
    assert_eq!(block_size(8192), 2);
    assert_eq!(block_size(8193), 3);
    assert_eq!(block_size(64 << 20), 16384);
    assert_eq!(block_size(u64::MAX), 4503599627370496);
}

#[test]
fn magic_is_derpfs() {
    assert_eq!(&magic(), b"derpfs!!");
    let sb = Superblock::empty();
    assert_eq!(&sb.magic, b"derpfs!!");
    assert_eq!(sb.uuid, [0u8; 16]);
    assert_eq!(sb.size, 0);
    assert_eq!(sb.root.loc, 0);
}

#[test]
fn entity_image_is_little_endian() {
    let e = Entity {
        id: EntityId::new(0x0102030405060708),
        parent: EntityId::new(9),
        size: 10,
        owner: 11,
        group: 12,
        perm: 0o755,
        flags: 3,
        attrs: Offset::new(13),
        chunks: IList { next: Offset::new(14), len: 15 },
    };
    let b = e.save();
    assert_eq!(b.len(), 72);
    assert_eq!(&b[0..8], &[8, 7, 6, 5, 4, 3, 2, 1]);
    assert_eq!(&b[40..44], &[0xed, 0x01, 0, 0]);
    assert_eq!(&b[44..48], &[3, 0, 0, 0]);
    assert_eq!(b[64], 15);
    let back = Entity::load(&b);
    assert_eq!(back.id, e.id);
    assert_eq!(back.parent.val(), 9);
    assert_eq!(back.perm, 0o755);
    assert_eq!(back.flags, 3);
    assert_eq!(back.attrs.loc, 13);
    assert_eq!(back.chunks.next.loc, 14);
    assert_eq!(back.chunks.len, 15);
}

#[test]
fn rows_round_trip() {
    let s = StrEntry { id: StrId::new(5), len: 6, loc: Offset::new(7) };
    let b = s.save();
    assert_eq!(b.len(), 24);
    let t = StrEntry::load(&b);
    assert_eq!(t.id.val(), 5);
    assert_eq!(t.len, 6);
    assert_eq!(t.loc.loc, 7);
    let i = IdEntry { id: EntityId::new(3), offset: Offset::new(4096) };
    let j = IdEntry::load(&i.save());
    assert_eq!(j.id, EntityId::new(3));
    assert_eq!(j.offset.loc, 4096);
}

#[test]
fn offset_get_and_put() {
    let mut r = vec![0u8; 100];
    let o: Offset<IdEntry> = Offset::new(20);
    let row = IdEntry { id: EntityId::new(42), offset: Offset::new(99) };
    assert!(o.put(&mut r, &row));
    assert_eq!(r[20], 42);
    let back = o.get(&r).unwrap();
    assert_eq!(back.id.val(), 42);
    assert_eq!(back.offset.loc, 99);
    let past: Offset<IdEntry> = Offset::new(90);
    assert!(!past.put(&mut r, &row));
    assert!(past.get(&r).is_none());
    assert!(Offset::<IdEntry>::new(84).get(&r).is_some());
    assert!(Offset::<u8>::new(3) == Offset::<u8>::new(3));
    assert!(Offset::<u8>::new(3) != Offset::<u8>::new(4));
}

#[test]
fn empty_list_yields_nothing() {
    let r = vec![0u8; 64];
    let l: IList<ContentChunk> = IList::empty();
    assert_eq!(l.len, 0);
    assert_eq!(l.next.loc, 0);
    let mut w = l.iter(0, &r);
    assert!(w.next(&r).is_none());
    assert!(w.next(&r).is_none());
    let mut w = l.iter(0, &r);
    assert_eq!(w.to_vec(&r).unwrap().len(), 0);
}

#[test]
fn two_node_chain_yields_five_in_order() {
    let mut r = vec![0u8; 256];
    // node A at 0: three items, continued at 100
    put_u64(&mut r, 0, 100);
    put_u64(&mut r, 8, 3);
    put_chunk(&mut r, 16, 1);
    put_chunk(&mut r, 32, 2);
    put_chunk(&mut r, 48, 3);
    // node B at 100: two items, last
    put_u64(&mut r, 100, 0);
    put_u64(&mut r, 108, 2);
    put_chunk(&mut r, 116, 4);
    put_chunk(&mut r, 132, 5);
    let l: IList<ContentChunk> = Offset::<IList<ContentChunk>>::new(0).get(&r).unwrap();
    let mut w = l.iter(0, &r);
    let items = w.to_vec(&r).unwrap();
    let names: Vec<u64> = items.iter().map(|c| c.len_or_name).collect();
    assert_eq!(names, vec![1, 2, 3, 4, 5]);
    assert_eq!(items[4].offset.loc, chunk(5).offset.loc);

    let mut w = l.iter(0, &r);
    for n in 1..=5u64 {
        match w.next(&r) {
            Some(Ok(c)) => assert_eq!(c.len_or_name, n),
            _ => panic!("expected item {}", n),
        }
    }
    assert!(w.next(&r).is_none());
    assert!(w.next(&r).is_none());
}

#[test]
fn empty_node_in_the_middle_is_skipped() {
    let mut r = vec![0u8; 256];
    put_u64(&mut r, 0, 64);
    put_u64(&mut r, 8, 1);
    put_chunk(&mut r, 16, 1);
    put_u64(&mut r, 64, 128);
    put_u64(&mut r, 72, 0);
    put_u64(&mut r, 128, 0);
    put_u64(&mut r, 136, 1);
    put_chunk(&mut r, 144, 2);
    let l: IList<ContentChunk> = IList { next: Offset::new(64), len: 1 };
    let names: Vec<u64> =
        l.iter(0, &r).to_vec(&r).unwrap().iter().map(|c| c.len_or_name).collect();
    assert_eq!(names, vec![1, 2]);
}

#[test]
fn cyclic_chain_is_corrupt() {
    let mut r = vec![0u8; 128];
    put_u64(&mut r, 32, 32);
    put_u64(&mut r, 40, 1);
    put_chunk(&mut r, 48, 7);
    let l: IList<ContentChunk> = IList { next: Offset::new(32), len: 0 };
    let mut w = l.iter(0, &r);
    assert_eq!(w.to_vec(&r).err(), Some(ListError::Corrupt));
}

#[test]
fn node_past_the_region_is_reported_after_good_items() {
    let mut r = vec![0u8; 64];
    put_u64(&mut r, 0, 60);
    put_u64(&mut r, 8, 1);
    put_chunk(&mut r, 16, 9);
    let l: IList<ContentChunk> = IList { next: Offset::new(60), len: 1 };
    let mut w = l.iter(0, &r);
    match w.next(&r) {
        Some(Ok(c)) => assert_eq!(c.len_or_name, 9),
        _ => panic!("expected the first item"),
    }
    assert!(matches!(w.next(&r), Some(Err(ListError::Corrupt))));
    assert!(w.next(&r).is_none());
    let mut w = l.iter(0, &r);
    assert_eq!(w.to_vec(&r).err(), Some(ListError::Corrupt));
}

#[test]
fn list_get_reads_one_node() {
    let mut r = vec![0u8; 128];
    put_u64(&mut r, 0, 0);
    put_u64(&mut r, 8, 2);
    put_chunk(&mut r, 16, 1);
    put_chunk(&mut r, 32, 2);
    let l: IList<ContentChunk> = IList { next: Offset::new(0), len: 2 };
    assert_eq!(l.get(0, 1, &r).unwrap().len_or_name, 2);
    assert!(l.get(0, 2, &r).is_none());
    let big: IList<ContentChunk> = IList { next: Offset::new(0), len: 100 };
    assert!(big.get(0, 0, &r).is_none());
}

#[test]
fn inline_entity_has_no_chunk_walk() {
    let r = vec![0u8; 256];
    let mut e = Entity {
        id: EntityId::new(1),
        parent: EntityId::new(1),
        size: 0,
        owner: 0,
        group: 0,
        perm: 0,
        flags: 2,
        attrs: Offset::new(0),
        chunks: IList::empty(),
    };
    assert!(e.chunks(0, &r).unwrap().is_none());
    e.chunks.len = 1;
    assert_eq!(e.chunks(0, &r).err(), Some(FsError::ReferentialCorruption(EntityId::new(1))));
    e.chunks.len = 0;
    e.chunks.next = Offset::new(64);
    assert!(e.chunks(0, &r).is_err());
    e.chunks.next = Offset::new(0);
    e.flags = 1;
    let mut w = e.chunks(0, &r).unwrap().unwrap();
    assert_eq!(w.to_vec(&r).unwrap().len(), 0);
}

#[test]
fn freemap_cells() {
    let mut m = FreeMap::new(40).unwrap();
    assert_eq!(m.blocks(), 40);
    assert_eq!(m.byte_len(), 16);
    assert_eq!(m.get(3), Some(0));
    assert!(m.set(3, 1));
    assert!(m.set(33, 2));
    assert!(!m.set(40, 1));
    assert!(!m.set(0, 4));
    assert_eq!(m.get(3), Some(1));
    assert_eq!(m.get(33), Some(2));
    assert_eq!(m.get(40), None);
    let b = m.into_bytes();
    assert_eq!(b.len(), 16);
    assert_eq!(b[0], 0b0100_0000);
    assert_eq!(b[8], 0b0000_1000);
}
