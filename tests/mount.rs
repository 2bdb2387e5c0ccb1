use derpfs::disk::{EntityId, Offset, DIRECTORY, INLINE};
use derpfs::fs::{DerpFS, DirEntry, Extent, FormatError, FsError, OpenError, DIRTY, ROOT_PERM};
use derpfs::ident::fresh_id;
use derpfs::target::{check_target, sectors_to_bytes, Target, TargetError};

const MIB: u64 = 1 << 20;

fn put_u64(r: &mut Vec<u8>, at: usize, v: u64) {
    r[at..at + 8].copy_from_slice(&v.to_le_bytes());
}

fn get_u64(r: &[u8], at: usize) -> u64 {
    u64::from_le_bytes(r[at..at + 8].try_into().unwrap())
}

fn formatted(size: u64) -> DerpFS {
    match DerpFS::format(vec![0u8; size as usize], size) {
        Ok(fs) => fs,
        Err(e) => panic!("format failed: {:?}", e),
    }
}

fn remount(r: Vec<u8>) -> DerpFS {
    match DerpFS::open(r) {
        Ok(fs) => fs,
        Err(e) => panic!("mount failed: {:?}", e),
    }
}

#[test]
fn end_to_end_sixty_four_mib() {
    let fs = formatted(64 * MIB);
    let fs = remount(fs.region().to_vec());
    let root = fs.lookup(EntityId::new(1)).unwrap();
    assert_eq!(root.id, EntityId::new(1));
    assert_eq!(root.parent, EntityId::new(1));
    assert_eq!(root.perm, 0o755);
    assert_eq!(root.perm, ROOT_PERM);
    assert!(root.flags & DIRECTORY != 0);
    assert_eq!(root.chunks.len, 0);
    assert_eq!(fs.children(EntityId::new(1)).unwrap().len(), 0);
}

#[test]
fn format_then_mount_keeps_the_superblock() {
    let fs = formatted(64 * MIB);
    let sb = fs.superblock();
    assert_eq!(&sb.magic, b"derpfs!!");
    assert_ne!(sb.uuid, [0u8; 16]);
    assert_eq!(sb.uuid[6] >> 4, 4);
    assert_eq!(sb.size, 64 * MIB);
    assert_eq!(sb.flags & DIRTY, DIRTY);
    assert_eq!(sb.freemap.loc, 4096);
    assert_eq!(sb.idmap.loc, 2 * 4096);
    assert_eq!(sb.strmap.loc, 2562 * 4096);
    assert_eq!(sb.root.loc, 5122 * 4096);
    let (uuid, flags, root) = (sb.uuid, sb.flags, sb.root.loc);
    let again = remount(fs.region().to_vec());
    let sb2 = again.superblock();
    assert_eq!(sb2.magic, *b"derpfs!!");
    assert_eq!(sb2.uuid, uuid);
    assert_eq!(sb2.size, 64 * MIB);
    assert_eq!(sb2.flags, flags);
    assert_eq!(sb2.idmap.loc, 2 * 4096);
    assert_eq!(sb2.strmap.loc, 2562 * 4096);
    assert_eq!(sb2.root.loc, root);
}

#[test]
fn destroy_clears_the_dirty_bit() {
    let fs = formatted(24 * MIB);
    let r = fs.destroy();
    assert_eq!(get_u64(&r, 32) & DIRTY, 0);
    let fs = remount(r);
    assert_eq!(fs.superblock().flags & DIRTY, 0);
    assert!(fs.lookup(EntityId::new(1)).is_some());
}

#[test]
fn format_marks_the_layout_used() {
    let fs = formatted(64 * MIB);
    let r = fs.region();
    // blocks 0..=5122 are in use (state 1), the rest free
    assert_eq!(get_u64(r, 4096), 0x5555_5555_5555_5555);
    let last = 5122usize;
    let word = get_u64(r, 4096 + 8 * (2 * last / 64));
    assert_eq!((word >> (2 * last % 64)) & 3, 1);
    assert_eq!((word >> (2 * (last + 1) % 64)) & 3, 0);
    assert_eq!(get_u64(r, 4096 + 8 * 170), 0);
    // the id map holds the root row, the string map nothing
    assert_eq!(get_u64(r, 2 * 4096), 0);
    assert_eq!(get_u64(r, 2 * 4096 + 8), 1);
    assert_eq!(get_u64(r, 2 * 4096 + 16), 1);
    assert_eq!(get_u64(r, 2 * 4096 + 24), 5122 * 4096);
    assert_eq!(get_u64(r, 2562 * 4096 + 8), 0);
}

#[test]
fn format_refuses_a_size_past_the_region() {
    let r = DerpFS::format(vec![0u8; 4096], 8192);
    assert_eq!(r.err(), Some(FormatError::InsufficientBackingSize));
}

#[test]
fn format_refuses_a_size_too_small_for_the_layout() {
    let r = DerpFS::format(vec![0u8; 40960], 40960);
    assert_eq!(r.err(), Some(FormatError::AllocatorExhausted));
    let just_past_root = 5122 * 4096 + 1;
    let r = DerpFS::format(vec![0u8; just_past_root as usize], just_past_root);
    assert_eq!(r.err(), Some(FormatError::InsufficientBackingSize));
}

#[test]
fn format_with_keeps_the_given_identifier() {
    let id = [7u8; 16];
    let fs = DerpFS::format_with(vec![0u8; 24 * MIB as usize], 24 * MIB, id).unwrap();
    assert_eq!(fs.superblock().uuid, id);
    assert_eq!(&fs.region()[8..24], &id);
}

#[test]
fn fresh_identifiers_differ() {
    let a = fresh_id();
    let b = fresh_id();
    assert_ne!(a, b);
    assert_ne!(a, [0u8; 16]);
    assert_eq!(a[6] & 0xf0, 0x40);
    assert_eq!(a[8] & 0xc0, 0x80);
}

#[test]
fn mount_refuses_a_bad_magic_whatever_follows() {
    let mut short = b"notderp!".to_vec();
    short.extend_from_slice(&[1u8; 20]);
    match DerpFS::open(short) {
        Err(OpenError::InvalidMagic(m)) => assert_eq!(&m, b"notderp!"),
        other => panic!("expected InvalidMagic, got {:?}", other.err()),
    }
    match DerpFS::open(b"notderp!".to_vec()) {
        Err(OpenError::InvalidMagic(m)) => assert_eq!(&m, b"notderp!"),
        other => panic!("expected InvalidMagic, got {:?}", other.err()),
    }
}

#[test]
fn mount_refuses_a_bad_magic() {
    let mut r = formatted(24 * MIB).region().to_vec();
    r[0..8].copy_from_slice(b"notderp!");
    match DerpFS::open(r) {
        Err(OpenError::InvalidMagic(m)) => assert_eq!(&m, b"notderp!"),
        other => panic!("expected InvalidMagic, got {:?}", other.err()),
    }
}

#[test]
fn mount_refuses_a_nil_identifier() {
    let fs = DerpFS::format_with(vec![0u8; 24 * MIB as usize], 24 * MIB, [0u8; 16]).unwrap();
    assert!(matches!(DerpFS::open(fs.region().to_vec()), Err(OpenError::NilUuid)));
}

#[test]
fn mount_refuses_short_regions() {
    assert!(matches!(DerpFS::open(vec![0u8; 5]), Err(OpenError::Corrupt)));
    match DerpFS::open(vec![0u8; 10]) {
        Err(OpenError::InvalidMagic(m)) => assert_eq!(m, [0u8; 8]),
        other => panic!("expected InvalidMagic, got {:?}", other.err()),
    }
    let mut tagged = b"derpfs!!".to_vec();
    tagged.extend_from_slice(&[0u8; 16]);
    assert!(matches!(DerpFS::open(tagged.clone()), Err(OpenError::NilUuid)));
    tagged[8] = 1;
    assert!(matches!(DerpFS::open(tagged.clone()), Err(OpenError::Corrupt)));
    tagged.truncate(12);
    assert!(matches!(DerpFS::open(tagged), Err(OpenError::Corrupt)));
    let mut r = formatted(24 * MIB).region().to_vec();
    put_u64(&mut r, 24, 25 * MIB);
    assert!(matches!(DerpFS::open(r), Err(OpenError::InsufficientBackingSize)));
}

#[test]
fn mount_refuses_a_corrupt_id_map() {
    let mut r = formatted(24 * MIB).region().to_vec();
    put_u64(&mut r, 2 * 4096 + 8, u64::MAX / 4);
    assert!(matches!(DerpFS::open(r), Err(OpenError::Corrupt)));
}

#[test]
fn lookup_of_an_unknown_id_is_none() {
    let fs = formatted(24 * MIB);
    assert!(fs.lookup(EntityId::new(2)).is_none());
    assert_eq!(fs.children(EntityId::new(2)).err(), Some(FsError::NotFound));
}

#[test]
fn children_of_a_file_is_not_applicable() {
    let fs = formatted(24 * MIB);
    let root = fs.superblock().root.loc as usize;
    let mut r = fs.region().to_vec();
    r[root + 44..root + 48].copy_from_slice(&0u32.to_le_bytes());
    let fs = remount(r);
    assert_eq!(fs.children(EntityId::new(1)).err(), Some(FsError::NotDirectory));
}

#[test]
fn inline_flag_with_a_chunk_list_is_corruption() {
    let fs = formatted(24 * MIB);
    let root = fs.superblock().root.loc as usize;
    let mut r = fs.region().to_vec();
    r[root + 44..root + 48].copy_from_slice(&(DIRECTORY | INLINE).to_le_bytes());
    let clean = remount(r.clone());
    assert_eq!(clean.children(EntityId::new(1)).unwrap().len(), 0);
    put_u64(&mut r, root + 64, 1);
    let fs = remount(r);
    assert_eq!(
        fs.children(EntityId::new(1)).err(),
        Some(FsError::ReferentialCorruption(EntityId::new(1)))
    );
}

#[test]
fn dangling_child_is_reported_per_entry() {
    let fs = formatted(24 * MIB);
    let root = fs.superblock().root.loc as usize;
    let mut r = fs.region().to_vec();
    // two entries follow the root's chunk-list header
    put_u64(&mut r, root + 64, 3);
    put_u64(&mut r, root + 72, 7);
    put_u64(&mut r, root + 80, 1);
    put_u64(&mut r, root + 88, 8);
    put_u64(&mut r, root + 96, 99);
    put_u64(&mut r, root + 104, 9);
    put_u64(&mut r, root + 112, 98);
    let fs = remount(r);
    let got = fs.children(EntityId::new(1)).unwrap();
    assert_eq!(got.len(), 3);
    assert_eq!(got[0], Ok(DirEntry { name: 7, child: EntityId::new(1) }));
    assert_eq!(got[1], Err(FsError::ReferentialCorruption(EntityId::new(99))));
    assert_eq!(got[2], Err(FsError::ReferentialCorruption(EntityId::new(98))));
}

#[test]
fn entries_past_the_region_are_corrupt() {
    let fs = formatted(24 * MIB);
    let root = fs.superblock().root.loc as usize;
    let mut r = fs.region().to_vec();
    put_u64(&mut r, root + 64, u64::MAX / 32);
    let fs = remount(r);
    assert_eq!(fs.children(EntityId::new(1)).err(), Some(FsError::Corrupt));
}

#[test]
fn offsets_of_the_root_row() {
    let fs = formatted(24 * MIB);
    let o: Offset<u8> = Offset::new(fs.superblock().idmap.loc + 16);
    assert_eq!(o.loc, 2 * 4096 + 16);
}

#[test]
fn target_checks() {
    assert_eq!(check_target(Target::Missing, 100), Ok(false));
    assert_eq!(check_target(Target::File(200), 100), Ok(true));
    assert_eq!(check_target(Target::File(100), 100), Ok(true));
    assert_eq!(
        check_target(Target::File(100), 200),
        Err(TargetError::InsufficientBackingSize { have: 100, want: 200 })
    );
    assert_eq!(check_target(Target::BlockDevice(Some(4096)), 4096), Ok(true));
    assert_eq!(
        check_target(Target::BlockDevice(Some(4096)), 4097),
        Err(TargetError::InsufficientBackingSize { have: 4096, want: 4097 })
    );
    assert_eq!(check_target(Target::BlockDevice(None), 1), Err(TargetError::DeviceQueryFailed));
    assert_eq!(check_target(Target::Other, 1), Err(TargetError::UnsupportedTarget));
}

#[test]
fn sector_counts() {
    assert_eq!(sectors_to_bytes(0), Some(0));
    assert_eq!(sectors_to_bytes(8), Some(4096));
    assert_eq!(sectors_to_bytes(u64::MAX / 512), Some(u64::MAX / 512 * 512));
    assert_eq!(sectors_to_bytes(u64::MAX / 512 + 1), None);
}

#[test]
fn extents_of_a_file() {
    let fs = formatted(24 * MIB);
    let root = fs.superblock().root.loc as usize;
    let mut r = fs.region().to_vec();
    assert_eq!(fs.extents(EntityId::new(1)).err(), Some(FsError::NotApplicable));
    r[root + 44..root + 48].copy_from_slice(&0u32.to_le_bytes());
    put_u64(&mut r, root + 64, 2);
    put_u64(&mut r, root + 72, 4096);
    put_u64(&mut r, root + 80, 1 << 20);
    put_u64(&mut r, root + 88, 10);
    put_u64(&mut r, root + 96, 2 << 20);
    let fs = remount(r.clone());
    let got = fs.extents(EntityId::new(1)).unwrap();
    assert_eq!(got, vec![Extent { len: 4096, at: 1 << 20 }, Extent { len: 10, at: 2 << 20 }]);
    r[root + 44..root + 48].copy_from_slice(&INLINE.to_le_bytes());
    let fs = remount(r.clone());
    assert_eq!(
        fs.extents(EntityId::new(1)).err(),
        Some(FsError::ReferentialCorruption(EntityId::new(1)))
    );
    put_u64(&mut r, root + 64, 0);
    let fs = remount(r);
    assert_eq!(fs.extents(EntityId::new(1)).err(), Some(FsError::NotApplicable));
    assert_eq!(fs.extents(EntityId::new(3)).err(), Some(FsError::NotFound));
}
