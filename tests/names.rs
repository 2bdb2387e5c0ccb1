use derpfs::disk::{ContentChunk, IList, Offset, StrId};
use derpfs::flags::{error_policy, features, mount_state, reserved_clear, revision, ErrorPolicy, MountState};
use derpfs::fs::{DerpFS, FsError};
use derpfs::names::{decode_name, VStr};

const SIZE: u64 = 24 << 20;

fn put_u64(r: &mut Vec<u8>, at: usize, v: u64) {
    r[at..at + 8].copy_from_slice(&v.to_le_bytes());
}

fn with_strings() -> DerpFS {
    let fs = DerpFS::format(vec![0u8; SIZE as usize], SIZE).unwrap();
    let strmap = fs.superblock().strmap.loc as usize;
    let mut r = fs.region().to_vec();
    let text = strmap + 4096;
    r[text..text + 3].copy_from_slice(b"abc");
    put_u64(&mut r, strmap + 8, 3);
    // row 0: string 5, "abc"
    put_u64(&mut r, strmap + 16, 5);
    put_u64(&mut r, strmap + 24, 3);
    put_u64(&mut r, strmap + 32, text as u64);
    // row 1: string 6, reaching past the region
    put_u64(&mut r, strmap + 40, 6);
    put_u64(&mut r, strmap + 48, 100);
    put_u64(&mut r, strmap + 56, SIZE - 10);
    // row 2: string 5 again, ignored in favour of the first
    put_u64(&mut r, strmap + 64, 5);
    put_u64(&mut r, strmap + 72, 1);
    put_u64(&mut r, strmap + 80, text as u64 + 1);
    DerpFS::open(r).unwrap()
}

#[test]
fn resolve_scans_the_string_map() {
    let fs = with_strings();
    assert_eq!(fs.resolve(StrId::new(5)).unwrap(), b"abc".to_vec());
    assert_eq!(fs.resolve(StrId::new(6)).err(), Some(FsError::Corrupt));
    assert_eq!(fs.resolve(StrId::new(7)).err(), Some(FsError::NotFound));
}

#[test]
fn resolve_in_a_fresh_filesystem_finds_nothing() {
    let fs = DerpFS::format(vec![0u8; SIZE as usize], SIZE).unwrap();
    assert_eq!(fs.resolve(StrId::new(1)).err(), Some(FsError::NotFound));
}

#[test]
fn short_names_bypass_the_table() {
    let fs = with_strings();
    let short = (1u64 << 63) | 0x0063_6261;
    assert_eq!(fs.resolve_name(short).unwrap(), b"abc".to_vec());
    assert_eq!(fs.resolve_name(5).unwrap(), b"abc".to_vec());
    assert_eq!(fs.resolve_name(9).err(), Some(FsError::NotFound));
}

#[test]
fn decode_name_forms() {
    assert_eq!(decode_name(42), VStr::Interned(StrId::new(42)));
    assert_eq!(decode_name((1u64 << 63) | 0x0063_6261), VStr::Inline(b"abc".to_vec()));
    assert_eq!(decode_name(1u64 << 63), VStr::Inline(vec![]));
    let seven = (1u64 << 63) | 0x0067_6665_6463_6261;
    assert_eq!(decode_name(seven), VStr::Inline(b"abcdefg".to_vec()));
    let gap = (1u64 << 63) | 0x0000_0000_6300_6261;
    assert_eq!(decode_name(gap), VStr::Inline(b"ab".to_vec()));
}

#[test]
fn flag_word_fields() {
    assert_eq!(mount_state(0), MountState::Clean);
    assert_eq!(mount_state(1), MountState::Dirty);
    assert_eq!(mount_state(2), MountState::Error);
    assert_eq!(mount_state(0b111), MountState::Recovering);
    assert_eq!(error_policy(0b0000), ErrorPolicy::Ignore);
    assert_eq!(error_policy(0b0100), ErrorPolicy::RemountReadOnly);
    assert_eq!(error_policy(0b1000), ErrorPolicy::Abort);
    assert_eq!(error_policy(0b1101), ErrorPolicy::LogAndIgnore);
    assert_eq!(revision(0x35), 3);
    assert_eq!(features(0x100), (true, false, false));
    assert_eq!(features(0x600), (false, true, true));
    assert!(reserved_clear(0x7ff));
    assert!(!reserved_clear(0x800));
}

#[test]
fn list_set_writes_one_item() {
    let mut r = vec![0u8; 64];
    let l: IList<ContentChunk> = IList { next: Offset::new(0), len: 2 };
    let c = ContentChunk { len_or_name: 11, offset: Offset::new(12) };
    assert!(l.set(0, 1, &c, &mut r));
    assert_eq!(r[32], 11);
    assert_eq!(r[40], 12);
    assert_eq!(l.get(0, 1, &r).unwrap().len_or_name, 11);
    assert!(!l.set(0, 2, &c, &mut r));
    assert!(!l.set(40, 1, &c, &mut r));
}
