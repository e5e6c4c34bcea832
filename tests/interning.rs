use std::collections::hash_map::DefaultHasher;
use std::hash::{BuildHasher, BuildHasherDefault};
use utracy_server::capture::{hash_bytes, U32SizeString};
use utracy_server::strings::{bytes_equal, StringTable};

#[test]
fn empty_string_is_zero() {
    let mut t = StringTable::new();
    assert_eq!(t.len(), 1);
    assert_eq!(t.lookup(0).unwrap(), &Vec::<u8>::new());
    assert_eq!(t.intern(&Vec::new()), 0);
    assert_eq!(t.len(), 1);
    assert_eq!(U32SizeString(Vec::new()).get_hash(), 0);
}

#[test]
fn distinct_strings_get_distinct_ids() {
    let mut t = StringTable::new();
    let a = t.intern(&b"alpha".to_vec());
    let b = t.intern(&b"beta".to_vec());
    let c = t.intern(&b"gamma".to_vec());
    assert_ne!(a, b);
    assert_ne!(a, c);
    assert_ne!(b, c);
    assert_ne!(a, 0);
    assert_eq!(t.len(), 4);
    assert_eq!(t.lookup(b).unwrap(), &b"beta".to_vec());
}

#[test]
fn same_string_twice_same_id() {
    let mut t = StringTable::new();
    let a = t.intern(&b"main".to_vec());
    let _ = t.intern(&b"other".to_vec());
    let again = t.intern(&b"main".to_vec());
    assert_eq!(a, again);
    assert_eq!(t.len(), 3);
}

#[test]
fn id_starts_at_hash() {
    let mut t = StringTable::new();
    let s = b"render_frame".to_vec();
    let id = t.intern(&s);
    assert_eq!(id, hash_bytes(&s));
    assert_eq!(id, U32SizeString(s.clone()).get_hash());
}

#[test]
fn hash_matches_str_hash() {
    let expected = BuildHasherDefault::<DefaultHasher>::default().hash_one("zone");
    assert_eq!(hash_bytes(b"zone"), expected);
}

#[test]
fn unknown_id_is_absent() {
    let t = StringTable::new();
    assert!(t.lookup(12345).is_none());
}

#[test]
fn byte_equality() {
    assert!(bytes_equal(b"abc", b"abc"));
    assert!(!bytes_equal(b"abc", b"abd"));
    assert!(!bytes_equal(b"abc", b"ab"));
}
