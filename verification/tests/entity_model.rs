//! The entity model: segments, identifiers, the codec round trip, and
//! directory snapshots.

use monofs::cid::{Cid, CID_LENGTH};
use monofs::codec::{cid_of, decode, encode};
use monofs::entity::{DirEntry, Directory, Entity, EntityKind, File, PathLink};
use monofs::error::FsError;
use monofs::segment::PathSegment;
use monofs::store::MemoryStore;

fn seg(name: &str) -> PathSegment {
    PathSegment::new(name).expect("valid segment")
}

fn sample_dir() -> Directory {
    let mut store = MemoryStore::new();
    let file_cid = store.put_entity(&Entity::File(File { content: vec![1, 2, 3] }));
    Directory { entries: vec![DirEntry { name: seg("notes"), target: file_cid }] }
}

#[test]
fn segment_rejects_invalid_components() {
    assert!(matches!(
        PathSegment::new(""),
        Err(FsError::InvalidPathComponent(_))
    ));
    assert!(matches!(
        PathSegment::new("."),
        Err(FsError::InvalidPathComponent(_))
    ));
    assert!(matches!(
        PathSegment::new(".."),
        Err(FsError::InvalidPathComponent(_))
    ));
    assert!(matches!(
        PathSegment::new("a/b"),
        Err(FsError::InvalidPathComponent(_))
    ));
    let ok = PathSegment::new("notes.txt").expect("accepted");
    assert_eq!(ok.as_str(), "notes.txt");
    let dotted = PathSegment::new("...").expect("three dots are a plain name");
    assert_eq!(dotted.as_str(), "...");
}

#[test]
fn cid_has_fixed_length_and_structural_equality() {
    assert!(matches!(Cid::from_bytes(vec![7; 31]), Err(FsError::CidError(_))));
    let a = Cid::from_bytes(vec![7; CID_LENGTH]).expect("right length");
    let b = Cid::from_bytes(vec![7; CID_LENGTH]).expect("right length");
    assert!(a.eq_cid(&b));
    assert_eq!(a, b);
}

#[test]
fn file_round_trip_keeps_value_tag_and_cid() {
    let e = Entity::File(File { content: vec![0, 255, 42] });
    let bytes = encode(&e);
    let back = decode(&bytes).expect("sound layout");
    assert_eq!(back, e);
    assert_eq!(back.kind(), EntityKind::File);
    assert_eq!(cid_of(&back), cid_of(&e));
}

#[test]
fn directory_round_trip_keeps_value_tag_and_cid() {
    let d = sample_dir();
    let e = Entity::Directory(d);
    let bytes = encode(&e);
    let back = decode(&bytes).expect("sound layout");
    assert_eq!(back, e);
    assert_eq!(back.kind(), EntityKind::Directory);
    assert_eq!(cid_of(&back), cid_of(&e));
}

#[test]
fn links_round_trip_keeps_value_tag_and_cid() {
    let target = Cid::from_bytes(vec![9; CID_LENGTH]).expect("right length");
    let cl = Entity::CidLink(target);
    let back = decode(&encode(&cl)).expect("sound layout");
    assert_eq!(back, cl);
    assert_eq!(back.kind(), EntityKind::CidLink);
    assert_eq!(cid_of(&back), cid_of(&cl));

    let pl = Entity::PathLink(PathLink {
        has_root: false,
        segments: vec![seg("shared"), seg("data")],
    });
    let back = decode(&encode(&pl)).expect("sound layout");
    assert_eq!(back, pl);
    assert_eq!(back.kind(), EntityKind::PathLink);
    assert_eq!(cid_of(&back), cid_of(&pl));
}

#[test]
fn decode_rejects_unknown_tag_and_garbage() {
    assert!(matches!(decode(&vec![]), Err(FsError::DecodeError(_))));
    assert!(matches!(
        decode(&vec![9, 0, 0]),
        Err(FsError::InvalidEntityFlag(9))
    ));
    // A file header announcing more content than there is.
    assert!(matches!(
        decode(&vec![0, 5, 0, 0, 0, 0, 0, 0, 0, 1]),
        Err(FsError::DecodeError(_))
    ));
}

#[test]
fn loading_as_the_wrong_variant_fails_not_silently() {
    let mut store = MemoryStore::new();
    let file_cid = store.put_entity(&Entity::File(File { content: vec![1] }));
    let dir_cid = store.put_entity(&Entity::Directory(Directory { entries: vec![] }));

    assert!(store.get_file(&file_cid).is_ok());
    assert!(matches!(store.get_file(&dir_cid), Err(FsError::NotAFile(_))));
    assert!(matches!(
        store.get_directory(&file_cid),
        Err(FsError::NotADirectory(_))
    ));
    assert!(matches!(
        store.get_cid_link(&file_cid),
        Err(FsError::NotASymCidLink(_))
    ));
    assert!(matches!(
        store.get_path_link(&file_cid),
        Err(FsError::NotASymPathLink(_))
    ));
    // An identifier the store has never seen.
    let absent = Cid::from_bytes(vec![0; CID_LENGTH]).expect("right length");
    assert!(matches!(
        store.get_file(&absent),
        Err(FsError::UnableToLoadEntity(_))
    ));
}

#[test]
fn update_with_same_target_keeps_cid() {
    let d = sample_dir();
    let name = seg("notes");
    let target = d.get_entry(&name).expect("present").clone();
    let updated = d.with_entry(&name, &target);
    assert_eq!(
        cid_of(&Entity::Directory(updated)),
        cid_of(&Entity::Directory(d))
    );
}

#[test]
fn update_with_new_target_changes_cid_in_place() {
    let d = sample_dir();
    let name = seg("notes");
    let other = Cid::from_bytes(vec![3; CID_LENGTH]).expect("right length");
    let updated = d.with_entry(&name, &other);
    assert_eq!(updated.len(), 1);
    assert_eq!(updated.get_entry(&name), Some(&other));
    assert_ne!(
        cid_of(&Entity::Directory(updated)),
        cid_of(&Entity::Directory(d))
    );
}

#[test]
fn creating_over_an_existing_entry_fails_path_exists() {
    let d = sample_dir();
    let other = Cid::from_bytes(vec![3; CID_LENGTH]).expect("right length");
    match d.add_entry(&seg("notes"), &other) {
        Err(FsError::PathExists(m)) => assert_eq!(m, "notes"),
        other => panic!("expected PathExists, got {:?}", other),
    }
    let grown = d.add_entry(&seg("fresh"), &other).expect("name was free");
    assert_eq!(grown.len(), 2);
    assert_eq!(grown.get_entry(&seg("fresh")), Some(&other));
}

#[test]
fn directory_entries_keep_insertion_order() {
    let c1 = Cid::from_bytes(vec![1; CID_LENGTH]).expect("right length");
    let c2 = Cid::from_bytes(vec![2; CID_LENGTH]).expect("right length");
    let d = Directory::new();
    let d = d.with_entry(&seg("zeta"), &c1);
    let d = d.with_entry(&seg("alpha"), &c2);
    assert_eq!(d.len(), 2);
    assert_eq!(d.entry_at(0).name, seg("zeta"));
    assert_eq!(d.entry_at(1).name, seg("alpha"));
    let d = d.without_entry(&seg("zeta"));
    assert_eq!(d.len(), 1);
    assert_eq!(d.entry_at(0).name, seg("alpha"));
}

#[test]
fn store_returns_exactly_what_was_put() {
    let mut store = MemoryStore::new();
    let e = Entity::File(File { content: b"hello".to_vec() });
    let cid = store.put_entity(&e);
    assert_eq!(cid.as_bytes().len(), CID_LENGTH);
    assert!(store.has(&cid));
    assert_eq!(store.get_entity(&cid).expect("present"), e);
    // Storing the same value again yields the same identifier.
    let again = store.put_entity(&Entity::File(File { content: b"hello".to_vec() }));
    assert_eq!(again, cid);
}

#[test]
fn custom_errors_keep_their_message() {
    let e = FsError::custom("disk on fire".to_string());
    match e {
        FsError::Custom(any) => assert_eq!(any.downcast().as_str(), "disk on fire"),
        _ => panic!("expected a custom error"),
    }
}
