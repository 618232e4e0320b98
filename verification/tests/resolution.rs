//! Path resolution: plain tree walks, link following under a budget, and
//! the classified failures.

use monofs::cid::{Cid, CID_LENGTH};
use monofs::entity::{DirEntry, Directory, Entity, File, PathLink};
use monofs::error::FsError;
use monofs::resolver::resolve_path;
use monofs::segment::PathSegment;
use monofs::store::MemoryStore;

fn seg(name: &str) -> PathSegment {
    PathSegment::new(name).expect("valid segment")
}

fn path(names: &[&str]) -> Vec<PathSegment> {
    names.iter().map(|n| seg(n)).collect()
}

/// A tree with no links: /docs/notes.txt and /docs/sub/deep.txt.
fn tree() -> (MemoryStore, Cid) {
    let mut store = MemoryStore::new();
    let notes = store.put_entity(&Entity::File(File { content: b"notes".to_vec() }));
    let deep = store.put_entity(&Entity::File(File { content: b"deep".to_vec() }));
    let sub = store.put_entity(&Entity::Directory(Directory {
        entries: vec![DirEntry { name: seg("deep.txt"), target: deep }],
    }));
    let docs = store.put_entity(&Entity::Directory(Directory {
        entries: vec![
            DirEntry { name: seg("notes.txt"), target: notes },
            DirEntry { name: seg("sub"), target: sub },
        ],
    }));
    let root = store.put_entity(&Entity::Directory(Directory {
        entries: vec![DirEntry { name: seg("docs"), target: docs }],
    }));
    (store, root)
}

#[test]
fn resolves_paths_without_links() {
    let (store, root) = tree();
    let (_, e) = resolve_path(&store, &root, &path(&["docs", "notes.txt"]), false, 10)
        .expect("path exists");
    assert_eq!(e, Entity::File(File { content: b"notes".to_vec() }));
    let (_, e) = resolve_path(&store, &root, &path(&["docs", "sub", "deep.txt"]), false, 10)
        .expect("path exists");
    assert_eq!(e, Entity::File(File { content: b"deep".to_vec() }));
}

#[test]
fn absent_segment_fails_path_not_found() {
    let (store, root) = tree();
    match resolve_path(&store, &root, &path(&["docs", "missing"]), false, 10) {
        Err(FsError::PathNotFound(m)) => assert_eq!(m, "missing"),
        other => panic!("expected PathNotFound, got {:?}", other),
    }
    assert!(matches!(
        resolve_path(&store, &root, &path(&["nowhere", "notes.txt"]), false, 10),
        Err(FsError::PathNotFound(_))
    ));
}

#[test]
fn empty_path_is_rejected_before_the_graph() {
    let (store, root) = tree();
    assert!(matches!(
        resolve_path(&store, &root, &vec![], false, 10),
        Err(FsError::PathIsEmpty)
    ));
}

#[test]
fn traversing_through_a_file_fails_not_a_directory() {
    let (store, root) = tree();
    assert!(matches!(
        resolve_path(&store, &root, &path(&["docs", "notes.txt", "more"]), false, 10),
        Err(FsError::NotADirectory(_))
    ));
}

/// A root whose entry `hop` starts a chain of `links` CID links ending at a
/// file.
fn chain(links: u32) -> (MemoryStore, Cid) {
    let mut store = MemoryStore::new();
    let mut target = store.put_entity(&Entity::File(File { content: b"end".to_vec() }));
    for _ in 0..links {
        target = store.put_entity(&Entity::CidLink(target));
    }
    let root = store.put_entity(&Entity::Directory(Directory {
        entries: vec![DirEntry { name: seg("hop"), target }],
    }));
    (store, root)
}

#[test]
fn cid_link_chain_within_budget_resolves_to_final_entity() {
    for links in [1u32, 3, 5] {
        let (store, root) = chain(links);
        let (_, e) = resolve_path(&store, &root, &path(&["hop"]), true, 5).expect("within budget");
        assert_eq!(e, Entity::File(File { content: b"end".to_vec() }));
    }
}

#[test]
fn cid_link_chain_past_budget_fails_max_follow_depth() {
    let (store, root) = chain(6);
    assert!(matches!(
        resolve_path(&store, &root, &path(&["hop"]), true, 5),
        Err(FsError::MaxFollowDepthReached)
    ));
}

#[test]
fn terminal_link_stays_a_link_unless_following_was_asked() {
    let (store, root) = chain(1);
    let (_, e) = resolve_path(&store, &root, &path(&["hop"]), false, 5).expect("returned as-is");
    assert!(matches!(e, Entity::CidLink(_)));
}

#[test]
fn broken_cid_link_fails_broken_never_a_default() {
    let mut store = MemoryStore::new();
    let absent = Cid::from_bytes(vec![42; CID_LENGTH]).expect("right length");
    let link = store.put_entity(&Entity::CidLink(absent.clone()));
    let root = store.put_entity(&Entity::Directory(Directory {
        entries: vec![DirEntry { name: seg("dangling"), target: link }],
    }));
    match resolve_path(&store, &root, &path(&["dangling"]), true, 5) {
        Err(FsError::BrokenSymCidLink(c)) => assert_eq!(c, absent),
        other => panic!("expected BrokenSymCidLink, got {:?}", other),
    }
}

#[test]
fn cid_link_mid_path_is_an_explicit_capability_gap() {
    let (store, root) = chain(1);
    match resolve_path(&store, &root, &path(&["hop", "beyond"]), false, 5) {
        Err(FsError::SymCidLinkNotSupportedYet(rest)) => {
            assert_eq!(rest, path(&["beyond"]));
        },
        other => panic!("expected SymCidLinkNotSupportedYet, got {:?}", other),
    }
}

/// A tree where /alias is a path link to docs/sub, relative to the root.
fn linked_tree(has_root: bool, link_path: &[&str]) -> (MemoryStore, Cid) {
    let mut store = MemoryStore::new();
    let deep = store.put_entity(&Entity::File(File { content: b"deep".to_vec() }));
    let sub = store.put_entity(&Entity::Directory(Directory {
        entries: vec![DirEntry { name: seg("deep.txt"), target: deep }],
    }));
    let docs = store.put_entity(&Entity::Directory(Directory {
        entries: vec![DirEntry { name: seg("sub"), target: sub }],
    }));
    let alias = store.put_entity(&Entity::PathLink(PathLink {
        has_root,
        segments: path(link_path),
    }));
    let root = store.put_entity(&Entity::Directory(Directory {
        entries: vec![
            DirEntry { name: seg("docs"), target: docs },
            DirEntry { name: seg("alias"), target: alias },
        ],
    }));
    (store, root)
}

#[test]
fn path_link_reenters_resolution_at_the_root() {
    let (store, root) = linked_tree(false, &["docs", "sub"]);
    let (_, e) = resolve_path(&store, &root, &path(&["alias", "deep.txt"]), false, 5)
        .expect("link re-resolves from the root");
    assert_eq!(e, Entity::File(File { content: b"deep".to_vec() }));
}

#[test]
fn absolute_path_link_fails_path_has_root() {
    let (store, root) = linked_tree(true, &["docs", "sub"]);
    assert!(matches!(
        resolve_path(&store, &root, &path(&["alias", "deep.txt"]), false, 5),
        Err(FsError::PathHasRoot(_))
    ));
}

#[test]
fn empty_path_link_fails_invalid_search_path() {
    let (store, root) = linked_tree(false, &[]);
    assert!(matches!(
        resolve_path(&store, &root, &path(&["alias", "deep.txt"]), false, 5),
        Err(FsError::InvalidSearchPathEmpty)
    ));
}

#[test]
fn path_link_cycle_is_stopped_by_the_budget() {
    let (store, root) = linked_tree(false, &["alias"]);
    assert!(matches!(
        resolve_path(&store, &root, &path(&["alias", "deep.txt"]), false, 16),
        Err(FsError::MaxFollowDepthReached)
    ));
}
