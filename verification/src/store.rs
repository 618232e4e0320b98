//! An in-memory content-addressed block store.
//!
//! Blocks are keyed by the digest of their bytes; loading an identifier
//! yields exactly the entity that was stored under it, and a missing
//! identifier is always reported, never defaulted. Loading an entity as the
//! wrong kind fails with the matching mismatch error.

use vstd::prelude::*;
use vstd::string::StringExecFns;

use crate::cid::{bytes_eq, digest_of, Cid};
use crate::codec::{decode, encode, lemma_entity_round_trip, spec_cid_of, spec_decode, spec_encode};
use crate::entity::{Directory, Entity, EntityV, File, PathLink};
use crate::error::{FsError, FsResult};

verus! {

/// The index of the first block keyed by `key`, or a negative value if none
/// is.
pub open spec fn find_block(bs: Seq<(Seq<u8>, Seq<u8>)>, key: Seq<u8>) -> int
    decreases bs.len(),
{
    if bs.len() == 0 {
        -1
    } else if bs[0].0 == key {
        0
    } else {
        let rest = find_block(bs.drop_first(), key);
        if rest < 0 {
            -1
        } else {
            rest + 1
        }
    }
}

proof fn lemma_find_block(bs: Seq<(Seq<u8>, Seq<u8>)>, key: Seq<u8>)
    ensures
        find_block(bs, key) >= 0 ==> {
            let i = find_block(bs, key);
            &&& i < bs.len()
            &&& bs[i].0 == key
            &&& forall|j: int| 0 <= j < i ==> (#[trigger] bs[j].0) != key
        },
        find_block(bs, key) < 0 ==> forall|j: int|
            0 <= j < bs.len() ==> (#[trigger] bs[j].0) != key,
    decreases bs.len(),
{
    if bs.len() == 0 {
    } else if bs[0].0 == key {
    } else {
        lemma_find_block(bs.drop_first(), key);
        assert forall|j: int| 1 <= j < bs.len() implies bs[j].0 == bs.drop_first()[j - 1].0 by {}
    }
}

proof fn lemma_find_block_push(bs: Seq<(Seq<u8>, Seq<u8>)>, p: (Seq<u8>, Seq<u8>), key: Seq<u8>)
    ensures
        find_block(bs.push(p), key) == if find_block(bs, key) >= 0 {
            find_block(bs, key)
        } else if key == p.0 {
            bs.len() as int
        } else {
            -1
        },
    decreases bs.len(),
{
    let l = bs.push(p);
    assert(l.len() == bs.len() + 1);
    if bs.len() == 0 {
        assert(l[0] == p);
        assert(l.drop_first() =~= Seq::<(Seq<u8>, Seq<u8>)>::empty());
        if key == p.0 {
            assert(find_block(l, key) == 0);
        } else {
            assert(find_block(l.drop_first(), key) == -1);
            assert(find_block(l, key) == -1);
        }
    } else {
        assert(l[0] == bs[0]);
        assert(l.drop_first() =~= bs.drop_first().push(p));
        lemma_find_block_push(bs.drop_first(), p, key);
        if bs[0].0 == key {
            assert(find_block(l, key) == 0);
            assert(find_block(bs, key) == 0);
        } else {
            let rd = find_block(bs.drop_first(), key);
            let rdp = find_block(bs.drop_first().push(p), key);
            assert(find_block(l.drop_first(), key) == rdp);
            assert(find_block(l, key) == if rdp < 0 {
                -1
            } else {
                rdp + 1
            });
            assert(find_block(bs, key) == if rd < 0 {
                -1
            } else {
                rd + 1
            });
        }
    }
}

proof fn lemma_find_block_same_keys(
    bs1: Seq<(Seq<u8>, Seq<u8>)>,
    bs2: Seq<(Seq<u8>, Seq<u8>)>,
    key: Seq<u8>,
)
    requires
        bs1.len() == bs2.len(),
        forall|i: int| 0 <= i < bs1.len() ==> (#[trigger] bs1[i]).0 == (#[trigger] bs2[i]).0,
    ensures
        find_block(bs1, key) == find_block(bs2, key),
    decreases bs1.len(),
{
    if bs1.len() > 0 {
        assert(bs1.drop_first().len() == bs2.drop_first().len());
        assert(forall|i: int|
            0 <= i < bs1.drop_first().len() ==> (#[trigger] bs1.drop_first()[i]).0 == (
            #[trigger] bs2.drop_first()[i]).0);
        lemma_find_block_same_keys(bs1.drop_first(), bs2.drop_first(), key);
    }
}

/// An in-memory block store: serialized entities keyed by the digest of
/// their bytes.
pub struct MemoryStore {
    blocks: Vec<(Cid, Vec<u8>)>,
}

impl View for MemoryStore {
    type V = Map<Seq<u8>, EntityV>;

    /// The entity stored under each identifier.
    closed spec fn view(&self) -> Map<Seq<u8>, EntityV> {
        Map::new(
            |key: Seq<u8>| find_block(self.raw(), key) >= 0,
            |key: Seq<u8>| spec_decode(self.raw()[find_block(self.raw(), key)].1).unwrap(),
        )
    }
}

impl MemoryStore {
    /// The stored blocks as key and bytes.
    closed spec fn raw(&self) -> Seq<(Seq<u8>, Seq<u8>)> {
        self.blocks@.map_values(|b: (Cid, Vec<u8>)| (b.0@, b.1@))
    }

    /// Every key is the digest of its block, keys never repeat, and every
    /// block decodes to a well-formed entity.
    pub closed spec fn wf(&self) -> bool {
        &&& forall|i: int|
            0 <= i < self.raw().len() ==> (#[trigger] self.raw()[i]).0 == digest_of(
                self.raw()[i].1,
            )
        &&& forall|i: int, j: int|
            0 <= i < j < self.raw().len() ==> (#[trigger] self.raw()[i]).0 != (
            #[trigger] self.raw()[j]).0
        &&& forall|i: int|
            0 <= i < self.raw().len() ==> spec_decode((#[trigger] self.raw()[i]).1) is Some
    }

    /// An empty store.
    pub fn new() -> (s: MemoryStore)
        ensures
            s@ == Map::<Seq<u8>, EntityV>::empty(),
            s.wf(),
    {
        let s = MemoryStore { blocks: Vec::new() };
        proof {
            assert(s.raw() =~= Seq::<(Seq<u8>, Seq<u8>)>::empty());
            assert(s@ =~= Map::<Seq<u8>, EntityV>::empty());
        }
        s
    }

    /// The position of the block keyed by `key`, if any.
    fn find(&self, key: &Cid) -> (r: Option<usize>)
        ensures
            match r {
                Some(i) => i == find_block(self.raw(), key@) && i < self.raw().len(),
                None => find_block(self.raw(), key@) < 0,
            },
    {
        let n = self.blocks.len();
        let mut i: usize = 0;
        while i < n
            invariant
                n == self.blocks@.len(),
                i <= n,
                forall|j: int| 0 <= j < i ==> (#[trigger] self.raw()[j]).0 != key@,
            decreases n - i,
        {
            if bytes_eq(self.blocks[i].0.as_bytes(), key.as_bytes()) {
                proof {
                    assert(self.raw()[i as int].0 == key@);
                    lemma_find_block(self.raw(), key@);
                    let f = find_block(self.raw(), key@);
                    if f < 0 {
                        assert(self.raw()[i as int].0 != key@);
                    } else if f < i {
                        assert(self.raw()[f].0 != key@);
                    } else if f > i {
                        assert(self.raw()[i as int].0 != key@);
                    }
                }
                return Some(i);
            }
            i += 1;
        }
        proof {
            lemma_find_block(self.raw(), key@);
        }
        None
    }

    /// Whether the store holds an entity under `key`.
    pub fn has(&self, key: &Cid) -> (b: bool)
        ensures
            b == self@.contains_key(key@),
    {
        self.find(key).is_some()
    }

    /// Stores an entity under the digest of its serialized bytes and returns
    /// that identifier. Storing a value already present leaves the store as
    /// it was.
    pub fn put_entity(&mut self, e: &Entity) -> (c: Cid)
        requires
            old(self).wf(),
            e.wf(),
        ensures
            final(self).wf(),
            c@ == spec_cid_of(e@),
            c.wf(),
            final(self)@ == old(self)@.insert(c@, e@),
    {
        let bytes = encode(e);
        proof {
            lemma_entity_round_trip(e@);
        }
        let cid = Cid::of_content(&bytes);
        let ghost oldraw = self.raw();
        match self.find(&cid) {
            Some(i) => {
                proof {
                    lemma_find_block(oldraw, cid@);
                }
                if bytes_eq(&self.blocks[i].1, &bytes) {
                    proof {
                        assert(self@.contains_key(cid@));
                        assert(self.raw()[i as int].1 == spec_encode(e@));
                        assert(self@[cid@] == e@);
                        assert(self@ =~= old(self)@.insert(cid@, e@));
                    }
                } else {
                    // A second block with this digest but different bytes:
                    // keep the key and replace the bytes.
                    let fresh = cid.clone();
                    self.blocks.set(i, (fresh, bytes));
                    proof {
                        assert(self.raw() =~= oldraw.update(i as int, (cid@, spec_encode(e@))));
                        assert forall|k: Seq<u8>| true implies find_block(self.raw(), k)
                            == find_block(oldraw, k) by {
                            lemma_find_block_same_keys(self.raw(), oldraw, k);
                        }
                        assert forall|k: Seq<u8>| #[trigger] self@.contains_key(k) && k != cid@
                            implies self@[k] == old(self)@[k] by {
                            lemma_find_block(oldraw, k);
                            let f = find_block(oldraw, k);
                            assert(oldraw[f].0 == k);
                            assert(f != i);
                            assert(self.raw()[f] == oldraw[f]);
                        }
                        assert(self@.contains_key(cid@) && self@[cid@] == e@);
                        assert(self@ =~= old(self)@.insert(cid@, e@));
                        assert forall|a: int, b: int|
                            0 <= a < b < self.raw().len() implies (#[trigger] self.raw()[a]).0 != (
                        #[trigger] self.raw()[b]).0 by {
                            assert(self.raw()[a].0 == oldraw[a].0 && self.raw()[b].0
                                == oldraw[b].0);
                        }
                    }
                }
            },
            None => {
                proof {
                    lemma_find_block(oldraw, cid@);
                }
                let fresh = cid.clone();
                self.blocks.push((fresh, bytes));
                proof {
                    assert(self.raw() =~= oldraw.push((cid@, spec_encode(e@))));
                    assert forall|k: Seq<u8>| true implies find_block(self.raw(), k) == (
                    if find_block(oldraw, k) >= 0 {
                        find_block(oldraw, k)
                    } else if k == cid@ {
                        oldraw.len() as int
                    } else {
                        -1
                    }) by {
                        lemma_find_block_push(oldraw, (cid@, spec_encode(e@)), k);
                    }
                    assert forall|k: Seq<u8>| #[trigger] self@.contains_key(k) && k != cid@
                        implies self@[k] == old(self)@[k] by {
                        lemma_find_block(oldraw, k);
                        let f = find_block(oldraw, k);
                        assert(f >= 0);
                        assert(self.raw()[f] == oldraw[f]);
                    }
                    assert(self@.contains_key(cid@));
                    assert(self.raw()[oldraw.len() as int].1 == spec_encode(e@));
                    assert(self@[cid@] == e@);
                    assert(self@ =~= old(self)@.insert(cid@, e@));
                }
            },
        }
        cid
    }

    /// Loads the entity stored under `key`; an absent identifier always
    /// fails with `UnableToLoadEntity`.
    pub fn get_entity(&self, key: &Cid) -> (r: FsResult<Entity>)
        requires
            self.wf(),
        ensures
            r is Ok <==> self@.contains_key(key@),
            r matches Ok(e) ==> self@[key@] == e@ && e.wf(),
            r matches Err(err) ==> (err matches FsError::UnableToLoadEntity(c) && c@ == key@),
    {
        match self.find(key) {
            None => Err(FsError::UnableToLoadEntity(key.clone())),
            Some(i) => {
                match decode(&self.blocks[i].1) {
                    Ok(e) => Ok(e),
                    Err(_) => {
                        proof {
                            assert(spec_decode(self.raw()[i as int].1) is Some);
                            assert(false);
                        }
                        Err(FsError::UnableToLoadEntity(key.clone()))
                    },
                }
            },
        }
    }

    /// Loads the entity under `key` as a file; any other kind fails with
    /// `NotAFile`.
    pub fn get_file(&self, key: &Cid) -> (r: FsResult<File>)
        requires
            self.wf(),
        ensures
            r is Ok <==> self@.contains_key(key@) && self@[key@] is File,
            r matches Ok(f) ==> self@[key@] == EntityV::File(f@),
            r matches Err(err) ==> (if !self@.contains_key(key@) {
                err matches FsError::UnableToLoadEntity(c) && c@ == key@
            } else {
                err matches FsError::NotAFile(_)
            }),
    {
        match self.get_entity(key)? {
            Entity::File(f) => Ok(f),
            _ => Err(FsError::NotAFile(String::from_str("entity kind mismatch"))),
        }
    }

    /// Loads the entity under `key` as a directory; any other kind fails
    /// with `NotADirectory`.
    pub fn get_directory(&self, key: &Cid) -> (r: FsResult<Directory>)
        requires
            self.wf(),
        ensures
            r is Ok <==> self@.contains_key(key@) && self@[key@] is Directory,
            r matches Ok(d) ==> self@[key@] == EntityV::Directory(d@) && d.wf(),
            r matches Err(err) ==> (if !self@.contains_key(key@) {
                err matches FsError::UnableToLoadEntity(c) && c@ == key@
            } else {
                err matches FsError::NotADirectory(_)
            }),
    {
        match self.get_entity(key)? {
            Entity::Directory(d) => Ok(d),
            _ => Err(FsError::NotADirectory(String::from_str("entity kind mismatch"))),
        }
    }

    /// Loads the entity under `key` as a CID link; any other kind fails with
    /// `NotASymCidLink`.
    pub fn get_cid_link(&self, key: &Cid) -> (r: FsResult<Cid>)
        requires
            self.wf(),
        ensures
            r is Ok <==> self@.contains_key(key@) && self@[key@] is CidLink,
            r matches Ok(t) ==> self@[key@] == EntityV::CidLink(t@),
            r matches Err(err) ==> (if !self@.contains_key(key@) {
                err matches FsError::UnableToLoadEntity(c) && c@ == key@
            } else {
                err matches FsError::NotASymCidLink(_)
            }),
    {
        match self.get_entity(key)? {
            Entity::CidLink(t) => Ok(t),
            _ => Err(FsError::NotASymCidLink(String::from_str("entity kind mismatch"))),
        }
    }

    /// Loads the entity under `key` as a path link; any other kind fails
    /// with `NotASymPathLink`.
    pub fn get_path_link(&self, key: &Cid) -> (r: FsResult<PathLink>)
        requires
            self.wf(),
        ensures
            r is Ok <==> self@.contains_key(key@) && self@[key@] is PathLink,
            r matches Ok(p) ==> self@[key@] == EntityV::PathLink(p@.0, p@.1),
            r matches Err(err) ==> (if !self@.contains_key(key@) {
                err matches FsError::UnableToLoadEntity(c) && c@ == key@
            } else {
                err matches FsError::NotASymPathLink(_)
            }),
    {
        match self.get_entity(key)? {
            Entity::PathLink(p) => Ok(p),
            _ => Err(FsError::NotASymPathLink(String::from_str("entity kind mismatch"))),
        }
    }
}

} // verus!
