//! The entity model: the four immutable node kinds of the filesystem.
//!
//! A node never changes in place; editing a directory yields a new value,
//! and a new identifier once serialized. Directories keep their entries in
//! insertion order and never map one segment to two targets.

use vstd::prelude::*;

use crate::cid::{Cid, CID_LENGTH};
use crate::error::{FsError, FsResult};
use crate::segment::{valid_segment, PathSegment};

verus! {

/// The mathematical value of an entity.
pub enum EntityV {
    /// Opaque byte content.
    File(Seq<u8>),
    /// Entries in insertion order: component name and target identifier.
    Directory(Seq<(Seq<char>, Seq<u8>)>),
    /// A link whose target is an identifier, independent of any hierarchy.
    CidLink(Seq<u8>),
    /// A link whose target is a path: a root marker and its segments.
    PathLink(bool, Seq<Seq<char>>),
}

/// The discriminant of an entity, used to inspect a loaded node.
#[derive(Clone, Copy, Debug, PartialEq, Eq, Structural)]
pub enum EntityKind {
    /// A file node.
    File,
    /// A directory node.
    Directory,
    /// A CID link node.
    CidLink,
    /// A path link node.
    PathLink,
}

/// A file: opaque byte content.
#[derive(Debug, PartialEq, Eq)]
pub struct File {
    /// The content bytes.
    pub content: Vec<u8>,
}

impl View for File {
    type V = Seq<u8>;

    open spec fn view(&self) -> Seq<u8> {
        self.content@
    }
}

/// One directory entry: a validated component name and the identifier of the
/// child entity it maps to.
#[derive(Debug, PartialEq, Eq)]
pub struct DirEntry {
    /// The component name.
    pub name: PathSegment,
    /// The identifier of the child entity.
    pub target: Cid,
}

impl View for DirEntry {
    type V = (Seq<char>, Seq<u8>);

    open spec fn view(&self) -> (Seq<char>, Seq<u8>) {
        (self.name@, self.target@)
    }
}

impl Clone for DirEntry {
    fn clone(&self) -> (r: Self)
        ensures
            r@ == self@,
    {
        DirEntry { name: self.name.clone(), target: self.target.clone() }
    }
}

/// A directory: an insertion-ordered mapping from component name to child
/// identifier.
#[derive(Debug, PartialEq, Eq)]
pub struct Directory {
    /// The entries, oldest first.
    pub entries: Vec<DirEntry>,
}

/// A link whose target is a path, re-resolved against the filesystem root.
#[derive(Debug, PartialEq, Eq)]
pub struct PathLink {
    /// Whether the stored path carries a leading root marker.
    pub has_root: bool,
    /// The stored path's components.
    pub segments: Vec<PathSegment>,
}

impl View for PathLink {
    type V = (bool, Seq<Seq<char>>);

    open spec fn view(&self) -> (bool, Seq<Seq<char>>) {
        (self.has_root, self.segments@.map_values(|s: PathSegment| s@))
    }
}

/// A polymorphic node: one of the four entity kinds.
#[derive(Debug, PartialEq, Eq)]
pub enum Entity {
    /// A file node.
    File(File),
    /// A directory node.
    Directory(Directory),
    /// A CID link node.
    CidLink(Cid),
    /// A path link node.
    PathLink(PathLink),
}

impl View for Directory {
    type V = Seq<(Seq<char>, Seq<u8>)>;

    open spec fn view(&self) -> Seq<(Seq<char>, Seq<u8>)> {
        self.entries@.map_values(|e: DirEntry| e@)
    }
}

impl View for Entity {
    type V = EntityV;

    open spec fn view(&self) -> EntityV {
        match self {
            Entity::File(f) => EntityV::File(f@),
            Entity::Directory(d) => EntityV::Directory(d@),
            Entity::CidLink(c) => EntityV::CidLink(c@),
            Entity::PathLink(p) => EntityV::PathLink(p@.0, p@.1),
        }
    }
}

/// Well-formed directory entries: every name passes validation, every target
/// has the identifier length, and no name occurs twice.
pub open spec fn dir_entries_wf(entries: Seq<(Seq<char>, Seq<u8>)>) -> bool {
    &&& forall|i: int| 0 <= i < entries.len() ==> valid_segment(#[trigger] entries[i].0)
    &&& forall|i: int| 0 <= i < entries.len() ==> (#[trigger] entries[i].1).len() == CID_LENGTH
    &&& forall|i: int, j: int|
        0 <= i < j < entries.len() ==> (#[trigger] entries[i].0) != (#[trigger] entries[j].0)
}

/// Well-formedness of an entity value.
pub open spec fn entity_wf(v: EntityV) -> bool {
    match v {
        EntityV::File(_) => true,
        EntityV::Directory(entries) => dir_entries_wf(entries),
        EntityV::CidLink(target) => target.len() == CID_LENGTH,
        EntityV::PathLink(_, segments) => forall|i: int|
            0 <= i < segments.len() ==> valid_segment(#[trigger] segments[i]),
    }
}

/// The index of the first entry named `name`, or a negative value if none is.
pub open spec fn dir_find(entries: Seq<(Seq<char>, Seq<u8>)>, name: Seq<char>) -> int
    decreases entries.len(),
{
    if entries.len() == 0 {
        -1
    } else if entries[0].0 == name {
        0
    } else {
        let rest = dir_find(entries.drop_first(), name);
        if rest < 0 {
            -1
        } else {
            rest + 1
        }
    }
}

/// The target mapped by `name`, if any.
pub open spec fn dir_lookup(entries: Seq<(Seq<char>, Seq<u8>)>, name: Seq<char>) -> Option<
    Seq<u8>,
> {
    let i = dir_find(entries, name);
    if i >= 0 {
        Some(entries[i].1)
    } else {
        None
    }
}

/// The entries after mapping `name` to `target`: the first entry of that name
/// is replaced in place, keeping its position; a fresh name is appended.
pub open spec fn dir_with_entry(
    entries: Seq<(Seq<char>, Seq<u8>)>,
    name: Seq<char>,
    target: Seq<u8>,
) -> Seq<(Seq<char>, Seq<u8>)> {
    let i = dir_find(entries, name);
    if i >= 0 {
        entries.update(i, (name, target))
    } else {
        entries.push((name, target))
    }
}

/// The entries after removing the first entry named `name`, if any.
pub open spec fn dir_without_entry(entries: Seq<(Seq<char>, Seq<u8>)>, name: Seq<char>) -> Seq<
    (Seq<char>, Seq<u8>),
> {
    let i = dir_find(entries, name);
    if i >= 0 {
        entries.remove(i)
    } else {
        entries
    }
}

/// What `dir_find` returns: the first index carrying `name`, or a negative
/// value exactly when no entry carries it.
pub proof fn lemma_dir_find(entries: Seq<(Seq<char>, Seq<u8>)>, name: Seq<char>)
    ensures
        dir_find(entries, name) >= 0 ==> {
            let i = dir_find(entries, name);
            &&& i < entries.len()
            &&& entries[i].0 == name
            &&& forall|j: int| 0 <= j < i ==> (#[trigger] entries[j].0) != name
        },
        dir_find(entries, name) < 0 ==> forall|j: int|
            0 <= j < entries.len() ==> (#[trigger] entries[j].0) != name,
    decreases entries.len(),
{
    if entries.len() == 0 {
    } else if entries[0].0 == name {
    } else {
        lemma_dir_find(entries.drop_first(), name);
        assert forall|j: int| 1 <= j < entries.len() implies entries[j].0
            == entries.drop_first()[j - 1].0 by {}
    }
}

impl Directory {
    /// A directory is well formed exactly when its entries are.
    pub open spec fn wf(&self) -> bool {
        dir_entries_wf(self@)
    }

    /// The empty directory.
    pub fn new() -> (d: Directory)
        ensures
            d@ == Seq::<(Seq<char>, Seq<u8>)>::empty(),
            d.wf(),
    {
        let d = Directory { entries: Vec::new() };
        proof {
            assert(d@ =~= Seq::<(Seq<char>, Seq<u8>)>::empty());
        }
        d
    }

    /// How many entries the directory holds.
    pub fn len(&self) -> (n: usize)
        ensures
            n == self@.len(),
    {
        self.entries.len()
    }

    /// The entry at the given position, oldest first.
    pub fn entry_at(&self, i: usize) -> (e: &DirEntry)
        requires
            i < self@.len(),
        ensures
            e@ == self@[i as int],
    {
        &self.entries[i]
    }

    /// The position of the first entry named `name`, if any.
    fn find_index(&self, name: &PathSegment) -> (r: Option<usize>)
        ensures
            match r {
                Some(i) => i == dir_find(self@, name@) && i < self@.len(),
                None => dir_find(self@, name@) < 0,
            },
    {
        let n = self.entries.len();
        let mut i: usize = 0;
        while i < n
            invariant
                n == self@.len(),
                i <= n,
                forall|j: int| 0 <= j < i ==> (#[trigger] self@[j].0) != name@,
            decreases n - i,
        {
            if self.entries[i].name.matches(name) {
                proof {
                    assert(self@[i as int].0 == name@);
                    lemma_dir_find(self@, name@);
                    let f = dir_find(self@, name@);
                    if f < 0 {
                        assert(self@[i as int].0 != name@);
                    } else if f < i {
                        assert(self@[f].0 != name@);
                    } else if f > i {
                        assert(self@[i as int].0 != name@);
                    }
                }
                return Some(i);
            }
            i += 1;
        }
        proof {
            lemma_dir_find(self@, name@);
        }
        None
    }

    /// Looks up the target mapped by `name`; absence is reported as `None`,
    /// never as a default identifier.
    pub fn get_entry(&self, name: &PathSegment) -> (r: Option<&Cid>)
        ensures
            match r {
                Some(c) => dir_lookup(self@, name@) == Some(c@),
                None => dir_lookup(self@, name@) is None,
            },
    {
        match self.find_index(name) {
            Some(i) => Some(&self.entries[i].target),
            None => None,
        }
    }

    /// A new snapshot with `name` mapped to `target`: replacing an existing
    /// entry keeps its position, a fresh one is appended at the end.
    pub fn with_entry(&self, name: &PathSegment, target: &Cid) -> (d: Directory)
        requires
            name.wf(),
            target.wf(),
        ensures
            d@ == dir_with_entry(self@, name@, target@),
            self.wf() ==> d.wf(),
    {
        proof {
            lemma_dir_find(self@, name@);
        }
        let mut out = self.clone_entries();
        let fresh = DirEntry { name: name.clone(), target: target.clone() };
        match self.find_index(name) {
            Some(i) => {
                out.set(i, fresh);
                let d = Directory { entries: out };
                proof {
                    assert(d@ =~= dir_with_entry(self@, name@, target@));
                    if self.wf() {
                        assert forall|a: int, b: int|
                            0 <= a < b < d@.len() implies (#[trigger] d@[a].0)
                            != (#[trigger] d@[b].0) by {
                            assert(self@[a].0 != self@[b].0);
                        }
                    }
                }
                d
            },
            None => {
                out.push(fresh);
                let d = Directory { entries: out };
                proof {
                    assert(d@ =~= dir_with_entry(self@, name@, target@));
                    if self.wf() {
                        assert forall|a: int, b: int|
                            0 <= a < b < d@.len() implies (#[trigger] d@[a].0)
                            != (#[trigger] d@[b].0) by {
                            if b < self@.len() {
                                assert(self@[a].0 != self@[b].0);
                            } else {
                                assert(self@[a].0 != name@);
                            }
                        }
                    }
                }
                d
            },
        }
    }

    /// A new snapshot with `name` freshly mapped to `target`: a name already
    /// present is rejected with `PathExists` — `with_entry` is the explicit
    /// overwrite.
    pub fn add_entry(&self, name: &PathSegment, target: &Cid) -> (r: FsResult<Directory>)
        requires
            name.wf(),
            target.wf(),
        ensures
            r is Ok <==> dir_lookup(self@, name@) is None,
            r matches Ok(d) ==> d@ == self@.push((name@, target@)) && (self.wf() ==> d.wf()),
            r matches Err(e) ==> (e matches FsError::PathExists(m) && m@ == name@),
    {
        proof {
            lemma_dir_find(self@, name@);
        }
        match self.get_entry(name) {
            Some(_) => Err(FsError::PathExists(name.as_str().to_owned())),
            None => Ok(self.with_entry(name, target)),
        }
    }

    /// A new snapshot with the entry named `name` removed; removing an absent
    /// name returns an unchanged snapshot.
    pub fn without_entry(&self, name: &PathSegment) -> (d: Directory)
        ensures
            d@ == dir_without_entry(self@, name@),
            self.wf() ==> d.wf(),
    {
        proof {
            lemma_dir_find(self@, name@);
        }
        match self.find_index(name) {
            Some(i) => {
                let mut out = self.clone_entries();
                out.remove(i);
                let d = Directory { entries: out };
                proof {
                    assert(d@ =~= dir_without_entry(self@, name@));
                    if self.wf() {
                        assert forall|a: int, b: int|
                            0 <= a < b < d@.len() implies (#[trigger] d@[a].0)
                            != (#[trigger] d@[b].0) by {
                            let sa = if a < i { a } else { a + 1 };
                            let sb = if b < i { b } else { b + 1 };
                            assert(d@[a] == self@[sa] && d@[b] == self@[sb]);
                            assert(self@[sa].0 != self@[sb].0);
                        }
                    }
                }
                d
            },
            None => {
                let d = Directory { entries: self.clone_entries() };
                proof {
                    assert(d@ =~= dir_without_entry(self@, name@));
                }
                d
            },
        }
    }

    /// A copy of the entry vector.
    fn clone_entries(&self) -> (out: Vec<DirEntry>)
        ensures
            out@.map_values(|e: DirEntry| e@) == self@,
            out@.len() == self@.len(),
    {
        let n = self.entries.len();
        let mut out: Vec<DirEntry> = Vec::new();
        let mut i: usize = 0;
        while i < n
            invariant
                n == self.entries@.len(),
                i <= n,
                out@.len() == i,
                out@.map_values(|e: DirEntry| e@) == self@.take(i as int),
            decreases n - i,
        {
            out.push(self.entries[i].clone());
            i += 1;
            proof {
                assert(out@.map_values(|e: DirEntry| e@) =~= self@.take(i as int));
            }
        }
        proof {
            assert(self@.take(n as int) =~= self@);
        }
        out
    }
}

impl Entity {
    /// An entity is well formed exactly when its value is.
    pub open spec fn wf(&self) -> bool {
        entity_wf(self@)
    }

    /// The discriminant of this entity.
    pub fn kind(&self) -> (k: EntityKind)
        ensures
            k == EntityKind::File <==> self@ is File,
            k == EntityKind::Directory <==> self@ is Directory,
            k == EntityKind::CidLink <==> self@ is CidLink,
            k == EntityKind::PathLink <==> self@ is PathLink,
    {
        match self {
            Entity::File(_) => EntityKind::File,
            Entity::Directory(_) => EntityKind::Directory,
            Entity::CidLink(_) => EntityKind::CidLink,
            Entity::PathLink(_) => EntityKind::PathLink,
        }
    }
}

} // verus!
