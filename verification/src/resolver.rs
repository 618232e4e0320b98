//! Path resolution against the entity graph.
//!
//! Resolution consumes segments left to right, looks each one up in the
//! current directory, and dereferences links under a follow-depth budget:
//! a path link re-enters resolution at the filesystem root with its stored
//! path, a CID link is followed only in terminal position — traversing
//! through one mid-path is an explicit capability gap — and the terminal
//! entity is returned as-is unless link-following was requested.
//! Resolution only reads; it never changes the graph.

use vstd::prelude::*;
use vstd::string::StringExecFns;

use crate::cid::Cid;
use crate::entity::{dir_lookup, Directory, Entity, EntityV, PathLink};
use crate::error::{FsError, FsResult};
use crate::segment::PathSegment;
use crate::store::MemoryStore;

verus! {

/// The classified failures of resolution.
pub enum ResolveErr {
    /// The input path held no segments.
    PathIsEmpty,
    /// The entity at this identifier could not be loaded.
    UnableToLoad(Seq<u8>),
    /// This component is absent from its directory.
    PathNotFound(Seq<char>),
    /// A component was looked up in something other than a directory.
    NotADirectory,
    /// A CID link stood mid-path with these segments left to traverse.
    SymCidLinkNotSupportedYet(Seq<Seq<char>>),
    /// The follow budget ran out.
    MaxFollowDepthReached,
    /// A followed CID link pointed at this absent identifier.
    BrokenSymCidLink(Seq<u8>),
    /// A path link carried a root marker where a relative path was required.
    PathHasRoot,
    /// A path link carried an empty search path.
    InvalidSearchPathEmpty,
}

/// What resolution yields: a terminal entity with its identifier, or a
/// classified failure.
pub enum ROut {
    /// The identifier and value of the terminal entity.
    Found(Seq<u8>, EntityV),
    /// The classified failure.
    Fail(ResolveErr),
}

/// One resolution step down the graph, as a mathematical function.
pub open spec fn spec_resolve(
    g: Map<Seq<u8>, EntityV>,
    rootc: Seq<u8>,
    cur: Seq<u8>,
    segs: Seq<Seq<char>>,
    depth: nat,
    follow: bool,
) -> ROut
    decreases depth, segs.len(),
{
    if !g.contains_key(cur) {
        ROut::Fail(ResolveErr::UnableToLoad(cur))
    } else {
        match g[cur] {
            EntityV::Directory(entries) => {
                if segs.len() == 0 {
                    ROut::Found(cur, g[cur])
                } else {
                    match dir_lookup(entries, segs[0]) {
                        None => ROut::Fail(ResolveErr::PathNotFound(segs[0])),
                        Some(child) => spec_resolve(
                            g,
                            rootc,
                            child,
                            segs.drop_first(),
                            depth,
                            follow,
                        ),
                    }
                }
            },
            EntityV::File(_) => {
                if segs.len() == 0 {
                    ROut::Found(cur, g[cur])
                } else {
                    ROut::Fail(ResolveErr::NotADirectory)
                }
            },
            EntityV::CidLink(t) => {
                if segs.len() > 0 {
                    ROut::Fail(ResolveErr::SymCidLinkNotSupportedYet(segs))
                } else if !follow {
                    ROut::Found(cur, g[cur])
                } else if depth == 0 {
                    ROut::Fail(ResolveErr::MaxFollowDepthReached)
                } else if !g.contains_key(t) {
                    ROut::Fail(ResolveErr::BrokenSymCidLink(t))
                } else {
                    spec_resolve(g, rootc, t, segs, (depth - 1) as nat, follow)
                }
            },
            EntityV::PathLink(has_root, p) => {
                if segs.len() == 0 && !follow {
                    ROut::Found(cur, g[cur])
                } else if depth == 0 {
                    ROut::Fail(ResolveErr::MaxFollowDepthReached)
                } else if has_root {
                    ROut::Fail(ResolveErr::PathHasRoot)
                } else if p.len() == 0 {
                    ROut::Fail(ResolveErr::InvalidSearchPathEmpty)
                } else {
                    spec_resolve(g, rootc, rootc, p + segs, (depth - 1) as nat, follow)
                }
            },
        }
    }
}

/// Resolution of a whole path from the root: an empty input is rejected
/// before the graph is touched.
pub open spec fn spec_resolve_path(
    g: Map<Seq<u8>, EntityV>,
    rootc: Seq<u8>,
    segs: Seq<Seq<char>>,
    depth: nat,
    follow: bool,
) -> ROut {
    if segs.len() == 0 {
        ROut::Fail(ResolveErr::PathIsEmpty)
    } else {
        spec_resolve(g, rootc, rootc, segs, depth, follow)
    }
}

/// Whether an error value carries the classified failure.
pub open spec fn err_matches(e: FsError, v: ResolveErr) -> bool {
    match v {
        ResolveErr::PathIsEmpty => e is PathIsEmpty,
        ResolveErr::UnableToLoad(c) => e matches FsError::UnableToLoadEntity(cc) && cc@ == c,
        ResolveErr::PathNotFound(s) => e matches FsError::PathNotFound(m) && m@ == s,
        ResolveErr::NotADirectory => e matches FsError::NotADirectory(_),
        ResolveErr::SymCidLinkNotSupportedYet(ss) => e matches FsError::SymCidLinkNotSupportedYet(
            rest,
        ) && rest@.map_values(|x: PathSegment| x@) == ss,
        ResolveErr::MaxFollowDepthReached => e is MaxFollowDepthReached,
        ResolveErr::BrokenSymCidLink(c) => e matches FsError::BrokenSymCidLink(cc) && cc@ == c,
        ResolveErr::PathHasRoot => e matches FsError::PathHasRoot(_),
        ResolveErr::InvalidSearchPathEmpty => e is InvalidSearchPathEmpty,
    }
}

/// Whether an executable result carries the outcome of the specification.
pub open spec fn resolve_matches(r: FsResult<(Cid, Entity)>, o: ROut) -> bool {
    match r {
        Ok(p) => o matches ROut::Found(cs, ev) && p.0@ == cs && p.1@ == ev,
        Err(err) => o matches ROut::Fail(v) && err_matches(err, v),
    }
}

/// Whether the graph holds no links at all.
pub open spec fn link_free(g: Map<Seq<u8>, EntityV>) -> bool {
    forall|c: Seq<u8>|
        g.contains_key(c) ==> !((#[trigger] g[c]) is CidLink) && !(g[c] is PathLink)
}

/// The plain walk of a directory tree: each component is looked up in the
/// current directory, an absent component fails `PathNotFound`, and the
/// entity stored at the exhausted path is returned.
pub open spec fn spec_tree_walk(g: Map<Seq<u8>, EntityV>, cur: Seq<u8>, segs: Seq<Seq<char>>) -> ROut
    decreases segs.len(),
{
    if !g.contains_key(cur) {
        ROut::Fail(ResolveErr::UnableToLoad(cur))
    } else if segs.len() == 0 {
        ROut::Found(cur, g[cur])
    } else {
        match g[cur] {
            EntityV::Directory(entries) => {
                match dir_lookup(entries, segs[0]) {
                    None => ROut::Fail(ResolveErr::PathNotFound(segs[0])),
                    Some(child) => spec_tree_walk(g, child, segs.drop_first()),
                }
            },
            _ => ROut::Fail(ResolveErr::NotADirectory),
        }
    }
}

/// With no links present, resolution — at any depth budget and with either
/// terminal mode — is exactly the plain tree walk: it returns the entity
/// stored at the path, and fails `PathNotFound` exactly when a traversed
/// directory lacks the next component.
pub proof fn lemma_resolve_no_links(
    g: Map<Seq<u8>, EntityV>,
    rootc: Seq<u8>,
    cur: Seq<u8>,
    segs: Seq<Seq<char>>,
    depth: nat,
    follow: bool,
)
    requires
        link_free(g),
    ensures
        spec_resolve(g, rootc, cur, segs, depth, follow) == spec_tree_walk(g, cur, segs),
    decreases segs.len(),
{
    if g.contains_key(cur) {
        match g[cur] {
            EntityV::Directory(entries) => {
                if segs.len() > 0 {
                    match dir_lookup(entries, segs[0]) {
                        Some(child) => {
                            lemma_resolve_no_links(g, rootc, child, segs.drop_first(), depth, follow);
                        },
                        None => {},
                    }
                }
            },
            EntityV::File(_) => {},
            EntityV::CidLink(_) => {
                assert(!(g[cur] is CidLink));
            },
            EntityV::PathLink(_, _) => {
                assert(!(g[cur] is PathLink));
            },
        }
    }
}

/// Following a chain of CID links whose length is within the remaining
/// budget ends at the final, non-link entity; a chain one longer than the
/// budget fails `MaxFollowDepthReached`.
pub proof fn lemma_cid_link_chain(
    g: Map<Seq<u8>, EntityV>,
    rootc: Seq<u8>,
    cs: Seq<Seq<u8>>,
    depth: nat,
)
    requires
        cs.len() >= 1,
        forall|k: int| 0 <= k < cs.len() ==> g.contains_key(#[trigger] cs[k]),
        forall|k: int|
            0 <= k < cs.len() - 1 ==> (#[trigger] g[cs[k]]) == EntityV::CidLink(cs[k + 1]),
        !(g[cs[cs.len() - 1]] is CidLink),
        !(g[cs[cs.len() - 1]] is PathLink),
    ensures
        cs.len() - 1 <= depth ==> spec_resolve(g, rootc, cs[0], Seq::empty(), depth, true)
            == ROut::Found(cs[cs.len() - 1], g[cs[cs.len() - 1]]),
        cs.len() - 1 == depth + 1 ==> spec_resolve(g, rootc, cs[0], Seq::empty(), depth, true)
            == ROut::Fail(ResolveErr::MaxFollowDepthReached),
    decreases cs.len(),
{
    if cs.len() == 1 {
    } else {
        assert(g[cs[0]] == EntityV::CidLink(cs[1]));
        if depth == 0 {
            assert(spec_resolve(g, rootc, cs[0], Seq::empty(), depth, true) == ROut::Fail(
                ResolveErr::MaxFollowDepthReached,
            ));
        } else {
            let rest = cs.drop_first();
            assert(rest.len() == cs.len() - 1);
            assert(forall|k: int| 0 <= k < rest.len() ==> rest[k] == cs[k + 1]);
            assert(rest[rest.len() - 1] == cs[cs.len() - 1]);
            assert forall|k: int| 0 <= k < rest.len() - 1 implies (#[trigger] g[rest[k]])
                == EntityV::CidLink(rest[k + 1]) by {
                assert(g[cs[k + 1]] == EntityV::CidLink(cs[k + 2]));
            }
            lemma_cid_link_chain(g, rootc, rest, (depth - 1) as nat);
        }
    }
}

/// A followed CID link whose target is absent from the store always fails
/// `BrokenSymCidLink` with that target — never a default value — as soon as
/// one follow step is allowed.
pub proof fn lemma_broken_cid_link(
    g: Map<Seq<u8>, EntityV>,
    rootc: Seq<u8>,
    c: Seq<u8>,
    t: Seq<u8>,
    depth: nat,
)
    requires
        g.contains_key(c),
        g[c] == EntityV::CidLink(t),
        !g.contains_key(t),
        depth >= 1,
    ensures
        spec_resolve(g, rootc, c, Seq::empty(), depth, true) == ROut::Fail(
            ResolveErr::BrokenSymCidLink(t),
        ),
{
}

/// Appends copies of `segments[i..]` to `out`.
fn clone_segments_from(segments: &Vec<PathSegment>, i: usize, out: &mut Vec<PathSegment>)
    requires
        i <= segments@.len(),
    ensures
        final(out)@.map_values(|x: PathSegment| x@) == old(out)@.map_values(|x: PathSegment| x@)
            + segments@.map_values(|x: PathSegment| x@).skip(i as int),
    decreases segments@.len() - i,
{
    if i == segments.len() {
        proof {
            assert(out@.map_values(|x: PathSegment| x@) =~= out@.map_values(|x: PathSegment| x@)
                + segments@.map_values(|x: PathSegment| x@).skip(i as int));
        }
    } else {
        out.push(segments[i].clone());
        let ghost mid = out@.map_values(|x: PathSegment| x@);
        proof {
            assert(mid =~= old(out)@.map_values(|x: PathSegment| x@) + seq![segments@[i as int]@]);
        }
        clone_segments_from(segments, i + 1, out);
        proof {
            let sv = segments@.map_values(|x: PathSegment| x@);
            assert(sv.skip(i as int)[0] == sv[i as int]);
            assert(sv.skip(i as int).drop_first() =~= sv.skip(i as int + 1));
            assert(mid + sv.skip(i as int + 1) =~= old(out)@.map_values(|x: PathSegment| x@) + (
            seq![sv[i as int]] + sv.skip(i as int + 1)));
            assert(seq![sv[i as int]] + sv.skip(i as int + 1) =~= sv.skip(i as int));
        }
    }
}

fn resolve_at(
    store: &MemoryStore,
    rootc: &Cid,
    cur: &Cid,
    segments: &Vec<PathSegment>,
    i: usize,
    depth: u32,
    follow: bool,
) -> (r: FsResult<(Cid, Entity)>)
    requires
        store.wf(),
        i <= segments@.len(),
    ensures
        resolve_matches(
            r,
            spec_resolve(
                store@,
                rootc@,
                cur@,
                segments@.map_values(|x: PathSegment| x@).skip(i as int),
                depth as nat,
                follow,
            ),
        ),
    decreases depth, segments@.len() - i,
{
    let ghost sv = segments@.map_values(|x: PathSegment| x@).skip(i as int);
    let loaded = match store.get_entity(cur) {
        Ok(e) => e,
        Err(err) => {
            return Err(err);
        },
    };
    match loaded {
        Entity::Directory(d) => {
            if i == segments.len() {
                proof {
                    assert(sv.len() == 0);
                }
                Ok((cur.clone(), Entity::Directory(d)))
            } else {
                proof {
                    assert(sv[0] == segments@.map_values(|x: PathSegment| x@)[i as int]);
                }
                match d.get_entry(&segments[i]) {
                    None => Err(FsError::PathNotFound(segments[i].as_str().to_owned())),
                    Some(child) => {
                        let child_cid = child.clone();
                        proof {
                            assert(sv.drop_first() =~= segments@.map_values(
                                |x: PathSegment| x@,
                            ).skip(i as int + 1));
                        }
                        resolve_at(store, rootc, &child_cid, segments, i + 1, depth, follow)
                    },
                }
            }
        },
        Entity::File(f) => {
            if i == segments.len() {
                proof {
                    assert(sv.len() == 0);
                }
                Ok((cur.clone(), Entity::File(f)))
            } else {
                Err(FsError::NotADirectory(String::from_str("component is a file")))
            }
        },
        Entity::CidLink(t) => {
            if i < segments.len() {
                let mut rest: Vec<PathSegment> = Vec::new();
                clone_segments_from(segments, i, &mut rest);
                proof {
                    assert(rest@.map_values(|x: PathSegment| x@) =~= sv);
                }
                Err(FsError::SymCidLinkNotSupportedYet(rest))
            } else if !follow {
                Ok((cur.clone(), Entity::CidLink(t)))
            } else if depth == 0 {
                Err(FsError::MaxFollowDepthReached)
            } else if !store.has(&t) {
                Err(FsError::BrokenSymCidLink(t))
            } else {
                resolve_at(store, rootc, &t, segments, i, depth - 1, follow)
            }
        },
        Entity::PathLink(p) => {
            if i == segments.len() && !follow {
                proof {
                    assert(sv.len() == 0);
                }
                Ok((cur.clone(), Entity::PathLink(p)))
            } else if depth == 0 {
                Err(FsError::MaxFollowDepthReached)
            } else if p.has_root {
                Err(FsError::PathHasRoot(String::from_str("search path is absolute")))
            } else if p.segments.len() == 0 {
                Err(FsError::InvalidSearchPathEmpty)
            } else {
                let mut joined: Vec<PathSegment> = Vec::new();
                clone_segments_from(&p.segments, 0, &mut joined);
                clone_segments_from(segments, i, &mut joined);
                proof {
                    let pv = p.segments@.map_values(|x: PathSegment| x@);
                    assert(pv.skip(0) =~= pv);
                    assert(joined@.map_values(|x: PathSegment| x@).skip(0) =~= pv + sv);
                }
                resolve_at(store, rootc, rootc, &joined, 0, depth - 1, follow)
            }
        },
    }
}

/// Resolves `segments` against the directory tree rooted at `root`,
/// following links under the `max_depth` budget; the terminal entity is
/// dereferenced only when `follow_last` asks for it. The outcome — the
/// terminal entity and its identifier, or the classified failure — is
/// exactly that of the resolution function on the store's graph.
pub fn resolve_path(
    store: &MemoryStore,
    root: &Cid,
    segments: &Vec<PathSegment>,
    follow_last: bool,
    max_depth: u32,
) -> (r: FsResult<(Cid, Entity)>)
    requires
        store.wf(),
    ensures
        resolve_matches(
            r,
            spec_resolve_path(
                store@,
                root@,
                segments@.map_values(|x: PathSegment| x@),
                max_depth as nat,
                follow_last,
            ),
        ),
{
    if segments.len() == 0 {
        return Err(FsError::PathIsEmpty);
    }
    proof {
        assert(segments@.map_values(|x: PathSegment| x@).skip(0) =~= segments@.map_values(
            |x: PathSegment| x@,
        ));
    }
    resolve_at(store, root, root, segments, 0, max_depth, follow_last)
}

} // verus!
