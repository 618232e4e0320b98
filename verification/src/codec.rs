//! The deterministic byte layout of entities, and the identifier derived
//! from it.
//!
//! Every entity serializes to a tag byte followed by its payload; lengths
//! are little-endian 64-bit counts and component names are sequences of
//! 32-bit character scalars. Decoding rejects unknown tags and structurally
//! malformed layouts, and reproduces exactly the value that was encoded.

use vstd::prelude::*;
use vstd::string::{StrSliceExecFns, StringExecFns};
use vstd::utf8::{char_is_scalar, char_u32_cast, is_scalar};

use crate::cid::{digest_of, Cid, CID_LENGTH};
use crate::entity::{
    dir_entries_wf, dir_lookup, dir_with_entry, entity_wf, lemma_dir_find, dir_find, DirEntry,
    Directory, Entity, EntityV, File, PathLink,
};
use crate::error::{FsError, FsResult};
use crate::segment::{valid_segment, PathSegment};

verus! {

/// The little-endian bytes of a 64-bit count.
pub open spec fn u64_le(x: u64) -> Seq<u8> {
    seq![
        (x & 0xff) as u8,
        ((x >> 8) & 0xff) as u8,
        ((x >> 16) & 0xff) as u8,
        ((x >> 24) & 0xff) as u8,
        ((x >> 32) & 0xff) as u8,
        ((x >> 40) & 0xff) as u8,
        ((x >> 48) & 0xff) as u8,
        ((x >> 56) & 0xff) as u8,
    ]
}

/// The 64-bit count read from the first eight bytes.
pub open spec fn le_u64(b: Seq<u8>) -> u64
    recommends
        b.len() >= 8,
{
    (b[0] as u64) | ((b[1] as u64) << 8) | ((b[2] as u64) << 16) | ((b[3] as u64) << 24) | (
    (b[4] as u64) << 32) | ((b[5] as u64) << 40) | ((b[6] as u64) << 48) | ((b[7] as u64) << 56)
}

/// The little-endian bytes of a character scalar.
pub open spec fn u32_le(x: u32) -> Seq<u8> {
    seq![(x & 0xff) as u8, ((x >> 8) & 0xff) as u8, ((x >> 16) & 0xff) as u8, ((x >> 24) & 0xff) as u8]
}

/// The 32-bit scalar read from the first four bytes.
pub open spec fn le_u32(b: Seq<u8>) -> u32
    recommends
        b.len() >= 4,
{
    (b[0] as u32) | ((b[1] as u32) << 8) | ((b[2] as u32) << 16) | ((b[3] as u32) << 24)
}

proof fn lemma_u64_round(x: u64)
    ensures
        le_u64(u64_le(x)) == x,
{
    assert((((x & 0xff) as u8) as u64) | (((((x >> 8) & 0xff) as u8) as u64) << 8) | (((((x >> 16)
        & 0xff) as u8) as u64) << 16) | (((((x >> 24) & 0xff) as u8) as u64) << 24) | (((((x >> 32)
        & 0xff) as u8) as u64) << 32) | (((((x >> 40) & 0xff) as u8) as u64) << 40) | (((((x >> 48)
        & 0xff) as u8) as u64) << 48) | (((((x >> 56) & 0xff) as u8) as u64) << 56) == x)
        by (bit_vector);
}

proof fn lemma_u32_round(x: u32)
    ensures
        le_u32(u32_le(x)) == x,
{
    assert((((x & 0xff) as u8) as u32) | (((((x >> 8) & 0xff) as u8) as u32) << 8) | (((((x >> 16)
        & 0xff) as u8) as u32) << 16) | (((((x >> 24) & 0xff) as u8) as u32) << 24) == x)
        by (bit_vector);
}

/// The encoding of a name's characters, one 32-bit scalar each.
pub open spec fn encode_chars(s: Seq<char>) -> Seq<u8>
    decreases s.len(),
{
    if s.len() == 0 {
        Seq::empty()
    } else {
        u32_le(s[0] as u32) + encode_chars(s.drop_first())
    }
}

/// The encoding of a component name: its character count, then its
/// characters.
pub open spec fn encode_name(s: Seq<char>) -> Seq<u8> {
    u64_le(s.len() as u64) + encode_chars(s)
}

/// The encoding of a sequence of names.
pub open spec fn encode_names(ss: Seq<Seq<char>>) -> Seq<u8>
    decreases ss.len(),
{
    if ss.len() == 0 {
        Seq::empty()
    } else {
        encode_name(ss[0]) + encode_names(ss.drop_first())
    }
}

/// The encoding of directory entries: each a name, then a fixed-length
/// identifier.
pub open spec fn encode_entries(es: Seq<(Seq<char>, Seq<u8>)>) -> Seq<u8>
    decreases es.len(),
{
    if es.len() == 0 {
        Seq::empty()
    } else {
        encode_name(es[0].0) + es[0].1 + encode_entries(es.drop_first())
    }
}

/// The serialized form of an entity.
pub open spec fn spec_encode(v: EntityV) -> Seq<u8> {
    match v {
        EntityV::File(c) => seq![0u8] + u64_le(c.len() as u64) + c,
        EntityV::Directory(es) => seq![1u8] + u64_le(es.len() as u64) + encode_entries(es),
        EntityV::CidLink(t) => seq![2u8] + t,
        EntityV::PathLink(has_root, ss) => seq![3u8] + seq![
            if has_root {
                1u8
            } else {
                0u8
            },
        ] + u64_le(ss.len() as u64) + encode_names(ss),
    }
}

/// Whether every count in the value fits the 64-bit length fields of the
/// layout; every value built from in-memory vectors does.
pub open spec fn entity_bounded(v: EntityV) -> bool {
    match v {
        EntityV::File(c) => c.len() <= u64::MAX,
        EntityV::Directory(es) => es.len() <= u64::MAX && forall|i: int|
            0 <= i < es.len() ==> (#[trigger] es[i].0).len() <= u64::MAX,
        EntityV::CidLink(_) => true,
        EntityV::PathLink(_, ss) => ss.len() <= u64::MAX && forall|i: int|
            0 <= i < ss.len() ==> (#[trigger] ss[i]).len() <= u64::MAX,
    }
}

/// Reads a 64-bit count, returning it and the rest of the input.
pub open spec fn dec_u64(b: Seq<u8>) -> Option<(u64, Seq<u8>)> {
    if b.len() >= 8 {
        Some((le_u64(b), b.skip(8)))
    } else {
        None
    }
}

/// Reads `n` characters, returning them and the rest of the input.
pub open spec fn dec_chars(b: Seq<u8>, n: nat) -> Option<(Seq<char>, Seq<u8>)>
    decreases n,
{
    if n == 0 {
        Some((Seq::empty(), b))
    } else if b.len() < 4 {
        None
    } else {
        let v = le_u32(b);
        if !is_scalar(v) {
            None
        } else {
            match dec_chars(b.skip(4), (n - 1) as nat) {
                Some((s, rest)) => Some((seq![v as char] + s, rest)),
                None => None,
            }
        }
    }
}

/// Reads a component name and validates it.
pub open spec fn dec_name(b: Seq<u8>) -> Option<(Seq<char>, Seq<u8>)> {
    match dec_u64(b) {
        Some((n, r1)) => match dec_chars(r1, n as nat) {
            Some((s, rest)) => if valid_segment(s) {
                Some((s, rest))
            } else {
                None
            },
            None => None,
        },
        None => None,
    }
}

/// Reads a fixed-length identifier.
pub open spec fn dec_cid(b: Seq<u8>) -> Option<(Seq<u8>, Seq<u8>)> {
    if b.len() >= CID_LENGTH {
        Some((b.take(CID_LENGTH as int), b.skip(CID_LENGTH as int)))
    } else {
        None
    }
}

/// Reads `n` directory entries.
pub open spec fn dec_entries(b: Seq<u8>, n: nat) -> Option<(Seq<(Seq<char>, Seq<u8>)>, Seq<u8>)>
    decreases n,
{
    if n == 0 {
        Some((Seq::empty(), b))
    } else {
        match dec_name(b) {
            Some((name, r1)) => match dec_cid(r1) {
                Some((cid, r2)) => match dec_entries(r2, (n - 1) as nat) {
                    Some((es, rest)) => Some((seq![(name, cid)] + es, rest)),
                    None => None,
                },
                None => None,
            },
            None => None,
        }
    }
}

/// Reads `n` component names.
pub open spec fn dec_names(b: Seq<u8>, n: nat) -> Option<(Seq<Seq<char>>, Seq<u8>)>
    decreases n,
{
    if n == 0 {
        Some((Seq::empty(), b))
    } else {
        match dec_name(b) {
            Some((name, r1)) => match dec_names(r1, (n - 1) as nat) {
                Some((ss, rest)) => Some((seq![name] + ss, rest)),
                None => None,
            },
            None => None,
        }
    }
}

/// Whether no two entries carry the same name.
pub open spec fn names_unique(es: Seq<(Seq<char>, Seq<u8>)>) -> bool {
    forall|i: int, j: int| 0 <= i < j < es.len() ==> (#[trigger] es[i].0) != (#[trigger] es[j].0)
}

/// The entity a byte string deserializes to, if its layout is sound: a
/// known tag, exact lengths, valid components, no duplicate entry names,
/// and nothing left over.
pub open spec fn spec_decode(b: Seq<u8>) -> Option<EntityV> {
    if b.len() == 0 {
        None
    } else {
        let tag = b[0];
        let rest = b.drop_first();
        if tag == 0 {
            match dec_u64(rest) {
                Some((n, r1)) => if r1.len() == n {
                    Some(EntityV::File(r1))
                } else {
                    None
                },
                None => None,
            }
        } else if tag == 1 {
            match dec_u64(rest) {
                Some((n, r1)) => match dec_entries(r1, n as nat) {
                    Some((es, r2)) => if r2.len() == 0 && names_unique(es) {
                        Some(EntityV::Directory(es))
                    } else {
                        None
                    },
                    None => None,
                },
                None => None,
            }
        } else if tag == 2 {
            if rest.len() == CID_LENGTH {
                Some(EntityV::CidLink(rest))
            } else {
                None
            }
        } else if tag == 3 {
            if rest.len() == 0 || (rest[0] != 0 && rest[0] != 1) {
                None
            } else {
                match dec_u64(rest.drop_first()) {
                    Some((n, r1)) => match dec_names(r1, n as nat) {
                        Some((ss, r2)) => if r2.len() == 0 {
                            Some(EntityV::PathLink(rest[0] == 1, ss))
                        } else {
                            None
                        },
                        None => None,
                    },
                    None => None,
                }
            }
        } else {
            None
        }
    }
}

proof fn lemma_dec_u64_round(x: u64, tail: Seq<u8>)
    ensures
        dec_u64(u64_le(x) + tail) == Some((x, tail)),
{
    let b = u64_le(x) + tail;
    assert(b.len() >= 8);
    assert(b.take(8) =~= u64_le(x));
    assert(le_u64(b) == le_u64(u64_le(x)));
    lemma_u64_round(x);
    assert(b.skip(8) =~= tail);
}

proof fn lemma_dec_chars_round(s: Seq<char>, tail: Seq<u8>)
    ensures
        dec_chars(encode_chars(s) + tail, s.len()) == Some((s, tail)),
    decreases s.len(),
{
    if s.len() == 0 {
        assert(encode_chars(s) + tail =~= tail);
    } else {
        let v = s[0] as u32;
        let b = encode_chars(s) + tail;
        assert(b =~= u32_le(v) + (encode_chars(s.drop_first()) + tail));
        assert(b.len() >= 4);
        assert(le_u32(b) == le_u32(u32_le(v)));
        lemma_u32_round(v);
        char_is_scalar(s[0]);
        char_u32_cast(s[0], v);
        assert(b.skip(4) =~= encode_chars(s.drop_first()) + tail);
        lemma_dec_chars_round(s.drop_first(), tail);
        assert(seq![v as char] + s.drop_first() =~= s);
    }
}

proof fn lemma_dec_name_round(s: Seq<char>, tail: Seq<u8>)
    requires
        s.len() <= u64::MAX,
        valid_segment(s),
    ensures
        dec_name(encode_name(s) + tail) == Some((s, tail)),
{
    let n = s.len() as u64;
    assert(encode_name(s) + tail =~= u64_le(n) + (encode_chars(s) + tail));
    lemma_dec_u64_round(n, encode_chars(s) + tail);
    lemma_dec_chars_round(s, tail);
}

proof fn lemma_dec_entries_round(es: Seq<(Seq<char>, Seq<u8>)>, tail: Seq<u8>)
    requires
        es.len() <= u64::MAX,
        forall|i: int| 0 <= i < es.len() ==> (#[trigger] es[i].0).len() <= u64::MAX,
        forall|i: int| 0 <= i < es.len() ==> valid_segment(#[trigger] es[i].0),
        forall|i: int| 0 <= i < es.len() ==> (#[trigger] es[i].1).len() == CID_LENGTH,
    ensures
        dec_entries(encode_entries(es) + tail, es.len()) == Some((es, tail)),
    decreases es.len(),
{
    if es.len() == 0 {
        assert(encode_entries(es) + tail =~= tail);
    } else {
        let e = es[0];
        let rest_enc = encode_entries(es.drop_first()) + tail;
        assert(encode_entries(es) + tail =~= encode_name(e.0) + (e.1 + rest_enc));
        lemma_dec_name_round(e.0, e.1 + rest_enc);
        assert((e.1 + rest_enc).take(CID_LENGTH as int) =~= e.1);
        assert((e.1 + rest_enc).skip(CID_LENGTH as int) =~= rest_enc);
        lemma_dec_entries_round(es.drop_first(), tail);
        assert(seq![(e.0, e.1)] + es.drop_first() =~= es);
    }
}

proof fn lemma_dec_names_round(ss: Seq<Seq<char>>, tail: Seq<u8>)
    requires
        ss.len() <= u64::MAX,
        forall|i: int| 0 <= i < ss.len() ==> (#[trigger] ss[i]).len() <= u64::MAX,
        forall|i: int| 0 <= i < ss.len() ==> valid_segment(#[trigger] ss[i]),
    ensures
        dec_names(encode_names(ss) + tail, ss.len()) == Some((ss, tail)),
    decreases ss.len(),
{
    if ss.len() == 0 {
        assert(encode_names(ss) + tail =~= tail);
    } else {
        let rest_enc = encode_names(ss.drop_first()) + tail;
        assert(encode_names(ss) + tail =~= encode_name(ss[0]) + rest_enc);
        lemma_dec_name_round(ss[0], rest_enc);
        lemma_dec_names_round(ss.drop_first(), tail);
        assert(seq![ss[0]] + ss.drop_first() =~= ss);
    }
}

/// Round-trip law: decoding a serialized well-formed entity reproduces the
/// same value — hence the same variant tag, and the same identifier once
/// hashed.
#[verifier::rlimit(50)]
pub proof fn lemma_entity_round_trip(v: EntityV)
    requires
        entity_wf(v),
        entity_bounded(v),
    ensures
        spec_decode(spec_encode(v)) == Some(v),
        spec_cid_of(v) == digest_of(spec_encode(v)),
{
    let b = spec_encode(v);
    match v {
        EntityV::File(c) => {
            assert(b[0] == 0);
            assert(b.drop_first() =~= u64_le(c.len() as u64) + c);
            lemma_dec_u64_round(c.len() as u64, c);
        },
        EntityV::Directory(es) => {
            assert(b[0] == 1);
            assert(b.drop_first() =~= u64_le(es.len() as u64) + (encode_entries(es)
                + Seq::<u8>::empty()));
            lemma_dec_u64_round(es.len() as u64, encode_entries(es) + Seq::<u8>::empty());
            lemma_dec_entries_round(es, Seq::<u8>::empty());
            assert(encode_entries(es) + Seq::<u8>::empty() =~= encode_entries(es));
        },
        EntityV::CidLink(t) => {
            assert(b[0] == 2);
            assert(b.drop_first() =~= t);
        },
        EntityV::PathLink(has_root, ss) => {
            assert(b[0] == 3);
            let flag: u8 = if has_root {
                1
            } else {
                0
            };
            assert(b.drop_first() =~= seq![flag] + (u64_le(ss.len() as u64) + encode_names(ss)));
            assert(b.drop_first()[0] == flag);
            assert(b.drop_first().drop_first() =~= u64_le(ss.len() as u64) + (encode_names(ss)
                + Seq::<u8>::empty()));
            lemma_dec_u64_round(ss.len() as u64, encode_names(ss) + Seq::<u8>::empty());
            lemma_dec_names_round(ss, Seq::<u8>::empty());
            assert(encode_names(ss) + Seq::<u8>::empty() =~= encode_names(ss));
        },
    }
}

proof fn lemma_dec_entries_valid(b: Seq<u8>, n: nat)
    ensures
        dec_entries(b, n) matches Some((es, _)) ==> es.len() == n && (forall|i: int|
            0 <= i < es.len() ==> valid_segment(#[trigger] es[i].0)) && (forall|i: int|
            0 <= i < es.len() ==> (#[trigger] es[i].1).len() == CID_LENGTH),
    decreases n,
{
    if n > 0 {
        match dec_name(b) {
            Some((name, r1)) => {
                match dec_cid(r1) {
                    Some((cid, r2)) => {
                        lemma_dec_entries_valid(r2, (n - 1) as nat);
                    },
                    None => {},
                }
            },
            None => {},
        }
    }
}

proof fn lemma_dec_names_valid(b: Seq<u8>, n: nat)
    ensures
        dec_names(b, n) matches Some((ss, _)) ==> ss.len() == n && (forall|i: int|
            0 <= i < ss.len() ==> valid_segment(#[trigger] ss[i])),
    decreases n,
{
    if n > 0 {
        match dec_name(b) {
            Some((name, r1)) => {
                lemma_dec_names_valid(r1, (n - 1) as nat);
            },
            None => {},
        }
    }
}

/// Everything a sound decode hands back is well formed.
proof fn lemma_decode_wf(b: Seq<u8>)
    ensures
        spec_decode(b) matches Some(v) ==> entity_wf(v),
{
    if b.len() > 0 {
        let rest = b.drop_first();
        if b[0] == 1 {
            match dec_u64(rest) {
                Some((n, r1)) => {
                    lemma_dec_entries_valid(r1, n as nat);
                },
                None => {},
            }
        } else if b[0] == 3 {
            if rest.len() > 0 {
                match dec_u64(rest.drop_first()) {
                    Some((n, r1)) => {
                        lemma_dec_names_valid(r1, n as nat);
                    },
                    None => {},
                }
            }
        }
    }
}

/// The identifier of an entity: the digest of its serialized form.
pub open spec fn spec_cid_of(v: EntityV) -> Seq<u8> {
    digest_of(spec_encode(v))
}

/// Updating a directory entry with the target it already maps to yields an
/// identical snapshot — and therefore an identical identifier.
pub proof fn lemma_update_idempotent(
    entries: Seq<(Seq<char>, Seq<u8>)>,
    name: Seq<char>,
    target: Seq<u8>,
)
    requires
        dir_lookup(entries, name) == Some(target),
    ensures
        dir_with_entry(entries, name, target) == entries,
        spec_cid_of(EntityV::Directory(dir_with_entry(entries, name, target))) == spec_cid_of(
            EntityV::Directory(entries),
        ),
{
    lemma_dir_find(entries, name);
    let i = dir_find(entries, name);
    assert(i >= 0);
    assert(entries[i].0 == name && entries[i].1 == target);
    assert(dir_with_entry(entries, name, target) =~= entries);
}

fn push_bytes(out: &mut Vec<u8>, b: &Vec<u8>)
    ensures
        final(out)@ == old(out)@ + b@,
{
    let n = b.len();
    let mut i: usize = 0;
    while i < n
        invariant
            n == b@.len(),
            i <= n,
            out@ == old(out)@ + b@.take(i as int),
        decreases n - i,
    {
        out.push(b[i]);
        i += 1;
        proof {
            assert(out@ =~= old(out)@ + b@.take(i as int));
        }
    }
    proof {
        assert(old(out)@ + b@.take(n as int) =~= old(out)@ + b@);
    }
}

fn push_u64_le(out: &mut Vec<u8>, x: u64)
    ensures
        final(out)@ == old(out)@ + u64_le(x),
{
    out.push((x & 0xff) as u8);
    out.push(((x >> 8) & 0xff) as u8);
    out.push(((x >> 16) & 0xff) as u8);
    out.push(((x >> 24) & 0xff) as u8);
    out.push(((x >> 32) & 0xff) as u8);
    out.push(((x >> 40) & 0xff) as u8);
    out.push(((x >> 48) & 0xff) as u8);
    out.push(((x >> 56) & 0xff) as u8);
    proof {
        assert(out@ =~= old(out)@ + u64_le(x));
    }
}

fn push_u32_le(out: &mut Vec<u8>, x: u32)
    ensures
        final(out)@ == old(out)@ + u32_le(x),
{
    out.push((x & 0xff) as u8);
    out.push(((x >> 8) & 0xff) as u8);
    out.push(((x >> 16) & 0xff) as u8);
    out.push(((x >> 24) & 0xff) as u8);
    proof {
        assert(out@ =~= old(out)@ + u32_le(x));
    }
}

fn push_chars(out: &mut Vec<u8>, s: &str, i: usize)
    requires
        i <= s@.len(),
    ensures
        final(out)@ == old(out)@ + encode_chars(s@.skip(i as int)),
    decreases s@.len() - i,
{
    let n = s.unicode_len();
    if i == n {
        proof {
            assert(old(out)@ + encode_chars(s@.skip(i as int)) =~= old(out)@);
        }
    } else {
        let c = s.get_char(i);
        push_u32_le(out, c as u32);
        push_chars(out, s, i + 1);
        proof {
            let t = s@.skip(i as int);
            assert(t[0] == s@[i as int]);
            assert(t.drop_first() =~= s@.skip(i as int + 1));
            assert(old(out)@ + u32_le(c as u32) + encode_chars(s@.skip(i as int + 1)) =~= old(out)@
                + encode_chars(t));
        }
    }
}

fn push_name(out: &mut Vec<u8>, s: &str)
    ensures
        final(out)@ == old(out)@ + encode_name(s@),
        s@.len() <= u64::MAX,
{
    let n = s.unicode_len();
    push_u64_le(out, n as u64);
    push_chars(out, s, 0);
    proof {
        assert(s@.skip(0) =~= s@);
        assert(old(out)@ + u64_le(s@.len() as u64) + encode_chars(s@) =~= old(out)@ + encode_name(
            s@,
        ));
    }
}

fn push_entries(out: &mut Vec<u8>, entries: &Vec<DirEntry>, i: usize)
    requires
        i <= entries@.len(),
    ensures
        final(out)@ == old(out)@ + encode_entries(
            entries@.map_values(|e: DirEntry| e@).skip(i as int),
        ),
        forall|k: int| i <= k < entries@.len() ==> (#[trigger] entries@[k]).name@.len() <= u64::MAX,
    decreases entries@.len() - i,
{
    let ghost es = entries@.map_values(|e: DirEntry| e@);
    if i == entries.len() {
        proof {
            assert(old(out)@ + encode_entries(es.skip(i as int)) =~= old(out)@);
        }
    } else {
        push_name(out, entries[i].name.as_str());
        push_bytes(out, entries[i].target.as_bytes());
        push_entries(out, entries, i + 1);
        proof {
            let t = es.skip(i as int);
            assert(t[0] == es[i as int]);
            assert(t.drop_first() =~= es.skip(i as int + 1));
            assert(old(out)@ + encode_name(es[i as int].0) + es[i as int].1 + encode_entries(
                es.skip(i as int + 1),
            ) =~= old(out)@ + encode_entries(t));
        }
    }
}

fn push_names(out: &mut Vec<u8>, segments: &Vec<PathSegment>, i: usize)
    requires
        i <= segments@.len(),
    ensures
        final(out)@ == old(out)@ + encode_names(
            segments@.map_values(|s: PathSegment| s@).skip(i as int),
        ),
        forall|k: int| i <= k < segments@.len() ==> (#[trigger] segments@[k])@.len() <= u64::MAX,
    decreases segments@.len() - i,
{
    let ghost ss = segments@.map_values(|s: PathSegment| s@);
    if i == segments.len() {
        proof {
            assert(old(out)@ + encode_names(ss.skip(i as int)) =~= old(out)@);
        }
    } else {
        push_name(out, segments[i].as_str());
        push_names(out, segments, i + 1);
        proof {
            let t = ss.skip(i as int);
            assert(t[0] == ss[i as int]);
            assert(t.drop_first() =~= ss.skip(i as int + 1));
            assert(old(out)@ + encode_name(ss[i as int]) + encode_names(ss.skip(i as int + 1))
                =~= old(out)@ + encode_names(t));
        }
    }
}

/// Serializes an entity to its byte layout.
pub fn encode(e: &Entity) -> (out: Vec<u8>)
    ensures
        out@ == spec_encode(e@),
        entity_bounded(e@),
{
    let mut out: Vec<u8> = Vec::new();
    match e {
        Entity::File(f) => {
            out.push(0);
            push_u64_le(&mut out, f.content.len() as u64);
            push_bytes(&mut out, &f.content);
            proof {
                assert(out@ =~= spec_encode(e@));
            }
        },
        Entity::Directory(d) => {
            out.push(1);
            push_u64_le(&mut out, d.entries.len() as u64);
            push_entries(&mut out, &d.entries, 0);
            proof {
                let es = d.entries@.map_values(|x: DirEntry| x@);
                assert(es.skip(0) =~= es);
                assert(out@ =~= spec_encode(e@));
            }
        },
        Entity::CidLink(c) => {
            out.push(2);
            push_bytes(&mut out, c.as_bytes());
            proof {
                assert(out@ =~= spec_encode(e@));
            }
        },
        Entity::PathLink(p) => {
            out.push(3);
            if p.has_root {
                out.push(1);
            } else {
                out.push(0);
            }
            push_u64_le(&mut out, p.segments.len() as u64);
            push_names(&mut out, &p.segments, 0);
            proof {
                let ss = p.segments@.map_values(|x: PathSegment| x@);
                assert(ss.skip(0) =~= ss);
                assert(out@ =~= spec_encode(e@));
            }
        },
    }
    out
}

/// Relies on char::from_u32: it accepts exactly the Unicode scalar values —
/// neither surrogates nor values past the scalar range — and converts a
/// scalar back to its character.
pub assume_specification[ char::from_u32 ](v: u32) -> (r: Option<char>)
    ensures
        r is Some <==> is_scalar(v),
        r matches Some(c) ==> c as u32 == v,
;

/// Relies on String::push: it appends the given character to the string.
#[verifier::external_body]
fn push_char(s: &mut String, c: char)
    ensures
        final(s)@ == old(s)@.push(c),
{
    s.push(c);
}

fn rd_u64(b: &Vec<u8>, pos: usize) -> (r: Option<(u64, usize)>)
    requires
        pos <= b@.len(),
    ensures
        r is Some <==> dec_u64(b@.skip(pos as int)) is Some,
        r matches Some(vp) ==> vp.1 == pos + 8 && vp.1 <= b@.len() && dec_u64(b@.skip(pos as int))
            == Some((vp.0, b@.skip(vp.1 as int))),
{
    if b.len() - pos < 8 {
        return None;
    }
    let v = (b[pos] as u64) | ((b[pos + 1] as u64) << 8) | ((b[pos + 2] as u64) << 16) | ((b[pos
        + 3] as u64) << 24) | ((b[pos + 4] as u64) << 32) | ((b[pos + 5] as u64) << 40) | ((b[pos
        + 6] as u64) << 48) | ((b[pos + 7] as u64) << 56);
    proof {
        let s = b@.skip(pos as int);
        assert(s.len() >= 8);
        assert(forall|k: int| 0 <= k < 8 ==> s[k] == b@[pos + k]);
        assert(le_u64(s) == v);
        assert(s.skip(8) =~= b@.skip(pos as int + 8));
    }
    Some((v, pos + 8))
}

fn rd_chars_into(b: &Vec<u8>, pos: usize, n: u64, acc: &mut String) -> (r: Option<usize>)
    requires
        pos <= b@.len(),
    ensures
        r is Some <==> dec_chars(b@.skip(pos as int), n as nat) is Some,
        r matches Some(p2) ==> pos <= p2 <= b@.len() && (dec_chars(b@.skip(pos as int), n as nat)
            matches Some(sr) && final(acc)@ == old(acc)@ + sr.0 && b@.skip(p2 as int) == sr.1),
    decreases n,
{
    if n == 0 {
        proof {
            assert(acc@ =~= acc@ + Seq::<char>::empty());
        }
        return Some(pos);
    }
    if b.len() - pos < 4 {
        return None;
    }
    let v = (b[pos] as u32) | ((b[pos + 1] as u32) << 8) | ((b[pos + 2] as u32) << 16) | ((b[pos
        + 3] as u32) << 24);
    proof {
        let s = b@.skip(pos as int);
        assert(forall|k: int| 0 <= k < 4 ==> s[k] == b@[pos + k]);
        assert(le_u32(s) == v);
        assert(s.skip(4) =~= b@.skip(pos as int + 4));
    }
    match char::from_u32(v) {
        None => None,
        Some(c) => {
            push_char(acc, c);
            let ghost mid = acc@;
            let r = rd_chars_into(b, pos + 4, n - 1, acc);
            match r {
                None => None,
                Some(p2) => {
                    proof {
                        char_u32_cast(c, v);
                        let s = b@.skip(pos as int);
                        let sub = dec_chars(s.skip(4), (n - 1) as nat);
                        assert(sub is Some);
                        let sr1 = sub.unwrap();
                        assert(acc@ == mid + sr1.0);
                        assert(mid =~= old(acc)@.push(c));
                        assert(old(acc)@.push(c) + sr1.0 =~= old(acc)@ + (seq![c] + sr1.0));
                        assert(dec_chars(s, n as nat) == Some((seq![c] + sr1.0, sr1.1)));
                    }
                    Some(p2)
                },
            }
        },
    }
}

fn rd_name(b: &Vec<u8>, pos: usize) -> (r: Option<(PathSegment, usize)>)
    requires
        pos <= b@.len(),
    ensures
        r is Some <==> dec_name(b@.skip(pos as int)) is Some,
        r matches Some(sp) ==> pos <= sp.1 <= b@.len() && (dec_name(b@.skip(pos as int))
            matches Some(sr) && sp.0@ == sr.0 && b@.skip(sp.1 as int) == sr.1 && sp.0.wf()),
{
    match rd_u64(b, pos) {
        None => None,
        Some((n, p1)) => {
            let mut name = String::new();
            match rd_chars_into(b, p1, n, &mut name) {
                None => None,
                Some(p2) => {
                    proof {
                        let sr = dec_chars(b@.skip(p1 as int), n as nat).unwrap();
                        assert(name@ =~= sr.0);
                    }
                    match PathSegment::new(name.as_str()) {
                        Ok(seg) => Some((seg, p2)),
                        Err(_) => None,
                    }
                },
            }
        },
    }
}

fn rd_cid(b: &Vec<u8>, pos: usize) -> (r: Option<(Cid, usize)>)
    requires
        pos <= b@.len(),
    ensures
        r is Some <==> dec_cid(b@.skip(pos as int)) is Some,
        r matches Some(cp) ==> cp.1 == pos + CID_LENGTH && cp.1 <= b@.len() && (dec_cid(
            b@.skip(pos as int),
        ) matches Some(sr) && cp.0@ == sr.0 && b@.skip(cp.1 as int) == sr.1 && cp.0.wf()),
{
    let n = b.len();
    if n - pos < CID_LENGTH {
        return None;
    }
    let end = pos + CID_LENGTH;
    let mut raw: Vec<u8> = Vec::new();
    let mut i: usize = pos;
    while i < end
        invariant
            n == b@.len(),
            pos <= i <= end <= n,
            raw@ == b@.subrange(pos as int, i as int),
        decreases end - i,
    {
        raw.push(b[i]);
        i += 1;
        proof {
            assert(raw@ =~= b@.subrange(pos as int, i as int));
        }
    }
    proof {
        let s = b@.skip(pos as int);
        assert(s.take(CID_LENGTH as int) =~= b@.subrange(pos as int, end as int));
        assert(s.skip(CID_LENGTH as int) =~= b@.skip(end as int));
    }
    let cid = Cid::from_exact(raw);
    Some((cid, end))
}

fn rd_entries_into(b: &Vec<u8>, pos: usize, n: u64, acc: &mut Vec<DirEntry>) -> (r: Option<usize>)
    requires
        pos <= b@.len(),
    ensures
        r is Some <==> dec_entries(b@.skip(pos as int), n as nat) is Some,
        r matches Some(p2) ==> pos <= p2 <= b@.len() && (dec_entries(
            b@.skip(pos as int),
            n as nat,
        ) matches Some(sr) && final(acc)@.map_values(|e: DirEntry| e@) == old(acc)@.map_values(
            |e: DirEntry| e@,
        ) + sr.0 && b@.skip(p2 as int) == sr.1),
    decreases n,
{
    if n == 0 {
        proof {
            assert(acc@.map_values(|e: DirEntry| e@) =~= acc@.map_values(|e: DirEntry| e@)
                + Seq::<(Seq<char>, Seq<u8>)>::empty());
        }
        return Some(pos);
    }
    match rd_name(b, pos) {
        None => None,
        Some((name, p1)) => {
            match rd_cid(b, p1) {
                None => None,
                Some((target, p2)) => {
                    acc.push(DirEntry { name, target });
                    let ghost mid = acc@.map_values(|e: DirEntry| e@);
                    let r = rd_entries_into(b, p2, n - 1, acc);
                    match r {
                        None => None,
                        Some(p3) => {
                            proof {
                                let s = b@.skip(pos as int);
                                let nr = dec_name(s).unwrap();
                                let cr = dec_cid(b@.skip(p1 as int)).unwrap();
                                let sub = dec_entries(b@.skip(p2 as int), (n - 1) as nat);
                                assert(sub is Some);
                                let sr1 = sub.unwrap();
                                let f = |e: DirEntry| e@;
                                assert(acc@.map_values(f) == mid + sr1.0);
                                assert(mid =~= old(acc)@.map_values(f) + seq![(nr.0, cr.0)]);
                                assert(old(acc)@.map_values(f) + seq![(nr.0, cr.0)] + sr1.0
                                    =~= old(acc)@.map_values(f) + (seq![(nr.0, cr.0)] + sr1.0));
                            }
                            Some(p3)
                        },
                    }
                },
            }
        },
    }
}

fn rd_names_into(b: &Vec<u8>, pos: usize, n: u64, acc: &mut Vec<PathSegment>) -> (r: Option<usize>)
    requires
        pos <= b@.len(),
    ensures
        r is Some <==> dec_names(b@.skip(pos as int), n as nat) is Some,
        r matches Some(p2) ==> pos <= p2 <= b@.len() && (dec_names(b@.skip(pos as int), n as nat)
            matches Some(sr) && final(acc)@.map_values(|s: PathSegment| s@) == old(
            acc,
        )@.map_values(|s: PathSegment| s@) + sr.0 && b@.skip(p2 as int) == sr.1),
    decreases n,
{
    if n == 0 {
        proof {
            assert(acc@.map_values(|s: PathSegment| s@) =~= acc@.map_values(|s: PathSegment| s@)
                + Seq::<Seq<char>>::empty());
        }
        return Some(pos);
    }
    match rd_name(b, pos) {
        None => None,
        Some((name, p1)) => {
            acc.push(name);
            let ghost mid = acc@.map_values(|s: PathSegment| s@);
            let r = rd_names_into(b, p1, n - 1, acc);
            match r {
                None => None,
                Some(p2) => {
                    proof {
                        let s = b@.skip(pos as int);
                        let nr = dec_name(s).unwrap();
                        let sub = dec_names(b@.skip(p1 as int), (n - 1) as nat);
                        assert(sub is Some);
                        let sr1 = sub.unwrap();
                        let f = |x: PathSegment| x@;
                        assert(acc@.map_values(f) == mid + sr1.0);
                        assert(mid =~= old(acc)@.map_values(f) + seq![nr.0]);
                        assert(old(acc)@.map_values(f) + seq![nr.0] + sr1.0 =~= old(
                            acc,
                        )@.map_values(f) + (seq![nr.0] + sr1.0));
                    }
                    Some(p2)
                },
            }
        },
    }
}

fn names_unique_exec(entries: &Vec<DirEntry>) -> (u: bool)
    ensures
        u == names_unique(entries@.map_values(|e: DirEntry| e@)),
{
    let ghost es = entries@.map_values(|e: DirEntry| e@);
    let n = entries.len();
    let mut i: usize = 0;
    while i < n
        invariant
            n == entries@.len(),
            i <= n,
            es == entries@.map_values(|e: DirEntry| e@),
            forall|a: int, c: int| 0 <= a < c < i ==> (#[trigger] es[a].0) != (#[trigger] es[c].0),
        decreases n - i,
    {
        let mut j: usize = 0;
        while j < i
            invariant
                n == entries@.len(),
                j <= i < n,
                es == entries@.map_values(|e: DirEntry| e@),
                forall|c: int| 0 <= c < j ==> (#[trigger] es[c].0) != es[i as int].0,
            decreases i - j,
        {
            if entries[j].name.matches(&entries[i].name) {
                proof {
                    assert(es[j as int].0 == es[i as int].0);
                }
                return false;
            }
            j += 1;
        }
        i += 1;
    }
    true
}

fn copy_tail(b: &Vec<u8>, pos: usize) -> (out: Vec<u8>)
    requires
        pos <= b@.len(),
    ensures
        out@ == b@.skip(pos as int),
{
    let n = b.len();
    let mut out: Vec<u8> = Vec::new();
    let mut i: usize = pos;
    while i < n
        invariant
            pos <= i <= n,
            n == b@.len(),
            out@ == b@.subrange(pos as int, i as int),
        decreases n - i,
    {
        out.push(b[i]);
        i += 1;
        proof {
            assert(out@ =~= b@.subrange(pos as int, i as int));
        }
    }
    proof {
        assert(b@.subrange(pos as int, n as int) =~= b@.skip(pos as int));
    }
    out
}

/// Deserializes an entity from its byte layout; a sound layout reproduces
/// exactly the value that was encoded, an unknown leading tag is rejected
/// as such, and any other malformation is a decode error.
pub fn decode(bytes: &Vec<u8>) -> (r: FsResult<Entity>)
    ensures
        r is Ok <==> spec_decode(bytes@) is Some,
        r matches Ok(e) ==> spec_decode(bytes@) == Some(e@) && e.wf(),
        bytes@.len() > 0 && bytes@[0] > 3 ==> r == Err::<Entity, FsError>(
            FsError::InvalidEntityFlag(bytes@[0]),
        ),
{
    proof {
        lemma_decode_wf(bytes@);
    }
    if bytes.len() == 0 {
        return Err(FsError::DecodeError(String::from_str("empty input")));
    }
    let tag = bytes[0];
    proof {
        assert(bytes@.drop_first() =~= bytes@.skip(1));
    }
    if tag == 0 {
        match rd_u64(bytes, 1) {
            None => Err(FsError::DecodeError(String::from_str("truncated content length"))),
            Some((n, p)) => {
                if (bytes.len() - p) as u64 == n {
                    let content = copy_tail(bytes, p);
                    Ok(Entity::File(File { content }))
                } else {
                    Err(FsError::DecodeError(String::from_str("content length mismatch")))
                }
            },
        }
    } else if tag == 1 {
        match rd_u64(bytes, 1) {
            None => Err(FsError::DecodeError(String::from_str("truncated entry count"))),
            Some((n, p)) => {
                let mut entries: Vec<DirEntry> = Vec::new();
                match rd_entries_into(bytes, p, n, &mut entries) {
                    None => Err(FsError::DecodeError(String::from_str("malformed entry"))),
                    Some(p2) => {
                        if p2 != bytes.len() {
                            Err(FsError::DecodeError(String::from_str("trailing bytes")))
                        } else if names_unique_exec(&entries) {
                            proof {
                                assert(bytes@.skip(p2 as int) =~= Seq::<u8>::empty());
                            }
                            Ok(Entity::Directory(Directory { entries }))
                        } else {
                            Err(FsError::DecodeError(String::from_str("duplicate entry name")))
                        }
                    },
                }
            },
        }
    } else if tag == 2 {
        match rd_cid(bytes, 1) {
            None => Err(FsError::DecodeError(String::from_str("truncated link target"))),
            Some((target, p)) => {
                if p == bytes.len() {
                    proof {
                        assert(bytes@.skip(1).len() == CID_LENGTH);
                        assert(bytes@.skip(1).take(CID_LENGTH as int) =~= bytes@.skip(1));
                    }
                    Ok(Entity::CidLink(target))
                } else {
                    proof {
                        assert(bytes@.skip(1).len() != CID_LENGTH);
                    }
                    Err(FsError::DecodeError(String::from_str("trailing bytes")))
                }
            },
        }
    } else if tag == 3 {
        if bytes.len() < 2 {
            return Err(FsError::DecodeError(String::from_str("truncated root marker")));
        }
        let flag = bytes[1];
        if flag > 1 {
            return Err(FsError::DecodeError(String::from_str("bad root marker")));
        }
        proof {
            assert(bytes@.skip(1)[0] == bytes@[1]);
            assert(bytes@.skip(1).drop_first() =~= bytes@.skip(2));
        }
        match rd_u64(bytes, 2) {
            None => Err(FsError::DecodeError(String::from_str("truncated segment count"))),
            Some((n, p)) => {
                let mut segments: Vec<PathSegment> = Vec::new();
                match rd_names_into(bytes, p, n, &mut segments) {
                    None => Err(FsError::DecodeError(String::from_str("malformed segment"))),
                    Some(p2) => {
                        if p2 != bytes.len() {
                            Err(FsError::DecodeError(String::from_str("trailing bytes")))
                        } else {
                            proof {
                                assert(bytes@.skip(p2 as int) =~= Seq::<u8>::empty());
                            }
                            Ok(Entity::PathLink(PathLink { has_root: flag == 1, segments }))
                        }
                    },
                }
            },
        }
    } else {
        Err(FsError::InvalidEntityFlag(tag))
    }
}

/// The identifier of an entity: the digest of its serialized bytes.
pub fn cid_of(e: &Entity) -> (c: Cid)
    ensures
        c@ == spec_cid_of(e@),
        c.wf(),
{
    let bytes = encode(e);
    Cid::of_content(&bytes)
}

} // verus!
