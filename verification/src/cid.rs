//! Content identifiers.
//!
//! A CID is the fixed-length content hash of an entity's serialized form.
//! Two CIDs are equal exactly when they identify byte-identical serialized
//! content; the hash itself is computed by an outside digest and is only
//! named here, never restated.

use sha2::{Digest, Sha256};
use vstd::prelude::*;
use vstd::string::StringExecFns;

use crate::error::{FsError, FsResult};

verus! {

/// The length, in bytes, of every content identifier.
pub const CID_LENGTH: usize = 32;

/// The digest that turns serialized content into an identifier. Its value on
/// given bytes is not stated; it is a fixed function of the bytes alone.
pub uninterp spec fn digest_of(bytes: Seq<u8>) -> Seq<u8>;

/// Relies on sha2's SHA-256: the digest depends on the input bytes alone and
/// is 32 bytes long.
#[verifier::external_body]
pub(crate) fn sha256(bytes: &Vec<u8>) -> (r: Vec<u8>)
    ensures
        r@ == digest_of(bytes@),
        r@.len() == CID_LENGTH,
{
    Sha256::digest(bytes.as_slice()).to_vec()
}

/// A content identifier: the digest of an entity's serialized bytes.
#[derive(Debug, PartialEq, Eq)]
pub struct Cid {
    bytes: Vec<u8>,
}

impl View for Cid {
    type V = Seq<u8>;

    closed spec fn view(&self) -> Seq<u8> {
        self.bytes@
    }
}

impl Clone for Cid {
    fn clone(&self) -> (r: Self)
        ensures
            r@ == self@,
    {
        Cid { bytes: copy_bytes(&self.bytes) }
    }
}

impl Cid {
    /// An identifier is well formed exactly when it has the fixed length.
    pub open spec fn wf(&self) -> bool {
        self@.len() == CID_LENGTH
    }

    /// Accepts exactly the byte strings of the fixed identifier length.
    pub fn from_bytes(bytes: Vec<u8>) -> (r: FsResult<Cid>)
        ensures
            r is Ok <==> bytes@.len() == CID_LENGTH,
            r matches Ok(c) ==> c@ == bytes@ && c.wf(),
            r matches Err(e) ==> e matches FsError::CidError(_),
    {
        if bytes.len() == CID_LENGTH {
            Ok(Cid { bytes })
        } else {
            Err(FsError::CidError(String::from_str("wrong identifier length")))
        }
    }

    /// Wraps bytes already known to have the identifier length.
    pub(crate) fn from_exact(bytes: Vec<u8>) -> (c: Cid)
        requires
            bytes@.len() == CID_LENGTH,
        ensures
            c@ == bytes@,
            c.wf(),
    {
        Cid { bytes }
    }

    /// Builds the identifier of the given serialized content.
    pub fn of_content(bytes: &Vec<u8>) -> (r: Cid)
        ensures
            r@ == digest_of(bytes@),
            r.wf(),
    {
        Cid { bytes: sha256(bytes) }
    }

    /// The identifier's bytes.
    pub fn as_bytes(&self) -> (r: &Vec<u8>)
        ensures
            r@ == self@,
    {
        &self.bytes
    }

    /// Whether two identifiers name the same content.
    pub fn eq_cid(&self, other: &Cid) -> (b: bool)
        ensures
            b == (self@ == other@),
    {
        bytes_eq(&self.bytes, &other.bytes)
    }
}

/// Whether two byte vectors hold the same bytes.
pub(crate) fn bytes_eq(a: &Vec<u8>, b: &Vec<u8>) -> (r: bool)
    ensures
        r == (a@ == b@),
{
    if a.len() != b.len() {
        return false;
    }
    let n = a.len();
    let mut i: usize = 0;
    while i < n
        invariant
            n == a@.len() == b@.len(),
            i <= n,
            forall|j: int| 0 <= j < i ==> a@[j] == b@[j],
        decreases n - i,
    {
        if a[i] != b[i] {
            return false;
        }
        i += 1;
    }
    proof {
        assert(a@ =~= b@);
    }
    true
}

/// A copy of the given bytes.
pub(crate) fn copy_bytes(a: &Vec<u8>) -> (r: Vec<u8>)
    ensures
        r@ == a@,
{
    let mut out: Vec<u8> = Vec::new();
    let n = a.len();
    let mut i: usize = 0;
    while i < n
        invariant
            n == a@.len(),
            i <= n,
            out@ == a@.take(i as int),
        decreases n - i,
    {
        out.push(a[i]);
        i += 1;
        proof {
            assert(out@ =~= a@.take(i as int));
        }
    }
    proof {
        assert(a@.take(n as int) =~= a@);
    }
    out
}

} // verus!
