//! A content-addressed filesystem core: immutable entities (files,
//! directories, CID links and path links), a deterministic byte codec with
//! content-derived identifiers, a path resolver that follows links under a
//! bounded depth budget, and the pure decision logic behind mounting and
//! detaching a filesystem instance.

pub mod cid;
pub mod codec;
pub mod entity;
pub mod error;
pub mod hostpath;
pub mod mount;
pub mod ports;
pub mod resolver;
pub mod rootfind;
pub mod segment;
pub mod store;
pub mod strutil;

use vstd::prelude::*;

verus! {

/// The host on which the serving subprocess listens by default.
pub const DEFAULT_HOST: &'static str = "127.0.0.1";

/// The first port tried when allocating a port for the serving subprocess.
pub const DEFAULT_NFS_PORT: u32 = 2049;

} // verus!
