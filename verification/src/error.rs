//! The unified error type of the filesystem core.
//!
//! Validation errors are raised before any entity is touched; resolution
//! errors come out of walking the entity graph; orchestration errors abort a
//! mount or detach in progress. Errors from outside collaborators are carried
//! as their preserved messages.

use vstd::prelude::*;

use crate::cid::Cid;
use crate::segment::PathSegment;

verus! {

/// The result of a filesystem operation.
pub type FsResult<T> = Result<T, FsError>;

/// An error that occurred during a filesystem operation.
#[derive(Debug, PartialEq, Eq)]
pub enum FsError {
    /// The entity at the given description is not a file.
    NotAFile(String),
    /// The entity at the given description is not a directory.
    NotADirectory(String),
    /// The entity at the given description is not a CID link.
    NotASymCidLink(String),
    /// The entity at the given description is not a path link.
    NotASymPathLink(String),
    /// No entry exists for the given path component.
    PathNotFound(String),
    /// An error carried over from elsewhere, kept as its message.
    Custom(AnyError),
    /// A serialized entity began with an unknown variant tag.
    InvalidEntityFlag(u8),
    /// A path component failed validation.
    InvalidPathComponent(String),
    /// Traversing through a CID link mid-path is an explicit capability gap;
    /// the remaining path is carried for diagnosis.
    SymCidLinkNotSupportedYet(Vec<PathSegment>),
    /// A link's search path was empty.
    InvalidSearchPathEmpty,
    /// The entity at the given CID could not be loaded.
    UnableToLoadEntity(Cid),
    /// A path carried a root marker where a relative path was required.
    PathHasRoot(String),
    /// The source of a directory-level operation is not a directory.
    SourceIsNotADir(String),
    /// The target of a directory-level operation is not a directory.
    TargetIsNotADir(String),
    /// A path that was required to be fresh already exists.
    PathExists(String),
    /// The input path held no segments.
    PathIsEmpty,
    /// The link-follow budget was exhausted.
    MaxFollowDepthReached,
    /// A CID link's target is absent from the store.
    BrokenSymCidLink(Cid),
    /// The requested operation is not valid in this state.
    InvalidOperation(String),
    /// An I/O error, kept as its message.
    IoError(String),
    /// A database error, kept as its message.
    Database(String),
    /// A database migration error, kept as its message.
    MigrationError(String),
    /// A serialized entity was structurally malformed.
    DecodeError(String),
    /// A content identifier had the wrong shape.
    CidError(String),
    /// The mount directory holds entries and cannot be mounted over.
    MountPointNotEmpty(String),
    /// The host mount primitive failed.
    MountFailed(String),
    /// The host unmount primitive failed.
    UnmountFailed(String),
    /// Every port of the scanned range was taken.
    NoAvailablePorts {
        /// The host the ports were tried on.
        host: String,
        /// The first port of the range.
        start: u32,
        /// The last port of the range.
        end: u32,
    },
    /// An error reported by the serving subprocess machinery.
    SupervisorError(String),
    /// The serving subprocess binary is missing.
    MfsrunBinaryNotFound {
        /// The path that was checked.
        path: String,
        /// Where the path came from: "environment variable" or "default path".
        src: String,
    },
    /// The upward search for the filesystem root ran out of depth budget.
    MaxMfsRootSearchDepthReached {
        /// The maximum depth that was allowed.
        max_depth: u32,
        /// The path the search started from.
        path: String,
    },
    /// No filesystem root marker was found in the ancestry.
    NoMfsRootFound(String),
}

/// An error that can stand for any outside error, kept as its message.
#[derive(Debug, Clone, PartialEq, Eq)]
pub struct AnyError {
    message: String,
}

impl View for AnyError {
    type V = Seq<char>;

    closed spec fn view(&self) -> Seq<char> {
        self.message@
    }
}

impl AnyError {
    /// Wraps a message taken from an outside error.
    pub fn new(message: String) -> (r: AnyError)
        ensures
            r@ == message@,
    {
        AnyError { message }
    }

    /// The preserved message of the wrapped error. The dynamic error value
    /// itself is not retained, so its message is the one view on offer.
    pub fn downcast(&self) -> (r: &String)
        ensures
            r@ == self@,
    {
        &self.message
    }
}

impl FsError {
    /// Wraps an outside error's message as a `Custom` error.
    pub fn custom(message: String) -> (r: FsError)
        ensures
            r matches FsError::Custom(a) && a@ == message@,
    {
        FsError::Custom(AnyError { message })
    }
}

/// Wraps a value as a successful `FsResult`.
pub fn ok<T>(value: T) -> (r: FsResult<T>)
    ensures
        r == FsResult::<T>::Ok(value),
{
    Result::Ok(value)
}

} // verus!
