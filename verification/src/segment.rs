//! Validated path components.
//!
//! A path is an ordered sequence of [`PathSegment`]s; a segment is accepted
//! only if it is non-empty, free of the path separator, and neither `.` nor
//! `..`.

use vstd::prelude::*;
use vstd::string::StrSliceExecFns;

use crate::error::{FsError, FsResult};

verus! {

/// Whether a character sequence is acceptable as a single path component.
pub open spec fn valid_segment(s: Seq<char>) -> bool {
    &&& s.len() > 0
    &&& (forall|i: int| 0 <= i < s.len() ==> s[i] != '/')
    &&& s != seq!['.']
    &&& s != seq!['.', '.']
}

/// A single validated component of a path.
#[derive(Debug, PartialEq, Eq)]
pub struct PathSegment {
    name: String,
}

impl View for PathSegment {
    type V = Seq<char>;

    closed spec fn view(&self) -> Seq<char> {
        self.name@
    }
}

impl Clone for PathSegment {
    fn clone(&self) -> (r: Self)
        ensures
            r@ == self@,
    {
        PathSegment { name: self.name.clone() }
    }
}

impl PathSegment {
    /// A segment value is well formed exactly when its characters pass
    /// validation.
    pub open spec fn wf(&self) -> bool {
        valid_segment(self@)
    }

    /// Validates `name` as a path component; an invalid one is rejected with
    /// `InvalidPathComponent` before any entity is touched.
    pub fn new(name: &str) -> (r: FsResult<PathSegment>)
        ensures
            r is Ok <==> valid_segment(name@),
            r matches Ok(seg) ==> seg@ == name@,
            r matches Err(e) ==> e matches FsError::InvalidPathComponent(m) && m@ == name@,
    {
        let n = name.unicode_len();
        let mut has_separator = false;
        let mut i: usize = 0;
        while i < n
            invariant
                n == name@.len(),
                i <= n,
                has_separator <==> exists|j: int| 0 <= j < i && name@[j] == '/',
            decreases n - i,
        {
            if name.get_char(i) == '/' {
                has_separator = true;
            }
            i += 1;
        }
        let is_dot = n == 1 && name.get_char(0) == '.';
        let is_dot_dot = n == 2 && name.get_char(0) == '.' && name.get_char(1) == '.';
        proof {
            if is_dot {
                assert(name@ =~= seq!['.']);
            }
            if is_dot_dot {
                assert(name@ =~= seq!['.', '.']);
            }
            if name@ == seq!['.'] {
                assert(name@[0] == '.');
            }
            if name@ == seq!['.', '.'] {
                assert(name@[0] == '.' && name@[1] == '.');
            }
        }
        if n == 0 || has_separator || is_dot || is_dot_dot {
            Err(FsError::InvalidPathComponent(name.to_owned()))
        } else {
            Ok(PathSegment { name: name.to_owned() })
        }
    }

    /// The component as a string slice.
    pub fn as_str(&self) -> (r: &str)
        ensures
            r@ == self@,
    {
        self.name.as_str()
    }

    /// Whether two segments are the same component.
    pub fn matches(&self, other: &PathSegment) -> (b: bool)
        ensures
            b == (self@ == other@),
    {
        self.name == other.name
    }
}

} // verus!
