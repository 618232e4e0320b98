//! Locating the MFS root: an upward walk from an arbitrary directory,
//! looking for the mount-metadata marker, bounded by a maximum depth.
//!
//! Whether the marker exists in a directory is outside work; the walk hands
//! out the directory to probe, is told the answer, and either stops at the
//! root it found, ascends, or classifies the failure.

use vstd::prelude::*;

use crate::error::FsError;
use crate::hostpath::{spec_path_string, HostPath};

verus! {

/// What one probe of the current directory leads to.
#[derive(Debug)]
pub enum SearchStep {
    /// The marker is here: this directory is the MFS root.
    Found(HostPath),
    /// Not here: the search moved to the parent directory.
    Ascend,
    /// The depth budget ran out, or the filesystem root was reached.
    Failed(FsError),
}

/// The upward search for the mount-metadata marker.
#[derive(Debug)]
pub struct RootSearch {
    /// The directory to probe next.
    pub current: HostPath,
    /// How many more directories may be probed.
    pub depth_left: u32,
    /// The depth budget the search began with.
    pub max_depth: u32,
    /// The display form of the directory the search began from.
    pub start_display: String,
}

impl RootSearch {
    /// A search starting at `start` with a budget of `max_depth` probes.
    pub fn new(start: HostPath, max_depth: u32) -> (s: RootSearch)
        ensures
            s.current@ == start@,
            s.depth_left == max_depth,
            s.max_depth == max_depth,
            s.start_display@ == spec_path_string(start@),
    {
        let start_display = start.display();
        RootSearch { current: start, depth_left: max_depth, max_depth, start_display }
    }

    /// The directory whose marker should be probed next.
    pub fn current_dir(&self) -> (p: &HostPath)
        ensures
            p@ == self.current@,
    {
        &self.current
    }

    /// Consumes one probe answer. The marker ends the search at the current
    /// directory; an exhausted budget fails with the full depth budget and
    /// starting path; running out at the filesystem root fails
    /// `NoMfsRootFound`; otherwise the search ascends one directory.
    pub fn step(&mut self, marker_present: bool) -> (r: SearchStep)
        requires
            old(self).depth_left <= old(self).max_depth,
        ensures
            final(self).max_depth == old(self).max_depth,
            final(self).start_display == old(self).start_display,
            final(self).depth_left <= final(self).max_depth,
            marker_present ==> (r matches SearchStep::Found(p) && p@ == old(self).current@
                && final(self).current@ == old(self).current@
                && final(self).depth_left == old(self).depth_left),
            !marker_present && old(self).depth_left == 0 ==> (r matches SearchStep::Failed(e)
                && (e matches FsError::MaxMfsRootSearchDepthReached { max_depth, path }
                && max_depth == old(self).max_depth && path@ == old(self).start_display@)),
            !marker_present && old(self).depth_left > 0 && old(self).current@.len() == 0 ==> (r
                matches SearchStep::Failed(e) && (e matches FsError::NoMfsRootFound(p)
                && p@ == old(self).start_display@)),
            !marker_present && old(self).depth_left > 0 && old(self).current@.len() > 0 ==> (r
                is Ascend && final(self).current@ == old(self).current@.drop_last()
                && final(self).depth_left == old(self).depth_left - 1),
    {
        if marker_present {
            SearchStep::Found(self.current.clone())
        } else if self.depth_left == 0 {
            SearchStep::Failed(
                FsError::MaxMfsRootSearchDepthReached {
                    max_depth: self.max_depth,
                    path: self.start_display.clone(),
                },
            )
        } else if self.current.is_root() {
            SearchStep::Failed(FsError::NoMfsRootFound(self.start_display.clone()))
        } else {
            let parent = self.current.parent();
            self.current = parent;
            self.depth_left = self.depth_left - 1;
            SearchStep::Ascend
        }
    }
}

} // verus!
