//! Port allocation: a bounded forward scan for the first port that can be
//! bound on a host.
//!
//! Binding itself is outside work; the scan hands out candidates in order,
//! is told which failed, and classifies an exhausted range.

use vstd::prelude::*;

use crate::error::FsError;

verus! {

/// A scan over the ports `start..=end` of one host, in order.
#[derive(Debug)]
pub struct PortScan {
    /// The host the ports are tried on.
    pub host: String,
    /// The first port of the range.
    pub start: u32,
    /// The last port of the range.
    pub end: u32,
    /// The next port to try; one past `end` once the range is exhausted.
    pub next: u32,
}

impl PortScan {
    /// The scan never leaves its range and the range never overflows.
    pub open spec fn wf(&self) -> bool {
        self.start <= self.next <= self.end + 1 && self.end < u32::MAX
    }

    /// A scan over `start..=end`, beginning at `start`.
    pub fn new(host: String, start: u32, end: u32) -> (s: PortScan)
        requires
            start <= end,
            end < u32::MAX,
        ensures
            s.wf(),
            s.host@ == host@,
            s.start == start,
            s.end == end,
            s.next == start,
    {
        PortScan { host, start, end, next: start }
    }

    /// The next port to try, if the range is not yet exhausted.
    pub fn candidate(&self) -> (c: Option<u32>)
        requires
            self.wf(),
        ensures
            c == if self.next <= self.end {
                Some(self.next)
            } else {
                None::<u32>
            },
    {
        if self.next <= self.end {
            Some(self.next)
        } else {
            None
        }
    }

    /// Records that the current candidate could not be bound and moves on.
    pub fn mark_unavailable(&mut self)
        requires
            old(self).wf(),
            old(self).next <= old(self).end,
        ensures
            final(self).wf(),
            final(self).next == old(self).next + 1,
            final(self).host == old(self).host,
            final(self).start == old(self).start,
            final(self).end == old(self).end,
    {
        self.next = self.next + 1;
    }

    /// The failure of an exhausted range, carrying the host and both ends.
    pub fn exhausted_error(&self) -> (e: FsError)
        ensures
            e matches FsError::NoAvailablePorts { host, start, end } && host@ == self.host@ && start
                == self.start && end == self.end,
    {
        FsError::NoAvailablePorts {
            host: self.host.clone(),
            start: self.start,
            end: self.end,
        }
    }
}

} // verus!
