//! The upload sink: counts the bytes of an inbound stream.
//!
//! The embedding program reads the transport and reports each received
//! chunk's length through [`UploadSink::observe`]; when the stream ends
//! cleanly it reads the total. A transport read error means the operation is
//! abandoned and no total is reported — a partial count never stands for a
//! completed upload.
use vstd::prelude::*;

verus! {

/// Running byte count of one inbound upload stream. The payload itself is
/// never retained.
pub struct UploadSink {
    total: u64,
}

impl UploadSink {
    /// A fresh sink has seen no bytes.
    pub fn new() -> (r: UploadSink)
        ensures
            r.total_spec() == 0,
    {
        UploadSink { total: 0 }
    }

    /// The count of bytes observed so far.
    pub closed spec fn total_spec(&self) -> u64 {
        self.total
    }

    /// Records one received chunk of `n` bytes. The caller keeps the running
    /// total within `u64`, which any real stream does.
    pub fn observe(&mut self, n: u64)
        requires
            old(self).total_spec() + n <= u64::MAX,
        ensures
            final(self).total_spec() == old(self).total_spec() + n,
    {
        self.total = self.total + n;
    }

    /// The total number of bytes received, reported once the stream has been
    /// read to exhaustion.
    pub fn total(&self) -> (r: u64)
        ensures
            r == self.total_spec(),
    {
        self.total
    }
}

} // verus!
