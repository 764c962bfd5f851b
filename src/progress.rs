//! Progress reports toward whoever watches the pipeline. Delivery is best
//! effort: watchers must tolerate missed or reordered reports.

use vstd::prelude::*;

verus! {

/// One progress report of a resource.
#[derive(Debug)]
pub enum ProgressEvent {
    Download { file_name: String, downloaded: u64, total_size: u64 },
    Checksum { file_name: String, hashed: u64, total_size: u64 },
    Decompression { file_name: String, compressed_read: u64, total_compressed_size: u64 },
}

/// Counts the bytes that passed through a stream, against a size known or
/// guessed in advance (zero when unknown).
pub struct ByteCounter {
    count: u64,
    total: u64,
}

impl ByteCounter {
    pub closed spec fn counted(&self) -> nat {
        self.count as nat
    }

    pub closed spec fn expected_total(&self) -> u64 {
        self.total
    }

    pub fn new(total: u64) -> (r: Self)
        ensures
            r.counted() == 0,
            r.expected_total() == total,
    {
        ByteCounter { count: 0, total }
    }

    /// Bytes counted so far.
    pub fn count(&self) -> (r: u64)
        ensures
            r == self.counted(),
    {
        self.count
    }

    /// Counts a chunk of `n` bytes; returns the bytes counted so far and the
    /// total, to be reported after every chunk.
    pub fn add(&mut self, n: u64) -> (r: (u64, u64))
        requires
            old(self).counted() + n <= u64::MAX,
        ensures
            final(self).counted() == old(self).counted() + n,
            final(self).expected_total() == old(self).expected_total(),
            r == (final(self).counted() as u64, old(self).expected_total()),
    {
        self.count = self.count + n;
        (self.count, self.total)
    }

    /// Counts a read of `n` bytes; a read that returned nothing is not
    /// reported.
    pub fn record_read(&mut self, n: u64) -> (r: Option<(u64, u64)>)
        requires
            old(self).counted() + n <= u64::MAX,
        ensures
            final(self).counted() == old(self).counted() + n,
            final(self).expected_total() == old(self).expected_total(),
            n == 0 ==> r is None,
            n > 0 ==> r == Some((final(self).counted() as u64, old(self).expected_total())),
    {
        if n == 0 {
            None
        } else {
            Some(self.add(n))
        }
    }
}

} // verus!
