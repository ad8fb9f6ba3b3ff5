//! Bounded FIFO of blocks awaiting scan.
//!
//! The queue is the only channel between the fetch side and the scan
//! side. It holds at most `MAXIMUM_SYNC_QUEUE_SIZE` blocks — a full
//! queue is backpressure, not an error to the user — and it accepts
//! blocks only at the exact next height, so a fetch gap is caught at
//! the push and re-fetched instead of silently skipped. Heights pop
//! in strictly increasing order.
use vstd::prelude::*;

use crate::types::{PreparedBlock, WalletError};
use crate::MAXIMUM_SYNC_QUEUE_SIZE;

verus! {

pub struct SyncQueue {
    pub entries: Vec<PreparedBlock>,
    pub next_expected: u64,
    pub has_popped: bool,
    pub last_popped: u64,
}

impl SyncQueue {
    /// The queue never outgrows its bound, holds contiguous heights
    /// ending just below `next_expected`, and everything still queued
    /// is above the last height handed out.
    pub open spec fn wf(&self) -> bool {
        &&& self.entries@.len() <= MAXIMUM_SYNC_QUEUE_SIZE
        &&& self.next_expected >= self.entries@.len()
        &&& forall|i: int|
            0 <= i < self.entries@.len() ==> (#[trigger] self.entries@[i]).block.height
                == self.next_expected - self.entries@.len() + i
        &&& self.has_popped ==> self.next_expected - self.entries@.len() > self.last_popped
    }

    /// An empty queue that will accept `start` as its first height.
    pub fn new(start: u64) -> (r: Self)
        ensures
            r.wf(),
            r.entries@.len() == 0,
            r.next_expected == start,
            !r.has_popped,
    {
        SyncQueue { entries: Vec::new(), next_expected: start, has_popped: false, last_popped: 0 }
    }

    pub fn len(&self) -> (r: usize)
        ensures
            r == self.entries@.len(),
    {
        self.entries.len()
    }

    /// Accept the next block. A full queue reports `QueueFull`
    /// (backpressure: retry after the scanner drains it); a height
    /// other than the expected one reports `HeightGap` with the
    /// height that must be fetched instead.
    pub fn push(&mut self, pb: PreparedBlock) -> (r: Result<(), WalletError>)
        requires
            old(self).wf(),
            pb.block.height < u64::MAX,
        ensures
            final(self).wf(),
            old(self).entries@.len() >= MAXIMUM_SYNC_QUEUE_SIZE ==> r == Err::<(), WalletError>(
                WalletError::QueueFull,
            ) && *final(self) == *old(self),
            old(self).entries@.len() < MAXIMUM_SYNC_QUEUE_SIZE && pb.block.height != old(
                self,
            ).next_expected ==> r == Err::<(), WalletError>(
                WalletError::HeightGap(old(self).next_expected),
            ) && *final(self) == *old(self),
            old(self).entries@.len() < MAXIMUM_SYNC_QUEUE_SIZE && pb.block.height == old(
                self,
            ).next_expected ==> r == Ok::<(), WalletError>(()) && final(self).entries@ == old(
                self,
            ).entries@.push(pb) && final(self).next_expected == old(self).next_expected + 1
                && final(self).has_popped == old(self).has_popped && final(self).last_popped == old(
                self,
            ).last_popped,
    {
        if self.entries.len() >= MAXIMUM_SYNC_QUEUE_SIZE {
            return Err(WalletError::QueueFull);
        }
        if pb.block.height != self.next_expected {
            return Err(WalletError::HeightGap(self.next_expected));
        }
        self.entries.push(pb);
        self.next_expected = self.next_expected + 1;
        Ok(())
    }

    /// Hand out the oldest queued block, if any. A popped height is
    /// always strictly above every height popped before it.
    pub fn pop(&mut self) -> (r: Option<PreparedBlock>)
        requires
            old(self).wf(),
        ensures
            final(self).wf(),
            old(self).entries@.len() == 0 ==> r is None && *final(self) == *old(self),
            old(self).entries@.len() > 0 ==> {
                &&& r == Some(old(self).entries@[0])
                &&& final(self).entries@ == old(self).entries@.skip(1)
                &&& final(self).next_expected == old(self).next_expected
                &&& final(self).has_popped
                &&& final(self).last_popped == old(self).entries@[0].block.height
                &&& old(self).has_popped ==> old(self).entries@[0].block.height > old(
                    self,
                ).last_popped
            },
    {
        if self.entries.len() == 0 {
            return None;
        }
        let pb = self.entries.remove(0);
        self.has_popped = true;
        self.last_popped = pb.block.height;
        proof {
            assert(self.entries@ =~= old(self).entries@.skip(1));
        }
        Some(pb)
    }
}

} // verus!
