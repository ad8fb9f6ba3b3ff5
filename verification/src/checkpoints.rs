//! Bounded ring of recently confirmed block-hash checkpoints.
//!
//! Checkpoints anchor sync progress and let the engine detect chain
//! reorganizations: on reconnect the daemon's view of the chain is
//! compared against the stored (height, hash) pairs, newest first,
//! and sync resumes above the highest pair both sides agree on.
use vstd::prelude::*;

use crate::types::Checkpoint;
use crate::{BLOCK_HASH_CHECKPOINTS_INTERVAL, LAST_KNOWN_BLOCK_HASHES_SIZE};

verus! {

pub struct CheckpointTracker {
    pub checkpoints: Vec<Checkpoint>,
}

/// Whether the daemon's reported chain carries exactly this
/// (height, hash) pair.
pub open spec fn spec_chain_matches(daemon: Seq<Checkpoint>, cp: Checkpoint) -> bool {
    exists|i: int| 0 <= i < daemon.len() && daemon[i] == cp
}

impl CheckpointTracker {
    /// At most `LAST_KNOWN_BLOCK_HASHES_SIZE` entries, at strictly
    /// increasing heights, every height on the checkpoint interval.
    pub open spec fn wf(&self) -> bool {
        &&& self.checkpoints@.len() <= LAST_KNOWN_BLOCK_HASHES_SIZE
        &&& forall|i: int, j: int|
            0 <= i < j < self.checkpoints@.len() ==> (#[trigger] self.checkpoints@[i]).height < (
            #[trigger] self.checkpoints@[j]).height
        &&& forall|i: int|
            0 <= i < self.checkpoints@.len() ==> (#[trigger] self.checkpoints@[i]).height
                % BLOCK_HASH_CHECKPOINTS_INTERVAL == 0
    }

    /// The newest recorded height, or `None` while empty.
    pub open spec fn spec_newest_height(&self) -> Option<u64> {
        if self.checkpoints@.len() == 0 {
            None
        } else {
            Some(self.checkpoints@[self.checkpoints@.len() - 1].height)
        }
    }

    pub fn new() -> (r: Self)
        ensures
            r.wf(),
            r.checkpoints@.len() == 0,
    {
        CheckpointTracker { checkpoints: Vec::new() }
    }

    pub fn len(&self) -> (r: usize)
        ensures
            r == self.checkpoints@.len(),
    {
        self.checkpoints.len()
    }

    /// Record a checkpoint. It is stored only when the height sits on
    /// the checkpoint interval and is newer than everything recorded;
    /// when capacity is exceeded the oldest entry is evicted, ring
    /// fashion.
    pub fn record(&mut self, height: u64, hash: u64) -> (inserted: bool)
        requires
            old(self).wf(),
        ensures
            final(self).wf(),
            inserted == (height % BLOCK_HASH_CHECKPOINTS_INTERVAL == 0 && (match old(
                self,
            ).spec_newest_height() {
                None => true,
                Some(newest) => height > newest,
            })),
            !inserted ==> *final(self) == *old(self),
            inserted ==> final(self).checkpoints@ == (if old(self).checkpoints@.len()
                >= LAST_KNOWN_BLOCK_HASHES_SIZE {
                old(self).checkpoints@.skip(1)
            } else {
                old(self).checkpoints@
            }).push(Checkpoint { height, hash }),
    {
        if height % BLOCK_HASH_CHECKPOINTS_INTERVAL != 0 {
            return false;
        }
        if self.checkpoints.len() > 0 {
            let newest = self.checkpoints[self.checkpoints.len() - 1].height;
            if height <= newest {
                return false;
            }
        }
        if self.checkpoints.len() >= LAST_KNOWN_BLOCK_HASHES_SIZE {
            self.checkpoints.remove(0);
            proof {
                assert(self.checkpoints@ =~= old(self).checkpoints@.skip(1));
            }
        }
        self.checkpoints.push(Checkpoint { height, hash });
        true
    }

    /// Drop every checkpoint above `height`. Checkpoints are sorted,
    /// so what stays is exactly the prefix at or below `height`.
    pub fn truncate_above(&mut self, height: u64) -> (kept: usize)
        requires
            old(self).wf(),
        ensures
            final(self).wf(),
            0 <= kept <= old(self).checkpoints@.len(),
            final(self).checkpoints@ == old(self).checkpoints@.take(kept as int),
            forall|i: int|
                0 <= i < kept ==> (#[trigger] old(self).checkpoints@[i]).height <= height,
            forall|i: int|
                kept <= i < old(self).checkpoints@.len() ==> (
                #[trigger] old(self).checkpoints@[i]).height > height,
    {
        let mut k: usize = 0;
        while k < self.checkpoints.len() && self.checkpoints[k].height <= height
            invariant
                0 <= k <= self.checkpoints@.len(),
                self.wf(),
                forall|i: int|
                    0 <= i < k ==> (#[trigger] self.checkpoints@[i]).height <= height,
            decreases self.checkpoints@.len() - k,
        {
            k += 1;
        }
        proof {
            if k < self.checkpoints@.len() {
                assert forall|i: int| k <= i < self.checkpoints@.len() implies (
                #[trigger] self.checkpoints@[i]).height > height by {
                    if i > k {
                        assert(self.checkpoints@[k as int].height < self.checkpoints@[i].height);
                    }
                }
            }
        }
        self.checkpoints.truncate(k);
        proof {
            assert(self.checkpoints@ =~= old(self).checkpoints@.take(k as int));
        }
        k
    }

    /// Forget every checkpoint (full-rescan recovery).
    pub fn clear(&mut self)
        ensures
            final(self).wf(),
            final(self).checkpoints@.len() == 0,
    {
        self.checkpoints.clear();
    }

    /// Walk the stored checkpoints newest to oldest and report the
    /// highest height at which the daemon's chain still carries the
    /// recorded hash. `None` means no stored checkpoint survives on
    /// the daemon's chain and only a full rescan from the wallet's
    /// creation height can recover.
    pub fn find_divergence(&self, daemon: &Vec<Checkpoint>) -> (r: Option<u64>)
        requires
            self.wf(),
        ensures
            match r {
                Some(h) => exists|i: int|
                    0 <= i < self.checkpoints@.len() && (#[trigger] self.checkpoints@[i]).height
                        == h && spec_chain_matches(daemon@, self.checkpoints@[i]) && (forall|j: int|
                        i < j < self.checkpoints@.len() ==> !spec_chain_matches(
                            daemon@,
                            #[trigger] self.checkpoints@[j],
                        )),
                None => forall|i: int|
                    0 <= i < self.checkpoints@.len() ==> !spec_chain_matches(
                        daemon@,
                        #[trigger] self.checkpoints@[i],
                    ),
            },
    {
        let mut i: usize = self.checkpoints.len();
        while i > 0
            invariant
                0 <= i <= self.checkpoints@.len(),
                forall|j: int|
                    i <= j < self.checkpoints@.len() ==> !spec_chain_matches(
                        daemon@,
                        #[trigger] self.checkpoints@[j],
                    ),
            decreases i,
        {
            i -= 1;
            let cp = self.checkpoints[i];
            if chain_matches(daemon, cp) {
                return Some(cp.height);
            }
        }
        None
    }
}

/// Exact membership of a checkpoint in a reported chain.
pub fn chain_matches(daemon: &Vec<Checkpoint>, cp: Checkpoint) -> (r: bool)
    ensures
        r == spec_chain_matches(daemon@, cp),
{
    let mut i: usize = 0;
    while i < daemon.len()
        invariant
            0 <= i <= daemon@.len(),
            forall|j: int| 0 <= j < i ==> daemon@[j] != cp,
        decreases daemon@.len() - i,
    {
        if daemon[i].height == cp.height && daemon[i].hash == cp.hash {
            assert(daemon@[i as int] == cp);
            return true;
        }
        i += 1;
    }
    false
}

} // verus!
