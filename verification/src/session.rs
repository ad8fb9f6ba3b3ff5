//! An open wallet: keys, scan state and sync machinery.
//!
//! The session owns the single-writer scan path: blocks enter
//! through the bounded queue in strict height order, each is scanned
//! exactly once, the checkpoint ring advances on the interval, and a
//! chain reorganization rolls the state back to the newest checkpoint
//! the daemon still agrees on, discarding every output above it
//! before rescanning forward.
use vstd::prelude::*;

use crate::checkpoints::CheckpointTracker;
use crate::ledger::{compute_balance, spec_confirmed_sum, spec_unconfirmed_sum, BalanceInfo};
use crate::obscurer::GlobalIndexObscurer;
use crate::queue::SyncQueue;
use crate::scanner::{prepared_well_formed, scan_block, spec_prepared_wf, spec_scan_block};
use crate::store::{ContainerModel, WalletContainer};
use crate::types::{Address, Checkpoint, KeyPair, OwnedOutput, PreparedBlock, WalletError};
use crate::{BLOCK_HASH_CHECKPOINTS_INTERVAL, WALLET_FILE_FORMAT_VERSION};

verus! {

/// The largest multiple of the checkpoint interval at or below `h`.
pub open spec fn spec_last_multiple(h: u64) -> int {
    h - (h % BLOCK_HASH_CHECKPOINTS_INTERVAL)
}

pub struct WalletSession {
    pub view_keys: KeyPair,
    pub spend_keys: KeyPair,
    pub view_only: bool,
    pub salt: u64,
    pub iterations: u64,
    pub creation_height: u64,
    pub creation_hash: u64,
    pub synced_height: u64,
    pub tip_hash: u64,
    pub confirmation_depth: u64,
    pub addresses: Vec<Address>,
    pub outputs: Vec<OwnedOutput>,
    pub tracker: CheckpointTracker,
    pub queue: SyncQueue,
    pub obscurer: GlobalIndexObscurer,
}

/// Copy a list of plain values.
pub(crate) fn copy_vec<T: Copy>(v: &Vec<T>) -> (r: Vec<T>)
    ensures
        r@ == v@,
{
    let mut r: Vec<T> = Vec::new();
    let mut i: usize = 0;
    while i < v.len()
        invariant
            0 <= i <= v@.len(),
            r@ =~= v@.take(i as int),
        decreases v@.len() - i,
    {
        r.push(v[i]);
        proof {
            assert(r@ =~= v@.take(i as int + 1));
        }
        i += 1;
    }
    proof {
        assert(v@.take(v@.len() as int) =~= v@);
    }
    r
}

/// Consecutive checkpoints one interval apart are strictly
/// increasing at any distance.
proof fn lemma_spaced_increasing(cps: Seq<Checkpoint>, i: int, j: int)
    requires
        forall|k: int|
            0 <= k < cps.len() - 1 ==> (#[trigger] cps[k + 1].height) == cps[k].height
                + BLOCK_HASH_CHECKPOINTS_INTERVAL,
        0 <= i < j < cps.len(),
    ensures
        cps[i].height < cps[j].height,
    decreases j - i,
{
    assert(cps[j - 1 + 1].height == cps[j - 1].height + BLOCK_HASH_CHECKPOINTS_INTERVAL);
    if j > i + 1 {
        lemma_spaced_increasing(cps, i, j - 1);
    }
}

/// How the interval arithmetic moves when the synced height steps by
/// one block.
proof fn lemma_multiple_step(s: u64)
    requires
        s < u64::MAX,
    ensures
        ((s as int + 1) % (BLOCK_HASH_CHECKPOINTS_INTERVAL as int) == 0) ==> spec_last_multiple(
            (s + 1) as u64,
        ) == s + 1 && s % BLOCK_HASH_CHECKPOINTS_INTERVAL == BLOCK_HASH_CHECKPOINTS_INTERVAL - 1,
        ((s as int + 1) % (BLOCK_HASH_CHECKPOINTS_INTERVAL as int) != 0) ==> spec_last_multiple(
            (s + 1) as u64,
        ) == spec_last_multiple(s),
{
    let iv = BLOCK_HASH_CHECKPOINTS_INTERVAL as int;
    let x = s as int;
    vstd::arithmetic::div_mod::lemma_fundamental_div_mod(x, iv);
    let q = x / iv;
    let r = x % iv;
    if r < iv - 1 {
        vstd::arithmetic::div_mod::lemma_fundamental_div_mod_converse(x + 1, iv, q, r + 1);
    } else {
        vstd::arithmetic::div_mod::lemma_fundamental_div_mod_converse(x + 1, iv, q + 1, 0);
    }
}

/// What a decoded container must satisfy before a session will
/// serve it: a primary address carrying the master keys, a sync
/// point at or after creation with room to advance, and a checkpoint
/// list that is exactly an interval-spaced run ending at the last
/// multiple the sync crossed.
pub open spec fn spec_container_acceptable(m: ContainerModel) -> bool {
    &&& 1 <= m.addresses.len() <= 0xffff
    &&& m.addresses[0].spend_public_key == m.spend_keys.public_key
    &&& m.addresses[0].view_public_key == m.view_keys.public_key
    &&& m.creation_height <= m.synced_height
    &&& m.synced_height < u64::MAX
    &&& m.checkpoints.len() <= crate::LAST_KNOWN_BLOCK_HASHES_SIZE
    &&& forall|i: int|
        0 <= i < m.checkpoints.len() ==> (#[trigger] m.checkpoints[i]).height
            % BLOCK_HASH_CHECKPOINTS_INTERVAL == 0 && m.checkpoints[i].height > m.creation_height
    &&& forall|i: int|
        0 <= i < m.checkpoints.len() - 1 ==> (#[trigger] m.checkpoints[i + 1].height)
            == m.checkpoints[i].height + BLOCK_HASH_CHECKPOINTS_INTERVAL
    &&& if m.checkpoints.len() > 0 {
        m.checkpoints.last().height == spec_last_multiple(m.synced_height)
            && spec_last_multiple(m.synced_height) > m.creation_height
    } else {
        spec_last_multiple(m.synced_height) <= m.creation_height
    }
}

impl WalletSession {
    /// Everything the scan path keeps true between steps: the queue
    /// continues exactly at the synced height, its blocks line up
    /// with the wallet's addresses, the primary address carries the
    /// master keys, and the checkpoint ring holds consecutive
    /// interval multiples ending at the last one the sync crossed.
    pub open spec fn wf(&self) -> bool {
        &&& self.tracker.wf()
        &&& self.queue.wf()
        &&& self.queue.next_expected == self.synced_height + 1 + self.queue.entries@.len()
        &&& forall|i: int|
            0 <= i < self.queue.entries@.len() ==> spec_prepared_wf(
                #[trigger] self.queue.entries@[i],
                self.addresses@.len() as int,
            )
        &&& 1 <= self.addresses@.len() <= 0xffff
        &&& self.addresses@[0].spend_public_key == self.spend_keys.public_key
        &&& self.addresses@[0].view_public_key == self.view_keys.public_key
        &&& self.creation_height <= self.synced_height
        &&& forall|i: int|
            0 <= i < self.tracker.checkpoints@.len() ==> (
            #[trigger] self.tracker.checkpoints@[i]).height > self.creation_height
        &&& forall|k: int|
            0 <= k < self.tracker.checkpoints@.len() - 1 ==> (
            #[trigger] self.tracker.checkpoints@[k + 1].height)
                == self.tracker.checkpoints@[k].height + BLOCK_HASH_CHECKPOINTS_INTERVAL
        &&& if self.tracker.checkpoints@.len() > 0 {
            self.tracker.checkpoints@.last().height == spec_last_multiple(self.synced_height)
                && spec_last_multiple(self.synced_height) > self.creation_height
        } else {
            spec_last_multiple(self.synced_height) <= self.creation_height
        }
    }

    /// A fresh wallet at its creation height.
    pub fn new(
        spend_keys: KeyPair,
        view_keys: KeyPair,
        view_only: bool,
        salt: u64,
        iterations: u64,
        creation_height: u64,
        creation_hash: u64,
        confirmation_depth: u64,
    ) -> (r: Self)
        requires
            creation_height < u64::MAX,
        ensures
            r.wf(),
            r.outputs@.len() == 0,
            r.tracker.checkpoints@.len() == 0,
            r.synced_height == creation_height,
            r.creation_height == creation_height,
            r.spend_keys == spend_keys,
            r.view_keys == view_keys,
            r.view_only == view_only,
            r.salt == salt,
            r.iterations == iterations,
            r.creation_hash == creation_hash,
            r.tip_hash == creation_hash,
            r.confirmation_depth == confirmation_depth,
            r.addresses@.len() == 1,
            r.queue.entries@.len() == 0,
    {
        let primary = Address {
            spend_public_key: spend_keys.public_key,
            view_public_key: view_keys.public_key,
            has_payment_id: false,
            payment_id: 0,
        };
        let mut addresses: Vec<Address> = Vec::new();
        addresses.push(primary);
        WalletSession {
            view_keys,
            spend_keys,
            view_only,
            salt,
            iterations,
            creation_height,
            creation_hash,
            synced_height: creation_height,
            tip_hash: creation_hash,
            confirmation_depth,
            addresses,
            outputs: Vec::new(),
            tracker: CheckpointTracker::new(),
            queue: SyncQueue::new(creation_height + 1),
            obscurer: GlobalIndexObscurer::new(),
        }
    }

    /// Offer a fetched block to the sync queue. Malformed
    /// derivations are rejected before anything is queued; a well
    /// formed block at the expected height is owed acceptance, and a
    /// full queue or a height gap reports exactly as the queue does.
    pub fn enqueue_block(&mut self, pb: PreparedBlock) -> (r: Result<(), WalletError>)
        requires
            old(self).wf(),
        ensures
            final(self).wf(),
            !spec_prepared_wf(pb, old(self).addresses@.len() as int) || pb.block.height
                == u64::MAX ==> r == Err::<(), WalletError>(WalletError::InvalidRequest) && *final(self) == *old(self),
            spec_prepared_wf(pb, old(self).addresses@.len() as int) && pb.block.height < u64::MAX
                ==> (if old(self).queue.entries@.len() >= crate::MAXIMUM_SYNC_QUEUE_SIZE {
                r == Err::<(), WalletError>(WalletError::QueueFull) && *final(self) == *old(self)
            } else if pb.block.height != old(self).queue.next_expected {
                r == Err::<(), WalletError>(WalletError::HeightGap(old(self).queue.next_expected))
                    && *final(self) == *old(self)
            } else {
                &&& r == Ok::<(), WalletError>(())
                &&& final(self).queue.entries@ == old(self).queue.entries@.push(pb)
                &&& final(self).queue.next_expected == old(self).queue.next_expected + 1
                &&& final(self).outputs@ == old(self).outputs@
                &&& final(self).synced_height == old(self).synced_height
                &&& final(self).addresses@ == old(self).addresses@
                &&& final(self).tracker == old(self).tracker
            }),
    {
        if !prepared_well_formed(&pb, self.addresses.len()) {
            return Err(WalletError::InvalidRequest);
        }
        if pb.block.height == u64::MAX {
            return Err(WalletError::InvalidRequest);
        }
        let r = self.queue.push(pb);
        r
    }

    /// Scan the next queued block, if any. The block must extend the
    /// synced tip; a parent-hash mismatch reports `ChainForked` and
    /// changes no scan state, leaving the caller to fetch the
    /// daemon's chain and roll back. On success the owned outputs
    /// advance exactly by one block scan and the checkpoint ring
    /// records the new height when it sits on the interval.
    pub fn sync_step(&mut self) -> (r: Result<Option<u64>, WalletError>)
        requires
            old(self).wf(),
        ensures
            final(self).wf(),
            old(self).queue.entries@.len() == 0 ==> r == Ok::<Option<u64>, WalletError>(None)
                && *final(self) == *old(self),
            old(self).queue.entries@.len() > 0 ==> {
                let pb = old(self).queue.entries@[0];
                if pb.block.parent_hash != old(self).tip_hash {
                    &&& r == Err::<Option<u64>, WalletError>(WalletError::ChainForked)
                    &&& final(self).outputs@ == old(self).outputs@
                    &&& final(self).synced_height == old(self).synced_height
                } else {
                    &&& r == Ok::<Option<u64>, WalletError>(Some(pb.block.height))
                    &&& pb.block.height == old(self).synced_height + 1
                    &&& final(self).outputs@ == spec_scan_block(
                        old(self).outputs@,
                        old(self).addresses@,
                        pb,
                    )
                    &&& final(self).synced_height == pb.block.height
                    &&& final(self).tip_hash == pb.block.hash
                    &&& final(self).addresses@ == old(self).addresses@
                }
            },
    {
        let popped = self.queue.pop();
        match popped {
            None => Ok(None),
            Some(pb) => {
                proof {
                    assert(pb.block.height == old(self).synced_height + 1);
                }
                if pb.block.parent_hash != self.tip_hash {
                    // The daemon's chain no longer extends ours:
                    // leave the scan state alone and let the caller
                    // resolve the fork. The queued blocks are
                    // dropped; after the rollback they are refetched
                    // from the daemon's chain anyway.
                    self.queue = SyncQueue::new(self.synced_height + 1);
                    return Err(WalletError::ChainForked);
                }
                let height = pb.block.height;
                let hash = pb.block.hash;
                scan_block(&mut self.outputs, &self.addresses, &pb);
                self.synced_height = height;
                self.tip_hash = hash;
                let ghost pre_record = *self;
                let inserted = self.tracker.record(height, hash);
                proof {
                    lemma_multiple_step(old(self).synced_height);
                    let iv = BLOCK_HASH_CHECKPOINTS_INTERVAL;
                    let cps = pre_record.tracker.checkpoints@;
                    if inserted {
                        assert(height % iv == 0);
                        assert(spec_last_multiple(height) == height);
                        let newcps = self.tracker.checkpoints@;
                        if cps.len() > 0 {
                            assert(cps.last().height == spec_last_multiple(
                                old(self).synced_height,
                            ));
                            assert(old(self).synced_height % iv == iv - 1);
                            assert(cps.last().height + iv == height);
                        }
                        assert forall|k: int| 0 <= k < newcps.len() - 1 implies (
                        #[trigger] newcps[k + 1].height) == newcps[k].height + iv by {
                            if cps.len() >= crate::LAST_KNOWN_BLOCK_HASHES_SIZE {
                                if k + 1 < newcps.len() - 1 {
                                    assert(newcps[k] == cps.skip(1)[k]);
                                    assert(cps.skip(1)[k] == cps[k + 1]);
                                    assert(newcps[k + 1] == cps[k + 2]);
                                }
                            } else {
                                if k + 1 < newcps.len() - 1 {
                                    assert(newcps[k] == cps[k]);
                                    assert(newcps[k + 1] == cps[k + 1]);
                                }
                            }
                        }
                    } else {
                        assert(height % iv != 0 || (cps.len() > 0 && height <= cps.last().height));
                        if cps.len() > 0 {
                            assert(cps.last().height == spec_last_multiple(
                                old(self).synced_height,
                            ) <= old(self).synced_height < height);
                        }
                        assert(height % iv != 0);
                        assert(spec_last_multiple(height) == spec_last_multiple(
                            old(self).synced_height,
                        ));
                    }
                }
                Ok(Some(height))
            },
        }
    }

    /// Forget all scan progress: outputs, checkpoints, queue. Sync
    /// restarts from the wallet's creation height.
    pub fn reset_scan_state(&mut self)
        requires
            old(self).wf(),
        ensures
            final(self).wf(),
            final(self).outputs@.len() == 0,
            final(self).tracker.checkpoints@.len() == 0,
            final(self).synced_height == old(self).creation_height,
            final(self).tip_hash == old(self).creation_hash,
            final(self).addresses@ == old(self).addresses@,
            final(self).creation_height == old(self).creation_height,
            final(self).spend_keys == old(self).spend_keys,
            final(self).view_keys == old(self).view_keys,
            final(self).view_only == old(self).view_only,
            final(self).salt == old(self).salt,
            final(self).iterations == old(self).iterations,
            final(self).creation_hash == old(self).creation_hash,
            final(self).confirmation_depth == old(self).confirmation_depth,
    {
        proof {
            vstd::arithmetic::div_mod::lemma_mod_division_less_than_divisor(
                old(self).creation_height as int,
                BLOCK_HASH_CHECKPOINTS_INTERVAL as int,
            );
        }
        self.outputs.clear();
        self.tracker.clear();
        self.synced_height = self.creation_height;
        self.tip_hash = self.creation_hash;
        self.queue = SyncQueue::new(self.creation_height + 1);
        self.obscurer = GlobalIndexObscurer::new();
    }

    /// Resolve a chain reorganization against the daemon's reported
    /// chain: roll back to the newest stored checkpoint the daemon
    /// still carries, discarding every owned output above it, and
    /// resume there; with no surviving checkpoint, clear everything
    /// and rescan from the creation height.
    pub fn rollback(&mut self, daemon: &Vec<Checkpoint>) -> (r: Option<u64>)
        requires
            old(self).wf(),
        ensures
            final(self).wf(),
            final(self).addresses@ == old(self).addresses@,
            final(self).spend_keys == old(self).spend_keys,
            final(self).view_keys == old(self).view_keys,
            final(self).view_only == old(self).view_only,
            final(self).salt == old(self).salt,
            final(self).iterations == old(self).iterations,
            final(self).creation_height == old(self).creation_height,
            final(self).creation_hash == old(self).creation_hash,
            final(self).confirmation_depth == old(self).confirmation_depth,
            match r {
                Some(h) => {
                    &&& final(self).synced_height == h
                    &&& final(self).outputs@ == old(self).outputs@.filter(
                        |o: OwnedOutput| o.block_height <= h,
                    )
                    // h is the highest stored checkpoint the daemon
                    // still carries: everything above it disagrees.
                    &&& (exists|i: int|
                        0 <= i < old(self).tracker.checkpoints@.len() && (
                        #[trigger] old(self).tracker.checkpoints@[i]).height == h
                            && crate::checkpoints::spec_chain_matches(
                            daemon@,
                            old(self).tracker.checkpoints@[i],
                        ) && (forall|j: int|
                            i < j < old(self).tracker.checkpoints@.len()
                                ==> !crate::checkpoints::spec_chain_matches(
                                daemon@,
                                #[trigger] old(self).tracker.checkpoints@[j],
                            )))
                },
                None => {
                    // A full rescan is forced only when no stored
                    // checkpoint survives on the daemon's chain.
                    &&& (forall|i: int|
                        0 <= i < old(self).tracker.checkpoints@.len()
                            ==> !crate::checkpoints::spec_chain_matches(
                            daemon@,
                            #[trigger] old(self).tracker.checkpoints@[i],
                        ))
                    &&& final(self).synced_height == old(self).creation_height
                    &&& final(self).outputs@.len() == 0
                    &&& final(self).tracker.checkpoints@.len() == 0
                },
            },
    {
        let found = self.tracker.find_divergence(daemon);
        match found {
            None => {
                self.reset_scan_state();
                None
            },
            Some(h) => {
                let ghost old_cps = self.tracker.checkpoints@;
                proof {
                    let i = choose|i: int|
                        0 <= i < old_cps.len() && (#[trigger] old_cps[i]).height == h
                            && crate::checkpoints::spec_chain_matches(daemon@, old_cps[i]);
                    assert(old_cps[i].height <= old_cps.last().height) by {
                        if i < old_cps.len() - 1 {
                            assert(old_cps[i].height < old_cps[old_cps.len() - 1].height);
                        }
                    }
                }
                let hash = match self.hash_at(h) {
                    Some(x) => x,
                    None => {
                        proof {
                            assert(false);
                        }
                        0
                    },
                };
                // Discard every output recorded above the surviving
                // checkpoint; they will be rediscovered by rescan.
                let mut kept_outputs: Vec<OwnedOutput> = Vec::new();
                let mut i: usize = 0;
                while i < self.outputs.len()
                    invariant
                        0 <= i <= self.outputs@.len(),
                        kept_outputs@ == self.outputs@.take(i as int).filter(
                            |o: OwnedOutput| o.block_height <= h,
                        ),
                    decreases self.outputs@.len() - i,
                {
                    proof {
                        assert(self.outputs@.take(i as int + 1).drop_last() =~= self.outputs@.take(
                            i as int,
                        ));
                        reveal_with_fuel(Seq::<_>::filter, 2);
                        assert(self.outputs@.take(i as int + 1).last() == self.outputs@[i as int]);
                    }
                    if self.outputs[i].block_height <= h {
                        kept_outputs.push(self.outputs[i]);
                    }
                    i += 1;
                }
                proof {
                    assert(self.outputs@.take(self.outputs@.len() as int) =~= self.outputs@);
                }
                self.outputs = kept_outputs;
                let kept = self.tracker.truncate_above(h);
                proof {
                    let i = choose|i: int|
                        0 <= i < old_cps.len() && (#[trigger] old_cps[i]).height == h
                            && crate::checkpoints::spec_chain_matches(daemon@, old_cps[i]);
                    assert(old_cps[i].height <= h);
                    assert(kept > i);
                    assert(kept as int - 1 >= i);
                    if kept as int - 1 > i {
                        assert(old_cps[i].height < old_cps[kept as int - 1].height);
                    }
                    assert(old_cps[kept as int - 1].height >= h);
                    assert(old_cps[kept as int - 1].height <= h);
                    assert(self.tracker.checkpoints@.last() == old_cps[kept as int - 1]);
                    assert(self.tracker.checkpoints@.last().height == h);
                    assert(h % BLOCK_HASH_CHECKPOINTS_INTERVAL == 0);
                    vstd::arithmetic::div_mod::lemma_mod_multiples_basic(
                        (h as int) / (BLOCK_HASH_CHECKPOINTS_INTERVAL as int),
                        BLOCK_HASH_CHECKPOINTS_INTERVAL as int,
                    );
                    vstd::arithmetic::div_mod::lemma_fundamental_div_mod(
                        h as int,
                        BLOCK_HASH_CHECKPOINTS_INTERVAL as int,
                    );
                    assert(spec_last_multiple(h) == h);
                }
                self.synced_height = h;
                self.tip_hash = hash;
                self.queue = SyncQueue::new(h + 1);
                self.obscurer = GlobalIndexObscurer::new();
                Some(h)
            },
        }
    }

    /// The stored hash at exactly this checkpoint height.
    fn hash_at(&self, height: u64) -> (r: Option<u64>)
        ensures
            match r {
                Some(x) => exists|i: int|
                    0 <= i < self.tracker.checkpoints@.len()
                        && #[trigger] self.tracker.checkpoints@[i] == (Checkpoint {
                        height,
                        hash: x,
                    }),
                None => forall|i: int|
                    0 <= i < self.tracker.checkpoints@.len() ==> (
                    #[trigger] self.tracker.checkpoints@[i]).height != height,
            },
    {
        let mut i: usize = 0;
        while i < self.tracker.checkpoints.len()
            invariant
                0 <= i <= self.tracker.checkpoints@.len(),
                forall|j: int|
                    0 <= j < i ==> (#[trigger] self.tracker.checkpoints@[j]).height != height,
            decreases self.tracker.checkpoints@.len() - i,
        {
            let cp = self.tracker.checkpoints[i];
            if cp.height == height {
                proof {
                    assert(self.tracker.checkpoints@[i as int] == (Checkpoint {
                        height,
                        hash: cp.hash,
                    }));
                }
                return Some(cp.hash);
            }
            i += 1;
        }
        None
    }

    /// The confirmed and unconfirmed totals, over all addresses or
    /// one.
    pub fn balance(&self, address: Option<u64>) -> (r: BalanceInfo)
        ensures
            r.confirmed == spec_confirmed_sum(
                self.outputs@,
                self.synced_height,
                self.confirmation_depth,
                address,
            ),
            r.unconfirmed == spec_unconfirmed_sum(
                self.outputs@,
                self.synced_height,
                self.confirmation_depth,
                address,
            ),
    {
        compute_balance(&self.outputs, self.synced_height, self.confirmation_depth, address)
    }

    /// Snapshot the session as a persistable container.
    pub fn to_container(&self) -> (r: WalletContainer)
        requires
            self.wf(),
            self.outputs@.len() <= 0xffff_ffff,
        ensures
            r.wf(),
            r.model() == self.spec_container_model(),
    {
        WalletContainer {
            version: WALLET_FILE_FORMAT_VERSION,
            salt: self.salt,
            iterations: self.iterations,
            view_keys: self.view_keys,
            spend_keys: self.spend_keys,
            view_only: self.view_only,
            creation_height: self.creation_height,
            creation_hash: self.creation_hash,
            synced_height: self.synced_height,
            tip_hash: self.tip_hash,
            confirmation_depth: self.confirmation_depth,
            addresses: copy_vec(&self.addresses),
            outputs: copy_vec(&self.outputs),
            checkpoints: copy_vec(&self.tracker.checkpoints),
        }
    }

    /// The container a snapshot of this session denotes.
    pub open spec fn spec_container_model(&self) -> ContainerModel {
        ContainerModel {
            version: WALLET_FILE_FORMAT_VERSION,
            salt: self.salt,
            iterations: self.iterations,
            view_keys: self.view_keys,
            spend_keys: self.spend_keys,
            view_only: self.view_only,
            creation_height: self.creation_height,
            creation_hash: self.creation_hash,
            synced_height: self.synced_height,
            tip_hash: self.tip_hash,
            confirmation_depth: self.confirmation_depth,
            addresses: self.addresses@,
            outputs: self.outputs@,
            checkpoints: self.tracker.checkpoints@,
        }
    }

    /// Rebuild a session from a decoded container, validating every
    /// session invariant the file cannot be trusted to satisfy. An
    /// acceptable container is owed acceptance; anything else is
    /// refused as corrupt. The queue, the index cache and the ledger
    /// are rebuilt fresh, never persisted.
    pub fn from_container(c: &WalletContainer) -> (r: Result<Self, WalletError>)
        ensures
            match r {
                Ok(s) => {
                    &&& spec_container_acceptable(c.model())
                    &&& s.wf()
                    &&& s.spec_container_model() == ContainerModel {
                        version: WALLET_FILE_FORMAT_VERSION,
                        ..c.model()
                    }
                },
                Err(e) => e == WalletError::CorruptFile && !spec_container_acceptable(c.model()),
            },
    {
        if c.addresses.len() == 0 || c.addresses.len() > 0xffff {
            return Err(WalletError::CorruptFile);
        }
        if c.addresses[0].spend_public_key != c.spend_keys.public_key || c.addresses[0]
            .view_public_key != c.view_keys.public_key {
            return Err(WalletError::CorruptFile);
        }
        if c.creation_height > c.synced_height || c.synced_height == u64::MAX {
            return Err(WalletError::CorruptFile);
        }
        if c.checkpoints.len() > crate::LAST_KNOWN_BLOCK_HASHES_SIZE {
            return Err(WalletError::CorruptFile);
        }
        let lm = c.synced_height - (c.synced_height % BLOCK_HASH_CHECKPOINTS_INTERVAL);
        if c.checkpoints.len() == 0 {
            if lm > c.creation_height {
                return Err(WalletError::CorruptFile);
            }
        } else {
            if c.checkpoints[c.checkpoints.len() - 1].height != lm || lm <= c.creation_height {
                return Err(WalletError::CorruptFile);
            }
        }
        let mut i: usize = 0;
        while i < c.checkpoints.len()
            invariant
                0 <= i <= c.checkpoints@.len(),
                forall|j: int|
                    0 <= j < i ==> (#[trigger] c.checkpoints@[j]).height
                        % BLOCK_HASH_CHECKPOINTS_INTERVAL == 0 && c.checkpoints@[j].height
                        > c.creation_height,
                forall|j: int|
                    0 <= j < i - 1 ==> (#[trigger] c.checkpoints@[j + 1].height)
                        == c.checkpoints@[j].height + BLOCK_HASH_CHECKPOINTS_INTERVAL,
            decreases c.checkpoints@.len() - i,
        {
            let cp = c.checkpoints[i];
            if cp.height % BLOCK_HASH_CHECKPOINTS_INTERVAL != 0 || cp.height <= c.creation_height {
                proof {
                    assert(!((c.checkpoints@[i as int]).height % BLOCK_HASH_CHECKPOINTS_INTERVAL
                        == 0 && c.checkpoints@[i as int].height > c.creation_height));
                }
                return Err(WalletError::CorruptFile);
            }
            if i > 0 {
                let prev = c.checkpoints[i - 1].height;
                if prev > u64::MAX - BLOCK_HASH_CHECKPOINTS_INTERVAL || cp.height != prev
                    + BLOCK_HASH_CHECKPOINTS_INTERVAL {
                    proof {
                        assert(!((c.checkpoints@[i as int - 1 + 1]).height == c.checkpoints@[i
                            as int - 1].height + BLOCK_HASH_CHECKPOINTS_INTERVAL));
                    }
                    return Err(WalletError::CorruptFile);
                }
            }
            i += 1;
        }
        let session = WalletSession {
            view_keys: c.view_keys,
            spend_keys: c.spend_keys,
            view_only: c.view_only,
            salt: c.salt,
            iterations: c.iterations,
            creation_height: c.creation_height,
            creation_hash: c.creation_hash,
            synced_height: c.synced_height,
            tip_hash: c.tip_hash,
            confirmation_depth: c.confirmation_depth,
            addresses: copy_vec(&c.addresses),
            outputs: copy_vec(&c.outputs),
            tracker: CheckpointTracker { checkpoints: copy_vec(&c.checkpoints) },
            queue: SyncQueue::new(c.synced_height + 1),
            obscurer: GlobalIndexObscurer::new(),
        };
        proof {
            let cps = session.tracker.checkpoints@;
            assert forall|a: int, b: int| 0 <= a < b < cps.len() implies (
            #[trigger] cps[a]).height < (#[trigger] cps[b]).height by {
                lemma_spaced_increasing(cps, a, b);
            }
        }
        Ok(session)
    }
}

} // verus!
