use wallet_backend::checkpoints::CheckpointTracker;
use wallet_backend::obscurer::{window_for, GlobalIndexObscurer, IndexEntry};
use wallet_backend::queue::SyncQueue;
use wallet_backend::scanner::{scan_block, scan_blocks};
use wallet_backend::session::WalletSession;
use wallet_backend::types::{
    Address, Block, Checkpoint, KeyPair, OutputDerivation, OwnedOutput, PreparedBlock,
    Transaction, TransactionDerivation, TxOutput, WalletError,
};
use wallet_backend::{
    BLOCK_HASH_CHECKPOINTS_INTERVAL, GLOBAL_INDEXES_OBSCURITY, LAST_KNOWN_BLOCK_HASHES_SIZE,
    MAXIMUM_SYNC_QUEUE_SIZE,
};

fn block_hash(height: u64) -> u64 {
    height.wrapping_mul(31).wrapping_add(7)
}

fn empty_block(height: u64) -> PreparedBlock {
    PreparedBlock {
        block: Block {
            height,
            hash: block_hash(height),
            parent_hash: block_hash(height - 1),
            transactions: vec![],
        },
        derivations: vec![],
    }
}

/// A block holding one transaction that pays `amount` to the target
/// key, owned by the wallet when `owned_candidate` equals the
/// target.
fn paying_block(
    height: u64,
    tx_hash: u64,
    amount: u64,
    target_key: u64,
    candidate: u64,
    key_image: u64,
) -> PreparedBlock {
    PreparedBlock {
        block: Block {
            height,
            hash: block_hash(height),
            parent_hash: block_hash(height - 1),
            transactions: vec![Transaction {
                hash: tx_hash,
                public_key: 42,
                outputs: vec![TxOutput { amount, target_key }],
                spent_key_images: vec![],
            }],
        },
        derivations: vec![TransactionDerivation {
            valid: true,
            outputs: vec![OutputDerivation {
                candidates: vec![candidate],
                key_image,
            }],
        }],
    }
}

fn test_session(creation_height: u64) -> WalletSession {
    WalletSession::new(
        KeyPair {
            public_key: 100,
            private_key: 200,
        },
        KeyPair {
            public_key: 300,
            private_key: 400,
        },
        false,
        0xabcd,
        1000,
        creation_height,
        block_hash(creation_height),
        10,
    )
}

fn sync_one(session: &mut WalletSession, pb: PreparedBlock) {
    session.enqueue_block(pb).expect("enqueue");
    let scanned = session.sync_step().expect("sync");
    assert!(scanned.is_some());
}

#[test]
fn queue_rejects_height_gaps() {
    let mut q = SyncQueue::new(5);
    assert_eq!(
        q.push(empty_block(7)),
        Err(WalletError::HeightGap(5)),
        "a gap names the height that must be fetched"
    );
    assert_eq!(q.push(empty_block(5)), Ok(()));
    assert_eq!(q.push(empty_block(6)), Ok(()));
    assert_eq!(q.push(empty_block(6)), Err(WalletError::HeightGap(7)));
}

#[test]
fn queue_is_bounded_and_signals_backpressure() {
    let mut q = SyncQueue::new(1);
    for h in 1..=(MAXIMUM_SYNC_QUEUE_SIZE as u64) {
        assert_eq!(q.push(empty_block(h)), Ok(()));
    }
    assert_eq!(q.len(), MAXIMUM_SYNC_QUEUE_SIZE);
    assert_eq!(
        q.push(empty_block(MAXIMUM_SYNC_QUEUE_SIZE as u64 + 1)),
        Err(WalletError::QueueFull)
    );
}

#[test]
fn queue_pops_strictly_increasing_heights() {
    let mut q = SyncQueue::new(10);
    for h in 10..20 {
        q.push(empty_block(h)).unwrap();
    }
    let mut last: Option<u64> = None;
    while let Some(pb) = q.pop() {
        if let Some(prev) = last {
            assert!(pb.block.height > prev);
        }
        last = Some(pb.block.height);
    }
    assert_eq!(last, Some(19));
}

#[test]
fn checkpoint_ring_is_bounded_and_spaced() {
    let mut t = CheckpointTracker::new();
    let iv = BLOCK_HASH_CHECKPOINTS_INTERVAL;
    assert!(!t.record(123, 1), "off-interval heights are not recorded");
    for k in 1..=150u64 {
        assert!(t.record(k * iv, block_hash(k * iv)));
    }
    assert_eq!(t.len(), LAST_KNOWN_BLOCK_HASHES_SIZE);
    assert!(!t.record(150 * iv, 0), "stale heights are not recorded");
    assert_eq!(
        t.checkpoints.first().unwrap().height,
        51 * iv,
        "oldest entries were evicted, ring fashion"
    );
    for w in t.checkpoints.windows(2) {
        assert_eq!(w[1].height, w[0].height + iv);
    }
}

#[test]
fn find_divergence_picks_highest_matching_height() {
    let mut t = CheckpointTracker::new();
    let iv = BLOCK_HASH_CHECKPOINTS_INTERVAL;
    for k in 1..=3u64 {
        t.record(k * iv, block_hash(k * iv));
    }
    // The daemon agrees up to 2*iv and diverges at 3*iv.
    let daemon = vec![
        Checkpoint {
            height: iv,
            hash: block_hash(iv),
        },
        Checkpoint {
            height: 2 * iv,
            hash: block_hash(2 * iv),
        },
        Checkpoint {
            height: 3 * iv,
            hash: 999,
        },
    ];
    assert_eq!(t.find_divergence(&daemon), Some(2 * iv));
    let strangers = vec![Checkpoint {
        height: iv,
        hash: 1,
    }];
    assert_eq!(t.find_divergence(&strangers), None);
}

#[test]
fn obscurity_window_matches_documented_example() {
    // An output in block 17 is fetched as the window from block 10
    // to block 20.
    let (start, end) = window_for(17);
    assert_eq!((start, end), (10, 20));
    assert!(end - start >= GLOBAL_INDEXES_OBSCURITY);
}

#[test]
fn obscurity_window_is_never_single_height() {
    for h in [0u64, 1, 9, 10, 4999, 5000, u64::MAX - 1, u64::MAX] {
        let (start, end) = window_for(h);
        assert!(start <= h && h <= end);
        assert!(end - start >= GLOBAL_INDEXES_OBSCURITY);
    }
}

#[test]
fn obscurer_caches_windows() {
    let mut o = GlobalIndexObscurer::new();
    let plan = o.plan_request(17).expect("nothing cached yet");
    assert_eq!(plan, (10, 20));
    o.store_window(
        10,
        20,
        vec![
            IndexEntry {
                height: 17,
                global_index: 901,
            },
            IndexEntry {
                height: 12,
                global_index: 900,
            },
            IndexEntry {
                height: 17,
                global_index: 905,
            },
        ],
    );
    assert_eq!(o.plan_request(17), None, "covered heights need no fetch");
    assert_eq!(o.plan_request(12), None);
    let (covered, indexes) = o.indexes_for(17);
    assert!(covered);
    assert_eq!(indexes, vec![901, 905]);
    let (covered2, none) = o.indexes_for(40);
    assert!(!covered2);
    assert!(none.is_empty());
}

#[test]
fn scan_finds_owned_outputs_and_marks_spent() {
    let addresses = vec![Address {
        spend_public_key: 100,
        view_public_key: 300,
        has_payment_id: false,
        payment_id: 0,
    }];
    let mut outputs: Vec<OwnedOutput> = Vec::new();
    let pb = paying_block(1003, 0xdead, 500, 0x5555, 0x5555, 77);
    let (added, matched) = scan_block(&mut outputs, &addresses, &pb);
    assert_eq!(added.len(), 1);
    assert!(matched.is_empty());
    assert_eq!(outputs.len(), 1);
    assert_eq!(outputs[0].amount, 500);
    assert_eq!(outputs[0].block_height, 1003);
    assert!(!outputs[0].spent);

    // A later block spends the discovered key image.
    let mut spender = empty_block(1004);
    spender.block.transactions.push(Transaction {
        hash: 0xbeef,
        public_key: 43,
        outputs: vec![],
        spent_key_images: vec![77],
    });
    spender.derivations.push(TransactionDerivation {
        valid: true,
        outputs: vec![],
    });
    let (added2, matched2) = scan_block(&mut outputs, &addresses, &spender);
    assert!(added2.is_empty());
    assert_eq!(matched2, vec![77]);
    assert_eq!(outputs.len(), 1, "spent outputs are kept, never deleted");
    assert!(outputs[0].spent);
}

#[test]
fn foreign_outputs_are_not_recorded() {
    let addresses = vec![Address {
        spend_public_key: 100,
        view_public_key: 300,
        has_payment_id: false,
        payment_id: 0,
    }];
    let mut outputs: Vec<OwnedOutput> = Vec::new();
    // The candidate key disagrees with the target: not ours.
    let pb = paying_block(1003, 0xdead, 500, 0x5555, 0x7777, 77);
    let (added, _) = scan_block(&mut outputs, &addresses, &pb);
    assert!(added.is_empty());
    assert!(outputs.is_empty());
}

#[test]
fn malformed_transactions_are_skipped_not_fatal() {
    let addresses = vec![Address {
        spend_public_key: 100,
        view_public_key: 300,
        has_payment_id: false,
        payment_id: 0,
    }];
    let mut pb = paying_block(1003, 0xdead, 500, 0x5555, 0x5555, 77);
    pb.derivations[0] = TransactionDerivation {
        valid: false,
        outputs: vec![],
    };
    let mut outputs: Vec<OwnedOutput> = Vec::new();
    let (added, _) = scan_block(&mut outputs, &addresses, &pb);
    assert!(added.is_empty());
}

#[test]
fn rescanning_a_block_is_idempotent() {
    let addresses = vec![Address {
        spend_public_key: 100,
        view_public_key: 300,
        has_payment_id: false,
        payment_id: 0,
    }];
    let mut outputs: Vec<OwnedOutput> = Vec::new();
    let pb = paying_block(1003, 0xdead, 500, 0x5555, 0x5555, 77);
    scan_block(&mut outputs, &addresses, &pb);
    let first = outputs.clone();
    let (added, _) = scan_block(&mut outputs, &addresses, &pb);
    assert!(added.is_empty(), "rescanning records nothing new");
    assert_eq!(outputs, first, "rescanning changes nothing at all");
}

#[test]
fn block_by_block_scan_equals_batch_scan() {
    let addresses = vec![Address {
        spend_public_key: 100,
        view_public_key: 300,
        has_payment_id: false,
        payment_id: 0,
    }];
    let blocks = vec![
        paying_block(1001, 0xa1, 10, 0x51, 0x51, 71),
        empty_block(1002),
        paying_block(1003, 0xa3, 20, 0x53, 0x53, 73),
        paying_block(1004, 0xa4, 40, 0x54, 0x99, 74),
    ];
    let mut one_by_one: Vec<OwnedOutput> = Vec::new();
    for pb in &blocks {
        scan_block(&mut one_by_one, &addresses, pb);
    }
    let mut batch: Vec<OwnedOutput> = Vec::new();
    let scanned = scan_blocks(&mut batch, &addresses, &blocks);
    assert_eq!(scanned, blocks.len());
    assert_eq!(one_by_one, batch);
}

#[test]
fn confirmation_depth_scenario() {
    // Wallet created at height 1000; one owned output of 500 in
    // block 1003; confirmation depth 10.
    let mut s = test_session(1000);
    for h in 1001..=1005u64 {
        let pb = if h == 1003 {
            paying_block(h, 0xdead, 500, 0x5555, 0x5555, 77)
        } else {
            empty_block(h)
        };
        sync_one(&mut s, pb);
    }
    let b = s.balance(None);
    assert_eq!(b.confirmed, 0, "1003 is not yet 10 blocks deep at 1005");
    assert_eq!(b.unconfirmed, 500);
    for h in 1006..=1013u64 {
        sync_one(&mut s, empty_block(h));
    }
    let b2 = s.balance(None);
    assert_eq!(b2.confirmed, 500, "at 1013 the output is 10 blocks deep");
    assert_eq!(b2.unconfirmed, 0);
}

#[test]
fn sync_step_detects_forks() {
    let mut s = test_session(1000);
    let mut pb = empty_block(1001);
    pb.block.parent_hash = 0xbad;
    s.enqueue_block(pb).unwrap();
    assert_eq!(s.sync_step(), Err(WalletError::ChainForked));
    assert_eq!(s.synced_height, 1000);
}

#[test]
fn enqueue_rejects_misshapen_derivations() {
    let mut s = test_session(1000);
    let mut pb = empty_block(1001);
    pb.derivations.push(TransactionDerivation {
        valid: true,
        outputs: vec![],
    });
    assert_eq!(s.enqueue_block(pb), Err(WalletError::InvalidRequest));
}

#[test]
fn reorg_rolls_back_to_last_matching_checkpoint() {
    // Sync through two checkpoint intervals with owned outputs on
    // both sides of the first checkpoint.
    let iv = BLOCK_HASH_CHECKPOINTS_INTERVAL;
    let mut s = test_session(0);
    for h in 1..=(2 * iv) {
        let pb = if h == 3000 {
            paying_block(h, 0xa1, 100, 0x51, 0x51, 71)
        } else if h == 9000 {
            paying_block(h, 0xa2, 200, 0x52, 0x52, 72)
        } else {
            empty_block(h)
        };
        sync_one(&mut s, pb);
    }
    assert_eq!(s.tracker.len(), 2);
    assert_eq!(s.outputs.len(), 2);

    // On reconnect the daemon still carries the first checkpoint but
    // reports a different hash at the second: the chain reorganized.
    let daemon = vec![
        Checkpoint {
            height: iv,
            hash: block_hash(iv),
        },
        Checkpoint {
            height: 2 * iv,
            hash: 0xfacade,
        },
    ];
    let resumed = s.rollback(&daemon);
    assert_eq!(resumed, Some(iv));
    assert_eq!(s.synced_height, iv);
    assert_eq!(s.tracker.len(), 1);
    assert_eq!(s.outputs.len(), 1, "outputs above the checkpoint are discarded");
    assert_eq!(s.outputs[0].block_height, 3000);

    // With no surviving checkpoint a full rescan is required.
    let strangers = vec![Checkpoint {
        height: iv,
        hash: 0x1111,
    }];
    assert_eq!(s.rollback(&strangers), None);
    assert_eq!(s.synced_height, 0);
    assert!(s.outputs.is_empty());
    assert_eq!(s.tracker.len(), 0);
}

#[test]
fn reset_clears_scan_state() {
    let mut s = test_session(1000);
    sync_one(&mut s, paying_block(1001, 0xa1, 10, 0x51, 0x51, 71));
    assert_eq!(s.outputs.len(), 1);
    s.reset_scan_state();
    assert!(s.outputs.is_empty());
    assert_eq!(s.synced_height, 1000);
}

#[test]
fn session_enqueue_reports_height_gaps() {
    let mut s = test_session(1000);
    assert_eq!(
        s.enqueue_block(empty_block(1005)),
        Err(WalletError::HeightGap(1001))
    );
    assert_eq!(s.enqueue_block(empty_block(1001)), Ok(()));
}
