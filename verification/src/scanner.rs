//! Per-block output scan.
//!
//! For every transaction in a block the crypto collaborator has
//! already derived, per output, one candidate ephemeral key per
//! wallet address; an output belongs to the wallet exactly when its
//! target key equals one of those candidates. Matching outputs are
//! recorded as unspent `OwnedOutput`s, deduplicated by (transaction
//! hash, output index) so rescanning a block never duplicates them.
//! Afterwards every key image spent by the block marks the matching
//! owned output spent. A malformed transaction (no derivation) is
//! skipped, never an error.
use vstd::prelude::*;

use crate::types::{
    Address, OutputDerivation, OwnedOutput, PreparedBlock, Transaction, TransactionDerivation,
};

verus! {

/// The derivations of a prepared block line up with its
/// transactions: one entry per transaction, one entry per output,
/// one candidate per wallet address.
pub open spec fn spec_prepared_wf(pb: PreparedBlock, n_addresses: int) -> bool {
    &&& pb.derivations@.len() == pb.block.transactions@.len()
    &&& forall|i: int|
        0 <= i < pb.derivations@.len() && (#[trigger] pb.derivations@[i]).valid ==> {
            &&& pb.derivations@[i].outputs@.len() == pb.block.transactions@[i].outputs@.len()
            &&& forall|j: int|
                0 <= j < pb.derivations@[i].outputs@.len() ==> (#[trigger] pb.derivations@[i].outputs@[j]).candidates@.len()
                    == n_addresses
        }
}

/// The first candidate index whose key equals the target, if any.
pub open spec fn spec_first_match(candidates: Seq<u64>, target: u64) -> Option<int>
    decreases candidates.len(),
{
    if candidates.len() == 0 {
        None
    } else if candidates[0] == target {
        Some(0int)
    } else {
        match spec_first_match(candidates.skip(1), target) {
            None => None,
            Some(k) => Some(k + 1),
        }
    }
}

/// What output `j` of transaction `tx` (mined at `height`) becomes
/// when the wallet owns it, or `None` when it does not.
pub open spec fn spec_output_owned(
    addresses: Seq<Address>,
    height: u64,
    tx: Transaction,
    d: TransactionDerivation,
    j: int,
) -> Option<OwnedOutput> {
    if !d.valid {
        None
    } else {
        match spec_first_match(d.outputs@[j].candidates@, tx.outputs@[j].target_key) {
            None => None,
            Some(k) => Some(
                OwnedOutput {
                    amount: tx.outputs@[j].amount,
                    tx_hash: tx.hash,
                    output_index: j as u64,
                    block_height: height,
                    spend_public_key: addresses[k].spend_public_key,
                    key_image: d.outputs@[j].key_image,
                    has_global_index: false,
                    global_index: 0,
                    spent: false,
                },
            ),
        }
    }
}

/// The wallet-owned outputs of one transaction, from output `j` on,
/// in output order.
pub open spec fn spec_tx_owned_from(
    addresses: Seq<Address>,
    height: u64,
    tx: Transaction,
    d: TransactionDerivation,
    j: int,
) -> Seq<OwnedOutput>
    decreases tx.outputs@.len() - j,
{
    if j < 0 || j >= tx.outputs@.len() {
        Seq::empty()
    } else {
        let tail = spec_tx_owned_from(addresses, height, tx, d, j + 1);
        match spec_output_owned(addresses, height, tx, d, j) {
            None => tail,
            Some(o) => seq![o] + tail,
        }
    }
}

/// The wallet-owned outputs of the block, from transaction `i` on,
/// in block-listed order.
pub open spec fn spec_block_owned_from(
    addresses: Seq<Address>,
    pb: PreparedBlock,
    i: int,
) -> Seq<OwnedOutput>
    decreases pb.block.transactions@.len() - i,
{
    if i < 0 || i >= pb.block.transactions@.len() {
        Seq::empty()
    } else {
        spec_tx_owned_from(
            addresses,
            pb.block.height,
            pb.block.transactions@[i],
            pb.derivations@[i],
            0,
        ) + spec_block_owned_from(addresses, pb, i + 1)
    }
}

/// Every output of the block that belongs to the wallet.
pub open spec fn spec_block_owned(addresses: Seq<Address>, pb: PreparedBlock) -> Seq<OwnedOutput> {
    spec_block_owned_from(addresses, pb, 0)
}

/// The key images the block spends, from transaction `i` on.
pub open spec fn spec_block_images_from(pb: PreparedBlock, i: int) -> Seq<u64>
    decreases pb.block.transactions@.len() - i,
{
    if i < 0 || i >= pb.block.transactions@.len() {
        Seq::empty()
    } else {
        pb.block.transactions@[i].spent_key_images@ + spec_block_images_from(pb, i + 1)
    }
}

pub open spec fn spec_block_images(pb: PreparedBlock) -> Seq<u64> {
    spec_block_images_from(pb, 0)
}

/// Whether an output with this (transaction hash, output index) key
/// is already recorded.
pub open spec fn spec_has_output(outs: Seq<OwnedOutput>, tx_hash: u64, output_index: u64) -> bool {
    exists|i: int|
        0 <= i < outs.len() && (#[trigger] outs[i]).tx_hash == tx_hash && outs[i].output_index
            == output_index
}

/// Record each discovered output unless its key is already present:
/// the dedupe that makes rescans idempotent.
pub open spec fn spec_insert_new(outs: Seq<OwnedOutput>, found: Seq<OwnedOutput>) -> Seq<
    OwnedOutput,
>
    decreases found.len(),
{
    if found.len() == 0 {
        outs
    } else {
        let outs1 = if spec_has_output(outs, found[0].tx_hash, found[0].output_index) {
            outs
        } else {
            outs.push(found[0])
        };
        spec_insert_new(outs1, found.skip(1))
    }
}

/// The subsequence of `found` that `spec_insert_new` actually adds.
pub open spec fn spec_added(outs: Seq<OwnedOutput>, found: Seq<OwnedOutput>) -> Seq<OwnedOutput>
    decreases found.len(),
{
    if found.len() == 0 {
        Seq::empty()
    } else {
        if spec_has_output(outs, found[0].tx_hash, found[0].output_index) {
            spec_added(outs, found.skip(1))
        } else {
            seq![found[0]] + spec_added(outs.push(found[0]), found.skip(1))
        }
    }
}

/// An output after the block's spends are applied to it.
pub open spec fn spec_marked(o: OwnedOutput, images: Seq<u64>) -> OwnedOutput {
    if images.contains(o.key_image) {
        OwnedOutput { spent: true, ..o }
    } else {
        o
    }
}

/// Mark spent every owned output whose key image the block consumed.
pub open spec fn spec_mark_spent(outs: Seq<OwnedOutput>, images: Seq<u64>) -> Seq<OwnedOutput> {
    Seq::new(outs.len(), |i: int| spec_marked(outs[i], images))
}

/// The outputs list after one block is scanned: discoveries recorded
/// (deduplicated), then the block's spends applied.
pub open spec fn spec_scan_block(
    outs: Seq<OwnedOutput>,
    addresses: Seq<Address>,
    pb: PreparedBlock,
) -> Seq<OwnedOutput> {
    spec_mark_spent(
        spec_insert_new(outs, spec_block_owned(addresses, pb)),
        spec_block_images(pb),
    )
}

/// The outputs list after a run of blocks is scanned in order.
pub open spec fn spec_scan_chain(
    outs: Seq<OwnedOutput>,
    addresses: Seq<Address>,
    pbs: Seq<PreparedBlock>,
) -> Seq<OwnedOutput>
    decreases pbs.len(),
{
    if pbs.len() == 0 {
        outs
    } else {
        spec_scan_chain(spec_scan_block(outs, addresses, pbs[0]), addresses, pbs.skip(1))
    }
}

/// Exec check that a prepared block's derivations line up with its
/// transactions and the wallet's address count.
pub fn prepared_well_formed(pb: &PreparedBlock, n_addresses: usize) -> (r: bool)
    ensures
        r == spec_prepared_wf(*pb, n_addresses as int),
{
    if pb.derivations.len() != pb.block.transactions.len() {
        return false;
    }
    let mut i: usize = 0;
    while i < pb.derivations.len()
        invariant
            0 <= i <= pb.derivations@.len(),
            pb.derivations@.len() == pb.block.transactions@.len(),
            forall|a: int|
                0 <= a < i && (#[trigger] pb.derivations@[a]).valid ==> {
                    &&& pb.derivations@[a].outputs@.len()
                        == pb.block.transactions@[a].outputs@.len()
                    &&& forall|b: int|
                        0 <= b < pb.derivations@[a].outputs@.len() ==> (
                        #[trigger] pb.derivations@[a].outputs@[b]).candidates@.len()
                            == n_addresses
                },
        decreases pb.derivations@.len() - i,
    {
        if pb.derivations[i].valid {
            if pb.derivations[i].outputs.len() != pb.block.transactions[i].outputs.len() {
                proof {
                    assert((pb.derivations@[i as int]).valid);
                }
                return false;
            }
            let mut j: usize = 0;
            while j < pb.derivations[i].outputs.len()
                invariant
                    0 <= j <= pb.derivations@[i as int].outputs@.len(),
                    0 <= i < pb.derivations@.len(),
                    pb.derivations@.len() == pb.block.transactions@.len(),
                    (pb.derivations@[i as int]).valid,
                    pb.derivations@[i as int].outputs@.len()
                        == pb.block.transactions@[i as int].outputs@.len(),
                    forall|b: int|
                        0 <= b < j ==> (#[trigger] pb.derivations@[i as int].outputs@[b]).candidates@.len()
                            == n_addresses,
                decreases pb.derivations@[i as int].outputs@.len() - j,
            {
                if pb.derivations[i].outputs[j].candidates.len() != n_addresses {
                    proof {
                        assert((pb.derivations@[i as int]).valid);
                        assert((pb.derivations@[i as int].outputs@[j as int]).candidates@.len()
                            != n_addresses as int);
                    }
                    return false;
                }
                j += 1;
            }
        }
        i += 1;
    }
    true
}

/// First candidate equal to the target, as `spec_first_match` names
/// it.
fn first_match(candidates: &Vec<u64>, target: u64) -> (r: Option<usize>)
    ensures
        match r {
            Some(k) => spec_first_match(candidates@, target) == Some(k as int),
            None => spec_first_match(candidates@, target) is None,
        },
{
    let mut i: usize = 0;
    while i < candidates.len()
        invariant
            0 <= i <= candidates@.len(),
            forall|j: int| 0 <= j < i ==> candidates@[j] != target,
        decreases candidates@.len() - i,
    {
        if candidates[i] == target {
            proof {
                lemma_first_match_at(candidates@, target, i as int);
            }
            return Some(i);
        }
        i += 1;
    }
    proof {
        lemma_first_match_none(candidates@, target);
    }
    None
}

/// When the target first appears at `k`, `spec_first_match` says so.
proof fn lemma_first_match_at(candidates: Seq<u64>, target: u64, k: int)
    requires
        0 <= k < candidates.len(),
        candidates[k] == target,
        forall|j: int| 0 <= j < k ==> candidates[j] != target,
    ensures
        spec_first_match(candidates, target) == Some(k),
    decreases k,
{
    if k == 0 {
    } else {
        assert(candidates[0] != target);
        let rest = candidates.skip(1);
        assert(rest[k - 1] == candidates[k]);
        assert(forall|j: int| 0 <= j < k - 1 ==> rest[j] == candidates[j + 1]);
        lemma_first_match_at(rest, target, k - 1);
    }
}

/// When the target never appears, `spec_first_match` finds nothing.
proof fn lemma_first_match_none(candidates: Seq<u64>, target: u64)
    requires
        forall|j: int| 0 <= j < candidates.len() ==> candidates[j] != target,
    ensures
        spec_first_match(candidates, target) is None,
    decreases candidates.len(),
{
    if candidates.len() == 0 {
    } else {
        let rest = candidates.skip(1);
        assert(forall|j: int| 0 <= j < rest.len() ==> rest[j] == candidates[j + 1]);
        lemma_first_match_none(rest, target);
    }
}

/// A first match lies inside the candidate list.
pub proof fn lemma_first_match_in_range(candidates: Seq<u64>, target: u64)
    ensures
        match spec_first_match(candidates, target) {
            Some(k) => 0 <= k < candidates.len(),
            None => true,
        },
    decreases candidates.len(),
{
    if candidates.len() > 0 && candidates[0] != target {
        lemma_first_match_in_range(candidates.skip(1), target);
    }
}

/// The wallet-owned outputs of the block, in block order.
fn collect_owned(addresses: &Vec<Address>, pb: &PreparedBlock) -> (r: Vec<OwnedOutput>)
    requires
        spec_prepared_wf(*pb, addresses@.len() as int),
    ensures
        r@ == spec_block_owned(addresses@, *pb),
{
    let mut r: Vec<OwnedOutput> = Vec::new();
    let mut i: usize = 0;
    proof {
        assert(r@ + spec_block_owned_from(addresses@, *pb, 0) =~= spec_block_owned_from(
            addresses@,
            *pb,
            0,
        ));
    }
    while i < pb.block.transactions.len()
        invariant
            0 <= i <= pb.block.transactions@.len(),
            spec_prepared_wf(*pb, addresses@.len() as int),
            spec_block_owned(addresses@, *pb) == r@ + spec_block_owned_from(
                addresses@,
                *pb,
                i as int,
            ),
        decreases pb.block.transactions@.len() - i,
    {
        let tx = &pb.block.transactions[i];
        let d = &pb.derivations[i];
        if d.valid {
            let mut j: usize = 0;
            proof {
                assert(r@ + (spec_tx_owned_from(addresses@, pb.block.height, *tx, *d, 0)
                    + spec_block_owned_from(addresses@, *pb, i as int + 1)) =~= (r@
                    + spec_tx_owned_from(addresses@, pb.block.height, *tx, *d, 0))
                    + spec_block_owned_from(addresses@, *pb, i as int + 1));
            }
            while j < tx.outputs.len()
                invariant
                    0 <= j <= tx.outputs@.len(),
                    0 <= i < pb.block.transactions@.len(),
                    spec_prepared_wf(*pb, addresses@.len() as int),
                    tx == &pb.block.transactions@[i as int],
                    d == &pb.derivations@[i as int],
                    d.valid,
                    spec_block_owned(addresses@, *pb) == (r@ + spec_tx_owned_from(
                        addresses@,
                        pb.block.height,
                        *tx,
                        *d,
                        j as int,
                    )) + spec_block_owned_from(addresses@, *pb, i as int + 1),
                decreases tx.outputs@.len() - j,
            {
                match first_match(&d.outputs[j].candidates, tx.outputs[j].target_key) {
                    Some(k) => {
                        proof {
                            lemma_first_match_in_range(
                                d.outputs@[j as int].candidates@,
                                tx.outputs@[j as int].target_key,
                            );
                        }
                        let o = OwnedOutput {
                            amount: tx.outputs[j].amount,
                            tx_hash: tx.hash,
                            output_index: j as u64,
                            block_height: pb.block.height,
                            spend_public_key: addresses[k].spend_public_key,
                            key_image: d.outputs[j].key_image,
                            has_global_index: false,
                            global_index: 0,
                            spent: false,
                        };
                        r.push(o);
                        proof {
                            assert(spec_output_owned(addresses@, pb.block.height, *tx, *d, j as int)
                                == Some(o));
                            assert(r@.drop_last() + (seq![o] + spec_tx_owned_from(
                                addresses@,
                                pb.block.height,
                                *tx,
                                *d,
                                j as int + 1,
                            )) =~= r@ + spec_tx_owned_from(
                                addresses@,
                                pb.block.height,
                                *tx,
                                *d,
                                j as int + 1,
                            ));
                        }
                    },
                    None => {
                        proof {
                            assert(spec_output_owned(addresses@, pb.block.height, *tx, *d, j as int)
                                is None);
                        }
                    },
                }
                j += 1;
            }
            proof {
                assert(spec_tx_owned_from(
                    addresses@,
                    pb.block.height,
                    *tx,
                    *d,
                    tx.outputs@.len() as int,
                ) =~= Seq::<OwnedOutput>::empty());
                assert(r@ + Seq::<OwnedOutput>::empty() =~= r@);
            }
        } else {
            proof {
                lemma_tx_owned_invalid(
                    addresses@,
                    pb.block.height,
                    pb.block.transactions@[i as int],
                    pb.derivations@[i as int],
                    0,
                );
                assert(r@ + (Seq::<OwnedOutput>::empty() + spec_block_owned_from(
                    addresses@,
                    *pb,
                    i as int + 1,
                )) =~= r@ + spec_block_owned_from(addresses@, *pb, i as int + 1));
            }
        }
        i += 1;
    }
    proof {
        assert(spec_block_owned_from(addresses@, *pb, pb.block.transactions@.len() as int)
            =~= Seq::<OwnedOutput>::empty());
        assert(r@ + Seq::<OwnedOutput>::empty() =~= r@);
    }
    r
}

/// A transaction without derivations contributes no owned outputs.
proof fn lemma_tx_owned_invalid(
    addresses: Seq<Address>,
    height: u64,
    tx: Transaction,
    d: TransactionDerivation,
    j: int,
)
    requires
        !d.valid,
    ensures
        spec_tx_owned_from(addresses, height, tx, d, j) == Seq::<OwnedOutput>::empty(),
    decreases tx.outputs@.len() - j,
{
    if 0 <= j < tx.outputs@.len() {
        lemma_tx_owned_invalid(addresses, height, tx, d, j + 1);
    }
}

/// The key images the block spends, in block order.
fn collect_images(pb: &PreparedBlock) -> (r: Vec<u64>)
    ensures
        r@ == spec_block_images(*pb),
{
    let mut r: Vec<u64> = Vec::new();
    let mut i: usize = 0;
    proof {
        assert(r@ + spec_block_images_from(*pb, 0) =~= spec_block_images_from(*pb, 0));
    }
    while i < pb.block.transactions.len()
        invariant
            0 <= i <= pb.block.transactions@.len(),
            spec_block_images(*pb) == r@ + spec_block_images_from(*pb, i as int),
        decreases pb.block.transactions@.len() - i,
    {
        let tx = &pb.block.transactions[i];
        let mut j: usize = 0;
        proof {
            assert(r@ + (tx.spent_key_images@ + spec_block_images_from(*pb, i as int + 1)) =~= (r@
                + tx.spent_key_images@) + spec_block_images_from(*pb, i as int + 1));
        }
        while j < tx.spent_key_images.len()
            invariant
                0 <= j <= tx.spent_key_images@.len(),
                0 <= i < pb.block.transactions@.len(),
                tx == &pb.block.transactions@[i as int],
                spec_block_images(*pb) == (r@ + tx.spent_key_images@.skip(j as int))
                    + spec_block_images_from(*pb, i as int + 1),
            decreases tx.spent_key_images@.len() - j,
        {
            r.push(tx.spent_key_images[j]);
            proof {
                assert(tx.spent_key_images@.skip(j as int)[0] == tx.spent_key_images@[j as int]);
                assert(tx.spent_key_images@.skip(j as int).skip(1) =~= tx.spent_key_images@.skip(
                    j as int + 1,
                ));
                assert(r@.drop_last() + tx.spent_key_images@.skip(j as int) =~= r@
                    + tx.spent_key_images@.skip(j as int + 1));
            }
            j += 1;
        }
        proof {
            assert(tx.spent_key_images@.skip(tx.spent_key_images@.len() as int) =~= Seq::<
                u64,
            >::empty());
            assert(r@ + Seq::<u64>::empty() =~= r@);
        }
        i += 1;
    }
    proof {
        assert(spec_block_images_from(*pb, pb.block.transactions@.len() as int) =~= Seq::<
            u64,
        >::empty());
        assert(r@ + Seq::<u64>::empty() =~= r@);
    }
    r
}

/// Exact lookup of the dedupe key among the recorded outputs.
fn has_output(outs: &Vec<OwnedOutput>, tx_hash: u64, output_index: u64) -> (r: bool)
    ensures
        r == spec_has_output(outs@, tx_hash, output_index),
{
    let mut i: usize = 0;
    while i < outs.len()
        invariant
            0 <= i <= outs@.len(),
            forall|j: int|
                0 <= j < i ==> !((#[trigger] outs@[j]).tx_hash == tx_hash && outs@[j].output_index
                    == output_index),
        decreases outs@.len() - i,
    {
        if outs[i].tx_hash == tx_hash && outs[i].output_index == output_index {
            assert(spec_has_output(outs@, tx_hash, output_index));
            return true;
        }
        i += 1;
    }
    false
}

/// Append each discovered output that is not already recorded;
/// returns the ones actually added.
fn insert_new(outs: &mut Vec<OwnedOutput>, found: &Vec<OwnedOutput>) -> (added: Vec<OwnedOutput>)
    ensures
        final(outs)@ == spec_insert_new(old(outs)@, found@),
        added@ == spec_added(old(outs)@, found@),
{
    let mut added: Vec<OwnedOutput> = Vec::new();
    let mut i: usize = 0;
    proof {
        assert(found@.skip(0) =~= found@);
        assert(added@ + spec_added(outs@, found@) =~= spec_added(outs@, found@));
    }
    while i < found.len()
        invariant
            0 <= i <= found@.len(),
            spec_insert_new(old(outs)@, found@) == spec_insert_new(outs@, found@.skip(i as int)),
            spec_added(old(outs)@, found@) == added@ + spec_added(outs@, found@.skip(i as int)),
        decreases found@.len() - i,
    {
        proof {
            assert(found@.skip(i as int)[0] == found@[i as int]);
            assert(found@.skip(i as int).skip(1) =~= found@.skip(i as int + 1));
        }
        let o = found[i];
        if !has_output(outs, o.tx_hash, o.output_index) {
            outs.push(o);
            added.push(o);
            proof {
                assert(added@.drop_last() + (seq![o] + spec_added(outs@, found@.skip(i as int + 1)))
                    =~= added@ + spec_added(outs@, found@.skip(i as int + 1)));
            }
        }
        i += 1;
    }
    proof {
        assert(found@.skip(found@.len() as int) =~= Seq::<OwnedOutput>::empty());
        assert(added@ + Seq::<OwnedOutput>::empty() =~= added@);
    }
    added
}

/// Apply the block's spends: every output whose key image was
/// consumed is marked spent. Returns the key images that actually
/// matched an owned output.
fn apply_spent(outs: &mut Vec<OwnedOutput>, images: &Vec<u64>) -> (matched: Vec<u64>)
    ensures
        final(outs)@ == spec_mark_spent(old(outs)@, images@),
        matched@ == spec_matched_images(old(outs)@, images@),
{
    let ghost orig = outs@;
    let mut marked: Vec<OwnedOutput> = Vec::new();
    let mut i: usize = 0;
    while i < outs.len()
        invariant
            0 <= i <= outs@.len(),
            outs@ == orig,
            marked@ =~= spec_mark_spent(orig, images@).take(i as int),
        decreases outs@.len() - i,
    {
        let mut o = outs[i];
        if crate::types::contains_word(images, o.key_image) {
            o.spent = true;
        }
        marked.push(o);
        proof {
            assert(marked@ =~= spec_mark_spent(orig, images@).take(i as int + 1));
        }
        i += 1;
    }
    proof {
        assert(spec_mark_spent(orig, images@).take(orig.len() as int) =~= spec_mark_spent(
            orig,
            images@,
        ));
    }
    *outs = marked;
    let mut matched: Vec<u64> = Vec::new();
    let mut i2: usize = 0;
    proof {
        assert(images@.skip(0) =~= images@);
        assert(matched@ + spec_matched_images(orig, images@) =~= spec_matched_images(
            orig,
            images@,
        ));
    }
    while i2 < images.len()
        invariant
            0 <= i2 <= images@.len(),
            outs@ == spec_mark_spent(orig, images@),
            spec_matched_images(orig, images@) == matched@ + spec_matched_images(
                orig,
                images@.skip(i2 as int),
            ),
        decreases images@.len() - i2,
    {
        proof {
            assert(images@.skip(i2 as int)[0] == images@[i2 as int]);
            assert(images@.skip(i2 as int).skip(1) =~= images@.skip(i2 as int + 1));
        }
        if any_output_with_image(outs, images[i2]) {
            proof {
                lemma_mark_preserves_images(orig, images@);
            }
            matched.push(images[i2]);
            proof {
                assert(matched@.drop_last() + (seq![images@[i2 as int]] + spec_matched_images(
                    orig,
                    images@.skip(i2 as int + 1),
                )) =~= matched@ + spec_matched_images(orig, images@.skip(i2 as int + 1)));
            }
        } else {
            proof {
                lemma_mark_preserves_images(orig, images@);
            }
        }
        i2 += 1;
    }
    proof {
        assert(images@.skip(images@.len() as int) =~= Seq::<u64>::empty());
        assert(matched@ + Seq::<u64>::empty() =~= matched@);
    }
    matched
}

/// The key images among `images` that some recorded output carries.
pub open spec fn spec_matched_images(outs: Seq<OwnedOutput>, images: Seq<u64>) -> Seq<u64>
    decreases images.len(),
{
    if images.len() == 0 {
        Seq::empty()
    } else {
        let head = if spec_some_output_has_image(outs, images[0]) {
            seq![images[0]]
        } else {
            Seq::<u64>::empty()
        };
        head + spec_matched_images(outs, images.skip(1))
    }
}

pub open spec fn spec_some_output_has_image(outs: Seq<OwnedOutput>, image: u64) -> bool {
    exists|i: int| 0 <= i < outs.len() && (#[trigger] outs[i]).key_image == image
}

fn any_output_with_image(outs: &Vec<OwnedOutput>, image: u64) -> (r: bool)
    ensures
        r == spec_some_output_has_image(outs@, image),
{
    let mut i: usize = 0;
    while i < outs.len()
        invariant
            0 <= i <= outs@.len(),
            forall|j: int| 0 <= j < i ==> (#[trigger] outs@[j]).key_image != image,
        decreases outs@.len() - i,
    {
        if outs[i].key_image == image {
            assert(spec_some_output_has_image(outs@, image));
            return true;
        }
        i += 1;
    }
    false
}

/// Marking spent flags changes no key image, so image matching over
/// the marked list agrees with matching over the original.
proof fn lemma_mark_preserves_images(outs: Seq<OwnedOutput>, images: Seq<u64>)
    ensures
        forall|im: u64|
            #[trigger] spec_some_output_has_image(spec_mark_spent(outs, images), im)
                == spec_some_output_has_image(outs, im),
{
    let marked = spec_mark_spent(outs, images);
    assert forall|im: u64| #[trigger] spec_some_output_has_image(marked, im)
        == spec_some_output_has_image(outs, im) by {
        if spec_some_output_has_image(outs, im) {
            let i = choose|i: int| 0 <= i < outs.len() && (#[trigger] outs[i]).key_image == im;
            assert(marked[i].key_image == im);
        }
        if spec_some_output_has_image(marked, im) {
            let i = choose|i: int|
                0 <= i < marked.len() && (#[trigger] marked[i]).key_image == im;
            assert(outs[i].key_image == im);
        }
    }
}

/// Scan one prepared block: record its wallet-owned outputs
/// (deduplicated by transaction hash and output index) and then mark
/// spent every owned output whose key image the block consumed.
/// Returns the newly recorded outputs and the key images that
/// matched an owned output.
pub fn scan_block(
    outs: &mut Vec<OwnedOutput>,
    addresses: &Vec<Address>,
    pb: &PreparedBlock,
) -> (r: (Vec<OwnedOutput>, Vec<u64>))
    requires
        spec_prepared_wf(*pb, addresses@.len() as int),
    ensures
        final(outs)@ == spec_scan_block(old(outs)@, addresses@, *pb),
        r.0@ == spec_added(old(outs)@, spec_block_owned(addresses@, *pb)),
        r.1@ == spec_matched_images(
            spec_insert_new(old(outs)@, spec_block_owned(addresses@, *pb)),
            spec_block_images(*pb),
        ),
{
    let found = collect_owned(addresses, pb);
    let images = collect_images(pb);
    let added = insert_new(outs, &found);
    let matched = apply_spent(outs, &images);
    (added, matched)
}

/// Scan a contiguous run of prepared blocks in order, as one batch.
pub fn scan_blocks(
    outs: &mut Vec<OwnedOutput>,
    addresses: &Vec<Address>,
    pbs: &Vec<PreparedBlock>,
) -> (scanned: usize)
    requires
        forall|i: int|
            0 <= i < pbs@.len() ==> spec_prepared_wf(#[trigger] pbs@[i], addresses@.len() as int),
    ensures
        final(outs)@ == spec_scan_chain(old(outs)@, addresses@, pbs@),
        scanned == pbs@.len(),
{
    let mut i: usize = 0;
    proof {
        assert(pbs@.skip(0) =~= pbs@);
    }
    while i < pbs.len()
        invariant
            0 <= i <= pbs@.len(),
            forall|k: int|
                0 <= k < pbs@.len() ==> spec_prepared_wf(
                    #[trigger] pbs@[k],
                    addresses@.len() as int,
                ),
            spec_scan_chain(old(outs)@, addresses@, pbs@) == spec_scan_chain(
                outs@,
                addresses@,
                pbs@.skip(i as int),
            ),
        decreases pbs@.len() - i,
    {
        proof {
            assert(pbs@.skip(i as int)[0] == pbs@[i as int]);
            assert(pbs@.skip(i as int).skip(1) =~= pbs@.skip(i as int + 1));
        }
        scan_block(outs, addresses, &pbs[i]);
        i += 1;
    }
    proof {
        assert(pbs@.skip(pbs@.len() as int) =~= Seq::<PreparedBlock>::empty());
    }
    i
}

/// A key already present stays present through an insertion pass.
proof fn lemma_insert_preserves_has(
    outs: Seq<OwnedOutput>,
    found: Seq<OwnedOutput>,
    tx_hash: u64,
    output_index: u64,
)
    requires
        spec_has_output(outs, tx_hash, output_index),
    ensures
        spec_has_output(spec_insert_new(outs, found), tx_hash, output_index),
    decreases found.len(),
{
    if found.len() > 0 {
        let outs1 = if spec_has_output(outs, found[0].tx_hash, found[0].output_index) {
            outs
        } else {
            outs.push(found[0])
        };
        let w = choose|i: int|
            0 <= i < outs.len() && (#[trigger] outs[i]).tx_hash == tx_hash
                && outs[i].output_index == output_index;
        assert(outs1[w].tx_hash == tx_hash && outs1[w].output_index == output_index);
        lemma_insert_preserves_has(outs1, found.skip(1), tx_hash, output_index);
    }
}

/// After an insertion pass every discovered key is present.
proof fn lemma_insert_all_present(outs: Seq<OwnedOutput>, found: Seq<OwnedOutput>)
    ensures
        forall|idx: int|
            0 <= idx < found.len() ==> spec_has_output(
                spec_insert_new(outs, found),
                (#[trigger] found[idx]).tx_hash,
                found[idx].output_index,
            ),
    decreases found.len(),
{
    if found.len() > 0 {
        let outs1 = if spec_has_output(outs, found[0].tx_hash, found[0].output_index) {
            outs
        } else {
            outs.push(found[0])
        };
        assert(spec_has_output(outs1, found[0].tx_hash, found[0].output_index)) by {
            if !spec_has_output(outs, found[0].tx_hash, found[0].output_index) {
                assert(outs1[outs.len() as int] == found[0]);
            } else {
                let w = choose|i: int|
                    0 <= i < outs.len() && (#[trigger] outs[i]).tx_hash == found[0].tx_hash
                        && outs[i].output_index == found[0].output_index;
                assert(outs1[w].tx_hash == found[0].tx_hash);
            }
        }
        lemma_insert_preserves_has(outs1, found.skip(1), found[0].tx_hash, found[0].output_index);
        lemma_insert_all_present(outs1, found.skip(1));
        assert forall|idx: int| 0 <= idx < found.len() implies spec_has_output(
            spec_insert_new(outs, found),
            (#[trigger] found[idx]).tx_hash,
            found[idx].output_index,
        ) by {
            if idx > 0 {
                assert(found.skip(1)[idx - 1] == found[idx]);
            }
        }
    }
}

/// Inserting discoveries whose keys are all present changes nothing.
proof fn lemma_insert_noop(outs: Seq<OwnedOutput>, found: Seq<OwnedOutput>)
    requires
        forall|idx: int|
            0 <= idx < found.len() ==> spec_has_output(
                outs,
                (#[trigger] found[idx]).tx_hash,
                found[idx].output_index,
            ),
    ensures
        spec_insert_new(outs, found) == outs,
    decreases found.len(),
{
    if found.len() > 0 {
        assert(spec_has_output(outs, found[0].tx_hash, found[0].output_index));
        assert(forall|idx: int|
            0 <= idx < found.skip(1).len() ==> (#[trigger] found.skip(1)[idx]) == found[idx + 1]);
        lemma_insert_noop(outs, found.skip(1));
    }
}

/// Marking spends changes no dedupe key.
proof fn lemma_mark_preserves_has(outs: Seq<OwnedOutput>, images: Seq<u64>)
    ensures
        forall|tx_hash: u64, output_index: u64|
            #[trigger] spec_has_output(spec_mark_spent(outs, images), tx_hash, output_index)
                == spec_has_output(outs, tx_hash, output_index),
{
    let marked = spec_mark_spent(outs, images);
    assert forall|tx_hash: u64, output_index: u64| #[trigger] spec_has_output(
        marked,
        tx_hash,
        output_index,
    ) == spec_has_output(outs, tx_hash, output_index) by {
        if spec_has_output(outs, tx_hash, output_index) {
            let i = choose|i: int|
                0 <= i < outs.len() && (#[trigger] outs[i]).tx_hash == tx_hash
                    && outs[i].output_index == output_index;
            assert(marked[i].tx_hash == tx_hash && marked[i].output_index == output_index);
        }
        if spec_has_output(marked, tx_hash, output_index) {
            let i = choose|i: int|
                0 <= i < marked.len() && (#[trigger] marked[i]).tx_hash == tx_hash
                    && marked[i].output_index == output_index;
            assert(outs[i].tx_hash == tx_hash && outs[i].output_index == output_index);
        }
    }
}

/// Applying the same spends twice is the same as applying them once.
proof fn lemma_mark_idempotent(outs: Seq<OwnedOutput>, images: Seq<u64>)
    ensures
        spec_mark_spent(spec_mark_spent(outs, images), images) == spec_mark_spent(outs, images),
{
    let once = spec_mark_spent(outs, images);
    let twice = spec_mark_spent(once, images);
    assert forall|i: int| 0 <= i < once.len() implies twice[i] == once[i] by {
        assert(once[i] == spec_marked(outs[i], images));
        assert(once[i].key_image == outs[i].key_image);
    }
    assert(twice =~= once);
}

/// Rescanning an already-scanned block leaves the owned-output list
/// unchanged — in particular its count: the dedupe key makes
/// discovery idempotent and spend marks are absorbing.
pub proof fn lemma_rescan_idempotent(
    outs: Seq<OwnedOutput>,
    addresses: Seq<Address>,
    pb: PreparedBlock,
)
    ensures
        spec_scan_block(spec_scan_block(outs, addresses, pb), addresses, pb) == spec_scan_block(
            outs,
            addresses,
            pb,
        ),
{
    let discovered = spec_block_owned(addresses, pb);
    let images = spec_block_images(pb);
    let inserted = spec_insert_new(outs, discovered);
    let once = spec_mark_spent(inserted, images);
    lemma_insert_all_present(outs, discovered);
    lemma_mark_preserves_has(inserted, images);
    assert(forall|idx: int|
        0 <= idx < discovered.len() ==> spec_has_output(
            once,
            (#[trigger] discovered[idx]).tx_hash,
            discovered[idx].output_index,
        ));
    lemma_insert_noop(once, discovered);
    lemma_mark_idempotent(inserted, images);
}

/// Scanning a contiguous run block by block gives the same
/// owned-output list as scanning the same blocks as one batch:
/// chaining two runs equals scanning their concatenation.
pub proof fn lemma_scan_chain_append(
    outs: Seq<OwnedOutput>,
    addresses: Seq<Address>,
    first_run: Seq<PreparedBlock>,
    second_run: Seq<PreparedBlock>,
)
    ensures
        spec_scan_chain(outs, addresses, first_run + second_run) == spec_scan_chain(
            spec_scan_chain(outs, addresses, first_run),
            addresses,
            second_run,
        ),
    decreases first_run.len(),
{
    if first_run.len() == 0 {
        assert(first_run + second_run =~= second_run);
    } else {
        assert((first_run + second_run)[0] == first_run[0]);
        assert((first_run + second_run).skip(1) =~= first_run.skip(1) + second_run);
        lemma_scan_chain_append(
            spec_scan_block(outs, addresses, first_run[0]),
            addresses,
            first_run.skip(1),
            second_run,
        );
    }
}

} // verus!
