//! Derived view of confirmed and unconfirmed balances.
//!
//! The ledger is never stored: it is recomputed from the owned
//! outputs, so it can be rebuilt from the container on startup. An
//! unspent output counts as confirmed once it is buried at least the
//! confirmation depth below the highest synced height, measured in
//! blocks, never wall-clock time.
use vstd::prelude::*;

use crate::types::{Address, OwnedOutput};

verus! {

/// Aggregate unspent amounts, split by confirmation.
#[derive(Clone, Copy, PartialEq, Eq, Debug)]
pub struct BalanceInfo {
    pub confirmed: u128,
    pub unconfirmed: u128,
}

/// An output is buried deep enough to count as confirmed.
pub open spec fn spec_is_confirmed(o: OwnedOutput, synced_height: u64, depth: u64) -> bool {
    o.block_height + depth <= synced_height
}

/// Whether the output counts towards the balance being asked for:
/// it must be unspent, and when the query names an address it must
/// have been paid to that address's spend key.
pub open spec fn spec_counts_for(o: OwnedOutput, address: Option<u64>) -> bool {
    &&& !o.spent
    &&& match address {
        None => true,
        Some(a) => o.spend_public_key == a,
    }
}

/// Sum of the amounts of the unspent, confirmed outputs in view.
pub open spec fn spec_confirmed_sum(
    outs: Seq<OwnedOutput>,
    synced_height: u64,
    depth: u64,
    address: Option<u64>,
) -> int
    decreases outs.len(),
{
    if outs.len() == 0 {
        0
    } else {
        (if spec_counts_for(outs[0], address) && spec_is_confirmed(outs[0], synced_height, depth) {
            outs[0].amount as int
        } else {
            0
        }) + spec_confirmed_sum(outs.skip(1), synced_height, depth, address)
    }
}

/// Sum of the amounts of the unspent, not yet confirmed outputs.
pub open spec fn spec_unconfirmed_sum(
    outs: Seq<OwnedOutput>,
    synced_height: u64,
    depth: u64,
    address: Option<u64>,
) -> int
    decreases outs.len(),
{
    if outs.len() == 0 {
        0
    } else {
        (if spec_counts_for(outs[0], address) && !spec_is_confirmed(outs[0], synced_height, depth) {
            outs[0].amount as int
        } else {
            0
        }) + spec_unconfirmed_sum(outs.skip(1), synced_height, depth, address)
    }
}

/// Both sums are non-negative and bounded by the number of outputs
/// times the largest amount, so they fit a 128-bit accumulator.
proof fn lemma_sum_bounds(outs: Seq<OwnedOutput>, synced_height: u64, depth: u64, address: Option<
    u64,
>)
    ensures
        0 <= spec_confirmed_sum(outs, synced_height, depth, address) <= outs.len()
            * 0xffff_ffff_ffff_ffff,
        0 <= spec_unconfirmed_sum(outs, synced_height, depth, address) <= outs.len()
            * 0xffff_ffff_ffff_ffff,
    decreases outs.len(),
{
    if outs.len() > 0 {
        lemma_sum_bounds(outs.skip(1), synced_height, depth, address);
    }
}

/// The exact confirmed and unconfirmed totals over the given
/// outputs, optionally restricted to one address's spend key.
pub fn compute_balance(
    outs: &Vec<OwnedOutput>,
    synced_height: u64,
    depth: u64,
    address: Option<u64>,
) -> (r: BalanceInfo)
    ensures
        r.confirmed == spec_confirmed_sum(outs@, synced_height, depth, address),
        r.unconfirmed == spec_unconfirmed_sum(outs@, synced_height, depth, address),
{
    let mut confirmed: u128 = 0;
    let mut unconfirmed: u128 = 0;
    let mut i: usize = 0;
    let n = outs.len();
    proof {
        assert(outs@.len() == n);
        assert(outs@.skip(0) =~= outs@);
        lemma_sum_bounds(outs@, synced_height, depth, address);
        vstd::arithmetic::mul::lemma_mul_inequality(
            outs@.len() as int,
            0xffff_ffff_ffff_ffff,
            0xffff_ffff_ffff_ffff,
        );
    }
    while i < outs.len()
        invariant
            0 <= i <= outs@.len(),
            confirmed + spec_confirmed_sum(outs@.skip(i as int), synced_height, depth, address)
                == spec_confirmed_sum(outs@, synced_height, depth, address),
            unconfirmed + spec_unconfirmed_sum(outs@.skip(i as int), synced_height, depth, address)
                == spec_unconfirmed_sum(outs@, synced_height, depth, address),
            confirmed <= spec_confirmed_sum(outs@, synced_height, depth, address),
            unconfirmed <= spec_unconfirmed_sum(outs@, synced_height, depth, address),
            spec_confirmed_sum(outs@, synced_height, depth, address) <= 0xffff_ffff_ffff_ffff
                * 0xffff_ffff_ffff_ffff,
            spec_unconfirmed_sum(outs@, synced_height, depth, address) <= 0xffff_ffff_ffff_ffff
                * 0xffff_ffff_ffff_ffff,
        decreases outs@.len() - i,
    {
        proof {
            assert(outs@.skip(i as int)[0] == outs@[i as int]);
            assert(outs@.skip(i as int).skip(1) =~= outs@.skip(i as int + 1));
            lemma_sum_bounds(outs@.skip(i as int + 1), synced_height, depth, address);
            lemma_sum_bounds(outs@.skip(i as int), synced_height, depth, address);
        }
        let o = outs[i];
        let counts = !o.spent && (match address {
            None => true,
            Some(a) => o.spend_public_key == a,
        });
        if counts {
            if o.block_height <= synced_height && synced_height - o.block_height >= depth {
                confirmed = confirmed + o.amount as u128;
            } else {
                unconfirmed = unconfirmed + o.amount as u128;
            }
        }
        i += 1;
    }
    proof {
        assert(outs@.skip(outs@.len() as int) =~= Seq::<OwnedOutput>::empty());
    }
    BalanceInfo { confirmed, unconfirmed }
}

/// What one output contributes to a confirmed total.
pub open spec fn spec_confirmed_part(
    o: OwnedOutput,
    synced_height: u64,
    depth: u64,
    address: Option<u64>,
) -> int {
    if spec_counts_for(o, address) && spec_is_confirmed(o, synced_height, depth) {
        o.amount as int
    } else {
        0
    }
}

/// What one output contributes to an unconfirmed total.
pub open spec fn spec_unconfirmed_part(
    o: OwnedOutput,
    synced_height: u64,
    depth: u64,
    address: Option<u64>,
) -> int {
    if spec_counts_for(o, address) && !spec_is_confirmed(o, synced_height, depth) {
        o.amount as int
    } else {
        0
    }
}

/// The per-address confirmed totals of a list of addresses, added
/// up — what the all-balances query reports, summed.
pub open spec fn spec_confirmed_total_by_address(
    addresses: Seq<Address>,
    outs: Seq<OwnedOutput>,
    synced_height: u64,
    depth: u64,
) -> int
    decreases addresses.len(),
{
    if addresses.len() == 0 {
        0
    } else {
        spec_confirmed_sum(outs, synced_height, depth, Some(addresses[0].spend_public_key))
            + spec_confirmed_total_by_address(addresses.skip(1), outs, synced_height, depth)
    }
}

/// As `spec_confirmed_total_by_address`, for the unconfirmed side.
pub open spec fn spec_unconfirmed_total_by_address(
    addresses: Seq<Address>,
    outs: Seq<OwnedOutput>,
    synced_height: u64,
    depth: u64,
) -> int
    decreases addresses.len(),
{
    if addresses.len() == 0 {
        0
    } else {
        spec_unconfirmed_sum(outs, synced_height, depth, Some(addresses[0].spend_public_key))
            + spec_unconfirmed_total_by_address(addresses.skip(1), outs, synced_height, depth)
    }
}

/// Some listed address pays to this spend key.
pub open spec fn spec_address_listed(addresses: Seq<Address>, spend_public_key: u64) -> bool {
    exists|i: int|
        0 <= i < addresses.len() && (#[trigger] addresses[i]).spend_public_key == spend_public_key
}

/// What one output contributes across every listed address.
spec fn spec_confirmed_head(
    addresses: Seq<Address>,
    o: OwnedOutput,
    synced_height: u64,
    depth: u64,
) -> int
    decreases addresses.len(),
{
    if addresses.len() == 0 {
        0
    } else {
        spec_confirmed_part(o, synced_height, depth, Some(addresses[0].spend_public_key))
            + spec_confirmed_head(addresses.skip(1), o, synced_height, depth)
    }
}

spec fn spec_unconfirmed_head(
    addresses: Seq<Address>,
    o: OwnedOutput,
    synced_height: u64,
    depth: u64,
) -> int
    decreases addresses.len(),
{
    if addresses.len() == 0 {
        0
    } else {
        spec_unconfirmed_part(o, synced_height, depth, Some(addresses[0].spend_public_key))
            + spec_unconfirmed_head(addresses.skip(1), o, synced_height, depth)
    }
}

/// With no outputs every per-address total is zero.
proof fn lemma_total_empty(addresses: Seq<Address>, synced_height: u64, depth: u64)
    ensures
        spec_confirmed_total_by_address(addresses, Seq::empty(), synced_height, depth) == 0,
        spec_unconfirmed_total_by_address(addresses, Seq::empty(), synced_height, depth) == 0,
    decreases addresses.len(),
{
    if addresses.len() > 0 {
        lemma_total_empty(addresses.skip(1), synced_height, depth);
    }
}

/// Peeling the first output off distributes over the per-address
/// totals.
proof fn lemma_total_head(
    addresses: Seq<Address>,
    outs: Seq<OwnedOutput>,
    synced_height: u64,
    depth: u64,
)
    requires
        outs.len() > 0,
    ensures
        spec_confirmed_total_by_address(addresses, outs, synced_height, depth)
            == spec_confirmed_head(addresses, outs[0], synced_height, depth)
            + spec_confirmed_total_by_address(addresses, outs.skip(1), synced_height, depth),
        spec_unconfirmed_total_by_address(addresses, outs, synced_height, depth)
            == spec_unconfirmed_head(addresses, outs[0], synced_height, depth)
            + spec_unconfirmed_total_by_address(addresses, outs.skip(1), synced_height, depth),
    decreases addresses.len(),
{
    if addresses.len() > 0 {
        lemma_total_head(addresses.skip(1), outs, synced_height, depth);
    }
}

/// An output paid to no listed address contributes nothing.
proof fn lemma_head_unlisted(
    addresses: Seq<Address>,
    o: OwnedOutput,
    synced_height: u64,
    depth: u64,
)
    requires
        forall|i: int|
            0 <= i < addresses.len() ==> (#[trigger] addresses[i]).spend_public_key
                != o.spend_public_key,
    ensures
        spec_confirmed_head(addresses, o, synced_height, depth) == 0,
        spec_unconfirmed_head(addresses, o, synced_height, depth) == 0,
    decreases addresses.len(),
{
    if addresses.len() > 0 {
        assert(forall|i: int|
            0 <= i < addresses.skip(1).len() ==> (#[trigger] addresses.skip(1)[i])
                == addresses[i + 1]);
        lemma_head_unlisted(addresses.skip(1), o, synced_height, depth);
    }
}

/// An output paid to exactly one listed address contributes its
/// whole (unspent) amount exactly once across the addresses.
proof fn lemma_head_once(addresses: Seq<Address>, o: OwnedOutput, synced_height: u64, depth: u64)
    requires
        spec_address_listed(addresses, o.spend_public_key),
        forall|i: int, j: int|
            0 <= i < j < addresses.len() ==> (#[trigger] addresses[i]).spend_public_key != (
            #[trigger] addresses[j]).spend_public_key,
    ensures
        spec_confirmed_head(addresses, o, synced_height, depth) == spec_confirmed_part(
            o,
            synced_height,
            depth,
            None,
        ),
        spec_unconfirmed_head(addresses, o, synced_height, depth) == spec_unconfirmed_part(
            o,
            synced_height,
            depth,
            None,
        ),
    decreases addresses.len(),
{
    let rest = addresses.skip(1);
    assert(forall|i: int| 0 <= i < rest.len() ==> (#[trigger] rest[i]) == addresses[i + 1]);
    if addresses[0].spend_public_key == o.spend_public_key {
        assert(forall|i: int|
            0 <= i < rest.len() ==> (#[trigger] rest[i]).spend_public_key
                != o.spend_public_key) by {
            assert(forall|i: int|
                0 <= i < rest.len() ==> addresses[0].spend_public_key != (
                #[trigger] addresses[i + 1]).spend_public_key);
        }
        lemma_head_unlisted(rest, o, synced_height, depth);
    } else {
        let w = choose|i: int|
            0 <= i < addresses.len() && (#[trigger] addresses[i]).spend_public_key
                == o.spend_public_key;
        assert(rest[w - 1] == addresses[w]);
        assert(spec_address_listed(rest, o.spend_public_key));
        lemma_head_once(rest, o, synced_height, depth);
    }
}

/// The global balance distributes over the wallet's addresses: when
/// every output is paid to a listed address and no two listed
/// addresses share a spend key, the per-address confirmed and
/// unconfirmed totals add up, componentwise, to the totals over all
/// outputs. (Deleting an address that still has recorded outputs
/// voids the first hypothesis: those outputs keep counting globally
/// but belong to no listed address.)
pub proof fn lemma_balances_partition(
    addresses: Seq<Address>,
    outs: Seq<OwnedOutput>,
    synced_height: u64,
    depth: u64,
)
    requires
        forall|k: int|
            0 <= k < outs.len() ==> spec_address_listed(
                addresses,
                (#[trigger] outs[k]).spend_public_key,
            ),
        forall|i: int, j: int|
            0 <= i < j < addresses.len() ==> (#[trigger] addresses[i]).spend_public_key != (
            #[trigger] addresses[j]).spend_public_key,
    ensures
        spec_confirmed_total_by_address(addresses, outs, synced_height, depth)
            == spec_confirmed_sum(outs, synced_height, depth, None),
        spec_unconfirmed_total_by_address(addresses, outs, synced_height, depth)
            == spec_unconfirmed_sum(outs, synced_height, depth, None),
    decreases outs.len(),
{
    if outs.len() == 0 {
        assert(outs =~= Seq::<OwnedOutput>::empty());
        lemma_total_empty(addresses, synced_height, depth);
    } else {
        lemma_total_head(addresses, outs, synced_height, depth);
        lemma_head_once(addresses, outs[0], synced_height, depth);
        let rest = outs.skip(1);
        assert(forall|k: int| 0 <= k < rest.len() ==> (#[trigger] rest[k]) == outs[k + 1]);
        assert(forall|k: int|
            0 <= k < rest.len() ==> spec_address_listed(
                addresses,
                (#[trigger] rest[k]).spend_public_key,
            )) by {
            assert(forall|k: int|
                0 <= k < rest.len() ==> spec_address_listed(
                    addresses,
                    (#[trigger] outs[k + 1]).spend_public_key,
                ));
        }
        lemma_balances_partition(addresses, rest, synced_height, depth);
    }
}

} // verus!
