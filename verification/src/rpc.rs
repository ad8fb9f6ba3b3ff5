//! The wallet server: the remote operation surface as verified
//! method dispatch.
//!
//! Every operation that targets a wallet names it, and the server
//! answers for exactly one open wallet at a time; transport (the RPC
//! listener, string encoding of keys and addresses) stays outside
//! the library and hands plain values in. Reads never change state;
//! every operation reports failure distinctly from success.
use vstd::prelude::*;

use crate::ledger::{spec_confirmed_sum, spec_counts_for, spec_is_confirmed, spec_unconfirmed_sum,
    BalanceInfo};
use crate::node::{spec_details_eq, NodeDetails, NodeHandler};
use crate::queue::SyncQueue;
use crate::session::{copy_vec, spec_container_acceptable, WalletSession};
use crate::store::{open_container, save_container, spec_open, spec_save, ContainerModel,
    WalletContainer};
use crate::types::{bytes_equal, Address, KeyPair, OwnedOutput, WalletError};
use crate::DEFAULT_CONFIRMATION_DEPTH;

verus! {

/// The wallet the server currently serves, under its name.
pub struct OpenWallet {
    pub name: Vec<u8>,
    pub session: WalletSession,
}

/// One open wallet plus the configured node connection.
pub struct WalletRPCServer {
    pub wallet: Option<OpenWallet>,
    pub node: NodeHandler,
}

/// Confirmed and unconfirmed totals of one address.
#[derive(Clone, Copy, PartialEq, Eq, Debug)]
pub struct AddressBalance {
    pub address: u64,
    pub confirmed: u128,
    pub unconfirmed: u128,
}

/// Sync progress as the status query reports it.
#[derive(Clone, Copy, PartialEq, Eq, Debug)]
pub struct SyncStatus {
    pub synced_height: u64,
    pub tip_hash: u64,
    pub queued_blocks: u64,
    pub checkpoint_count: u64,
}

/// The first stored address paying to this spend key.
fn find_address(addresses: &Vec<Address>, spend_public_key: u64) -> (r: Option<usize>)
    ensures
        match r {
            Some(i) => i < addresses@.len() && addresses@[i as int].spend_public_key
                == spend_public_key && (forall|j: int|
                0 <= j < i ==> (#[trigger] addresses@[j]).spend_public_key != spend_public_key),
            None => forall|j: int|
                0 <= j < addresses@.len() ==> (#[trigger] addresses@[j]).spend_public_key
                    != spend_public_key,
        },
{
    let mut i: usize = 0;
    while i < addresses.len()
        invariant
            0 <= i <= addresses@.len(),
            forall|j: int|
                0 <= j < i ==> (#[trigger] addresses@[j]).spend_public_key != spend_public_key,
        decreases addresses@.len() - i,
    {
        if addresses[i].spend_public_key == spend_public_key {
            return Some(i);
        }
        i += 1;
    }
    None
}

impl WalletRPCServer {
    /// The one server invariant: an open wallet's session is well
    /// formed.
    pub open spec fn inv(&self) -> bool {
        self.wallet matches Some(w) ==> w.session.wf()
    }

    pub open spec fn wallet_is_open(&self) -> bool {
        self.wallet is Some
    }

    pub open spec fn spec_session(&self) -> WalletSession {
        self.wallet->Some_0.session
    }

    /// Why an operation targeting `name` fails before it starts, if
    /// it does: no wallet open, or another wallet is.
    pub open spec fn spec_target_err(&self, name: Seq<u8>) -> Option<WalletError> {
        if !(self.wallet is Some) {
            Some(WalletError::WalletNotOpen)
        } else if self.wallet->Some_0.name@ != name {
            Some(WalletError::WrongWalletName)
        } else {
            None
        }
    }

    pub fn new(node: NodeHandler) -> (r: Self)
        ensures
            r.inv(),
            !r.wallet_is_open(),
    {
        WalletRPCServer { wallet: None, node }
    }

    // ---- reads ----

    /// The configured daemon's connection details.
    pub fn get_node_info(&self) -> (r: NodeDetails)
        ensures
            spec_details_eq(r, self.node.details),
    {
        self.node.get_node_details()
    }

    /// The wallet's private view key.
    pub fn get_private_view_key(&self) -> (r: Result<u64, WalletError>)
        requires
            self.inv(),
        ensures
            !self.wallet_is_open() ==> r == Err::<u64, WalletError>(WalletError::WalletNotOpen),
            self.wallet_is_open() ==> r == Ok::<u64, WalletError>(
                self.spec_session().view_keys.private_key,
            ),
    {
        match &self.wallet {
            None => Err(WalletError::WalletNotOpen),
            Some(w) => Ok(w.session.view_keys.private_key),
        }
    }

    /// The key pair behind an address. A view-only wallet holds no
    /// spend secret to hand out.
    pub fn get_spend_keys(&self, address: u64) -> (r: Result<KeyPair, WalletError>)
        requires
            self.inv(),
        ensures
            !self.wallet_is_open() ==> r == Err::<KeyPair, WalletError>(WalletError::WalletNotOpen),
            self.wallet_is_open() && self.spec_session().view_only ==> r == Err::<
                KeyPair,
                WalletError,
            >(WalletError::UnsupportedOperation),
            self.wallet_is_open() && !self.spec_session().view_only ==> match r {
                Ok(k) => k.public_key == address && k.private_key
                    == self.spec_session().spend_keys.private_key && (exists|j: int|
                    0 <= j < self.spec_session().addresses@.len() && (
                    #[trigger] self.spec_session().addresses@[j]).spend_public_key == address),
                Err(e) => e == WalletError::AddressNotFound && (forall|j: int|
                    0 <= j < self.spec_session().addresses@.len() ==> (
                    #[trigger] self.spec_session().addresses@[j]).spend_public_key != address),
            },
    {
        match &self.wallet {
            None => Err(WalletError::WalletNotOpen),
            Some(w) => {
                if w.session.view_only {
                    return Err(WalletError::UnsupportedOperation);
                }
                match find_address(&w.session.addresses, address) {
                    None => Err(WalletError::AddressNotFound),
                    Some(_) => Ok(
                        KeyPair {
                            public_key: address,
                            private_key: w.session.spend_keys.private_key,
                        },
                    ),
                }
            },
        }
    }

    /// The seed material of the primary address: in this key scheme
    /// the master spend secret is the seed.
    pub fn get_mnemonic_seed(&self, address: u64) -> (r: Result<u64, WalletError>)
        requires
            self.inv(),
        ensures
            !self.wallet_is_open() ==> r == Err::<u64, WalletError>(WalletError::WalletNotOpen),
            self.wallet_is_open() && self.spec_session().view_only ==> r == Err::<u64, WalletError>(
                WalletError::UnsupportedOperation,
            ),
            self.wallet_is_open() && !self.spec_session().view_only ==> r == (if address
                == self.spec_session().spend_keys.public_key {
                Ok::<u64, WalletError>(self.spec_session().spend_keys.private_key)
            } else {
                Err::<u64, WalletError>(WalletError::AddressNotFound)
            }),
    {
        match &self.wallet {
            None => Err(WalletError::WalletNotOpen),
            Some(w) => {
                if w.session.view_only {
                    Err(WalletError::UnsupportedOperation)
                } else if address == w.session.spend_keys.public_key {
                    Ok(w.session.spend_keys.private_key)
                } else {
                    Err(WalletError::AddressNotFound)
                }
            },
        }
    }

    /// Sync progress of the open wallet.
    pub fn get_status(&self) -> (r: Result<SyncStatus, WalletError>)
        requires
            self.inv(),
        ensures
            !self.wallet_is_open() ==> r == Err::<SyncStatus, WalletError>(
                WalletError::WalletNotOpen,
            ),
            self.wallet_is_open() ==> r == Ok::<SyncStatus, WalletError>(
                SyncStatus {
                    synced_height: self.spec_session().synced_height,
                    tip_hash: self.spec_session().tip_hash,
                    queued_blocks: self.spec_session().queue.entries@.len() as u64,
                    checkpoint_count: self.spec_session().tracker.checkpoints@.len() as u64,
                },
            ),
    {
        match &self.wallet {
            None => Err(WalletError::WalletNotOpen),
            Some(w) => Ok(
                SyncStatus {
                    synced_height: w.session.synced_height,
                    tip_hash: w.session.tip_hash,
                    queued_blocks: w.session.queue.len() as u64,
                    checkpoint_count: w.session.tracker.len() as u64,
                },
            ),
        }
    }

    /// Every address of the wallet, primary first.
    pub fn get_addresses(&self) -> (r: Result<Vec<Address>, WalletError>)
        requires
            self.inv(),
        ensures
            !self.wallet_is_open() ==> r == Err::<Vec<Address>, WalletError>(
                WalletError::WalletNotOpen,
            ),
            self.wallet_is_open() ==> (r matches Ok(v) && v@ == self.spec_session().addresses@),
    {
        match &self.wallet {
            None => Err(WalletError::WalletNotOpen),
            Some(w) => Ok(copy_vec(&w.session.addresses)),
        }
    }

    /// The wallet's primary address.
    pub fn get_primary_address(&self) -> (r: Result<Address, WalletError>)
        requires
            self.inv(),
        ensures
            !self.wallet_is_open() ==> r == Err::<Address, WalletError>(WalletError::WalletNotOpen),
            self.wallet_is_open() ==> r == Ok::<Address, WalletError>(
                self.spec_session().addresses@[0],
            ),
    {
        match &self.wallet {
            None => Err(WalletError::WalletNotOpen),
            Some(w) => {
                proof {
                    assert(w.session.addresses@.len() >= 1);
                }
                Ok(w.session.addresses[0])
            },
        }
    }

    /// An integrated address: a stored address with the payment id
    /// folded in.
    pub fn create_integrated_address(&self, address: u64, payment_id: u64) -> (r: Result<
        Address,
        WalletError,
    >)
        requires
            self.inv(),
        ensures
            !self.wallet_is_open() ==> r == Err::<Address, WalletError>(WalletError::WalletNotOpen),
            self.wallet_is_open() ==> match r {
                Ok(a) => a.spend_public_key == address && a.has_payment_id && a.payment_id
                    == payment_id && (exists|j: int|
                    0 <= j < self.spec_session().addresses@.len() && (
                    #[trigger] self.spec_session().addresses@[j]).spend_public_key == address
                        && a.view_public_key
                        == self.spec_session().addresses@[j].view_public_key),
                Err(e) => e == WalletError::AddressNotFound && (forall|j: int|
                    0 <= j < self.spec_session().addresses@.len() ==> (
                    #[trigger] self.spec_session().addresses@[j]).spend_public_key != address),
            },
    {
        match &self.wallet {
            None => Err(WalletError::WalletNotOpen),
            Some(w) => match find_address(&w.session.addresses, address) {
                None => Err(WalletError::AddressNotFound),
                Some(i) => {
                    proof {
                        assert((self.spec_session().addresses@[i as int]).spend_public_key
                            == address);
                    }
                    Ok(
                        Address {
                            spend_public_key: address,
                            view_public_key: w.session.addresses[i].view_public_key,
                            has_payment_id: true,
                            payment_id,
                        },
                    )
                },
            },
        }
    }

    /// The wallet's transfer records: every owned output, spent or
    /// not, oldest first — the audit trail the scan maintains.
    pub fn get_transactions(&self) -> (r: Result<Vec<OwnedOutput>, WalletError>)
        requires
            self.inv(),
        ensures
            !self.wallet_is_open() ==> r == Err::<Vec<OwnedOutput>, WalletError>(
                WalletError::WalletNotOpen,
            ),
            self.wallet_is_open() ==> (r matches Ok(v) && v@ == self.spec_session().outputs@),
    {
        match &self.wallet {
            None => Err(WalletError::WalletNotOpen),
            Some(w) => Ok(copy_vec(&w.session.outputs)),
        }
    }

    /// The unspent transfer records still below the confirmation
    /// depth.
    pub fn get_unconfirmed_transactions(&self) -> (r: Result<Vec<OwnedOutput>, WalletError>)
        requires
            self.inv(),
        ensures
            !self.wallet_is_open() ==> r == Err::<Vec<OwnedOutput>, WalletError>(
                WalletError::WalletNotOpen,
            ),
            self.wallet_is_open() ==> (r matches Ok(v) && v@ == self.spec_session().outputs@.filter(
                |o: OwnedOutput| spec_counts_for(o, None) && !spec_is_confirmed(
                    o,
                    self.spec_session().synced_height,
                    self.spec_session().confirmation_depth,
                ),
            )),
    {
        match &self.wallet {
            None => Err(WalletError::WalletNotOpen),
            Some(w) => Ok(filter_unconfirmed(&w.session.outputs, w.session.synced_height,
                w.session.confirmation_depth, None)),
        }
    }

    /// As `get_unconfirmed_transactions`, restricted to one address.
    pub fn get_unconfirmed_transactions_for_address(&self, address: u64) -> (r: Result<
        Vec<OwnedOutput>,
        WalletError,
    >)
        requires
            self.inv(),
        ensures
            !self.wallet_is_open() ==> r == Err::<Vec<OwnedOutput>, WalletError>(
                WalletError::WalletNotOpen,
            ),
            self.wallet_is_open() ==> match r {
                Ok(v) => v@ == self.spec_session().outputs@.filter(
                    |o: OwnedOutput| spec_counts_for(o, Some(address)) && !spec_is_confirmed(
                        o,
                        self.spec_session().synced_height,
                        self.spec_session().confirmation_depth,
                    ),
                ) && (exists|j: int|
                    0 <= j < self.spec_session().addresses@.len() && (
                    #[trigger] self.spec_session().addresses@[j]).spend_public_key == address),
                Err(e) => e == WalletError::AddressNotFound && (forall|j: int|
                    0 <= j < self.spec_session().addresses@.len() ==> (
                    #[trigger] self.spec_session().addresses@[j]).spend_public_key != address),
            },
    {
        match &self.wallet {
            None => Err(WalletError::WalletNotOpen),
            Some(w) => match find_address(&w.session.addresses, address) {
                None => Err(WalletError::AddressNotFound),
                Some(i) => {
                    proof {
                        assert((self.spec_session().addresses@[i as int]).spend_public_key
                            == address);
                    }
                    Ok(filter_unconfirmed(&w.session.outputs, w.session.synced_height,
                        w.session.confirmation_depth, Some(address)))
                },
            },
        }
    }

    /// Transfer records at or above a height.
    pub fn get_transactions_from_height(&self, block_height: u64) -> (r: Result<
        Vec<OwnedOutput>,
        WalletError,
    >)
        requires
            self.inv(),
        ensures
            !self.wallet_is_open() ==> r == Err::<Vec<OwnedOutput>, WalletError>(
                WalletError::WalletNotOpen,
            ),
            self.wallet_is_open() ==> (r matches Ok(v) && v@ == self.spec_session().outputs@.filter(
                |o: OwnedOutput| block_height <= o.block_height <= u64::MAX,
            )),
    {
        match &self.wallet {
            None => Err(WalletError::WalletNotOpen),
            Some(w) => Ok(filter_range(&w.session.outputs, block_height, u64::MAX, None)),
        }
    }

    /// Transfer records with a height in `[start_height, end_height]`.
    pub fn get_transactions_from_height_to_height(&self, start_height: u64, end_height: u64) -> (r:
        Result<Vec<OwnedOutput>, WalletError>)
        requires
            self.inv(),
        ensures
            !self.wallet_is_open() ==> r == Err::<Vec<OwnedOutput>, WalletError>(
                WalletError::WalletNotOpen,
            ),
            self.wallet_is_open() && start_height > end_height ==> r == Err::<
                Vec<OwnedOutput>,
                WalletError,
            >(WalletError::InvalidRequest),
            self.wallet_is_open() && start_height <= end_height ==> (r matches Ok(v) && v@
                == self.spec_session().outputs@.filter(
                |o: OwnedOutput| start_height <= o.block_height <= end_height,
            )),
    {
        match &self.wallet {
            None => Err(WalletError::WalletNotOpen),
            Some(w) => {
                if start_height > end_height {
                    return Err(WalletError::InvalidRequest);
                }
                Ok(filter_range(&w.session.outputs, start_height, end_height, None))
            },
        }
    }

    /// As `get_transactions_from_height`, restricted to one address.
    pub fn get_transactions_from_height_with_address(&self, address: u64, block_height: u64) -> (r:
        Result<Vec<OwnedOutput>, WalletError>)
        requires
            self.inv(),
        ensures
            !self.wallet_is_open() ==> r == Err::<Vec<OwnedOutput>, WalletError>(
                WalletError::WalletNotOpen,
            ),
            self.wallet_is_open() ==> (r matches Ok(v) && v@ == self.spec_session().outputs@.filter(
                |o: OwnedOutput| o.spend_public_key == address && block_height <= o.block_height
                    <= u64::MAX,
            )),
    {
        match &self.wallet {
            None => Err(WalletError::WalletNotOpen),
            Some(w) => {
                let v = filter_range(&w.session.outputs, block_height, u64::MAX, Some(address));
                Ok(v)
            },
        }
    }

    /// As `get_transactions_from_height_to_height`, restricted to
    /// one address.
    pub fn get_transactions_from_height_to_height_with_address(
        &self,
        address: u64,
        start_height: u64,
        end_height: u64,
    ) -> (r: Result<Vec<OwnedOutput>, WalletError>)
        requires
            self.inv(),
        ensures
            !self.wallet_is_open() ==> r == Err::<Vec<OwnedOutput>, WalletError>(
                WalletError::WalletNotOpen,
            ),
            self.wallet_is_open() && start_height > end_height ==> r == Err::<
                Vec<OwnedOutput>,
                WalletError,
            >(WalletError::InvalidRequest),
            self.wallet_is_open() && start_height <= end_height ==> (r matches Ok(v) && v@
                == self.spec_session().outputs@.filter(
                |o: OwnedOutput| o.spend_public_key == address && start_height <= o.block_height
                    <= end_height,
            )),
    {
        match &self.wallet {
            None => Err(WalletError::WalletNotOpen),
            Some(w) => {
                if start_height > end_height {
                    return Err(WalletError::InvalidRequest);
                }
                Ok(filter_range(&w.session.outputs, start_height, end_height, Some(address)))
            },
        }
    }

    /// Per-transaction secrets exist only for transactions this
    /// wallet built; the engine builds none, so every hash is
    /// unknown.
    pub fn get_tx_private_key(&self, hash: u64) -> (r: Result<u64, WalletError>)
        requires
            self.inv(),
        ensures
            !self.wallet_is_open() ==> r == Err::<u64, WalletError>(WalletError::WalletNotOpen),
            self.wallet_is_open() ==> r == Err::<u64, WalletError>(WalletError::TransactionNotFound),
    {
        match &self.wallet {
            None => Err(WalletError::WalletNotOpen),
            Some(_) => Err(WalletError::TransactionNotFound),
        }
    }

    /// The transfer records of one transaction.
    pub fn get_transaction_details(&self, hash: u64) -> (r: Result<Vec<OwnedOutput>, WalletError>)
        requires
            self.inv(),
        ensures
            !self.wallet_is_open() ==> r == Err::<Vec<OwnedOutput>, WalletError>(
                WalletError::WalletNotOpen,
            ),
            self.wallet_is_open() ==> {
                let matching = self.spec_session().outputs@.filter(
                    |o: OwnedOutput| o.tx_hash == hash,
                );
                match r {
                    Ok(v) => v@ == matching && matching.len() > 0,
                    Err(e) => e == WalletError::TransactionNotFound && matching.len() == 0,
                }
            },
    {
        match &self.wallet {
            None => Err(WalletError::WalletNotOpen),
            Some(w) => {
                let v = filter_by_hash(&w.session.outputs, hash);
                if v.len() == 0 {
                    Err(WalletError::TransactionNotFound)
                } else {
                    Ok(v)
                }
            },
        }
    }

    /// Confirmed and unconfirmed totals over the whole wallet.
    pub fn get_balance(&self) -> (r: Result<BalanceInfo, WalletError>)
        requires
            self.inv(),
        ensures
            !self.wallet_is_open() ==> r == Err::<BalanceInfo, WalletError>(
                WalletError::WalletNotOpen,
            ),
            self.wallet_is_open() ==> (r matches Ok(b) && b.confirmed == spec_confirmed_sum(
                self.spec_session().outputs@,
                self.spec_session().synced_height,
                self.spec_session().confirmation_depth,
                None,
            ) && b.unconfirmed == spec_unconfirmed_sum(
                self.spec_session().outputs@,
                self.spec_session().synced_height,
                self.spec_session().confirmation_depth,
                None,
            )),
    {
        match &self.wallet {
            None => Err(WalletError::WalletNotOpen),
            Some(w) => Ok(w.session.balance(None)),
        }
    }

    /// Totals for one address.
    pub fn get_balance_for_address(&self, address: u64) -> (r: Result<BalanceInfo, WalletError>)
        requires
            self.inv(),
        ensures
            !self.wallet_is_open() ==> r == Err::<BalanceInfo, WalletError>(
                WalletError::WalletNotOpen,
            ),
            self.wallet_is_open() ==> match r {
                Ok(b) => b.confirmed == spec_confirmed_sum(
                    self.spec_session().outputs@,
                    self.spec_session().synced_height,
                    self.spec_session().confirmation_depth,
                    Some(address),
                ) && b.unconfirmed == spec_unconfirmed_sum(
                    self.spec_session().outputs@,
                    self.spec_session().synced_height,
                    self.spec_session().confirmation_depth,
                    Some(address),
                ) && (exists|j: int|
                    0 <= j < self.spec_session().addresses@.len() && (
                    #[trigger] self.spec_session().addresses@[j]).spend_public_key == address),
                Err(e) => e == WalletError::AddressNotFound && (forall|j: int|
                    0 <= j < self.spec_session().addresses@.len() ==> (
                    #[trigger] self.spec_session().addresses@[j]).spend_public_key != address),
            },
    {
        match &self.wallet {
            None => Err(WalletError::WalletNotOpen),
            Some(w) => match find_address(&w.session.addresses, address) {
                None => Err(WalletError::AddressNotFound),
                Some(i) => {
                    proof {
                        assert((self.spec_session().addresses@[i as int]).spend_public_key
                            == address);
                    }
                    Ok(w.session.balance(Some(address)))
                },
            },
        }
    }

    /// Totals of every address, in address order.
    pub fn get_balances(&self) -> (r: Result<Vec<AddressBalance>, WalletError>)
        requires
            self.inv(),
        ensures
            !self.wallet_is_open() ==> r == Err::<Vec<AddressBalance>, WalletError>(
                WalletError::WalletNotOpen,
            ),
            self.wallet_is_open() ==> (r matches Ok(v) && v@.len()
                == self.spec_session().addresses@.len() && (forall|i: int|
                0 <= i < v@.len() ==> {
                    let a = (#[trigger] self.spec_session().addresses@[i]).spend_public_key;
                    &&& v@[i].address == a
                    &&& v@[i].confirmed == spec_confirmed_sum(
                        self.spec_session().outputs@,
                        self.spec_session().synced_height,
                        self.spec_session().confirmation_depth,
                        Some(a),
                    )
                    &&& v@[i].unconfirmed == spec_unconfirmed_sum(
                        self.spec_session().outputs@,
                        self.spec_session().synced_height,
                        self.spec_session().confirmation_depth,
                        Some(a),
                    )
                })),
    {
        match &self.wallet {
            None => Err(WalletError::WalletNotOpen),
            Some(w) => {
                let mut v: Vec<AddressBalance> = Vec::new();
                let mut i: usize = 0;
                while i < w.session.addresses.len()
                    invariant
                        0 <= i <= w.session.addresses@.len(),
                        v@.len() == i,
                        forall|k: int|
                            0 <= k < i ==> {
                                let a = (
                                #[trigger] w.session.addresses@[k]).spend_public_key;
                                &&& v@[k].address == a
                                &&& v@[k].confirmed == spec_confirmed_sum(
                                    w.session.outputs@,
                                    w.session.synced_height,
                                    w.session.confirmation_depth,
                                    Some(a),
                                )
                                &&& v@[k].unconfirmed == spec_unconfirmed_sum(
                                    w.session.outputs@,
                                    w.session.synced_height,
                                    w.session.confirmation_depth,
                                    Some(a),
                                )
                            },
                    decreases w.session.addresses@.len() - i,
                {
                    let a = w.session.addresses[i].spend_public_key;
                    let b = w.session.balance(Some(a));
                    v.push(
                        AddressBalance {
                            address: a,
                            confirmed: b.confirmed,
                            unconfirmed: b.unconfirmed,
                        },
                    );
                    i += 1;
                }
                Ok(v)
            },
        }
    }

    // ---- wallet lifecycle ----

    /// Open a wallet from its stored words: decipher, decode,
    /// validate, and serve it under `name`. The words come from the
    /// caller's file read; the store decides everything else. A file
    /// that deciphers to an acceptable container is owed acceptance;
    /// every failure leaves the server exactly as it was, with
    /// nothing of the container loaded.
    pub fn wallet_open(&mut self, name: &Vec<u8>, file_words: &Vec<u64>, password: &Vec<u8>) -> (r:
        Result<(), WalletError>)
        requires
            old(self).inv(),
        ensures
            final(self).inv(),
            final(self).node == old(self).node,
            old(self).wallet_is_open() ==> r == Err::<(), WalletError>(
                WalletError::WalletAlreadyOpen,
            ) && *final(self) == *old(self),
            !old(self).wallet_is_open() ==> match r {
                Ok(()) => {
                    &&& final(self).wallet_is_open()
                    &&& final(self).wallet->Some_0.name@ == name@
                    &&& (spec_open(file_words@, password@) matches Ok(m)
                        && spec_container_acceptable(m) && final(self).spec_session().spec_container_model() == (ContainerModel {
                        version: crate::WALLET_FILE_FORMAT_VERSION,
                        ..m
                    }))
                },
                Err(e) => {
                    &&& *final(self) == *old(self)
                    &&& ((spec_open(file_words@, password@) == Err::<ContainerModel, WalletError>(
                        e,
                    )) || (spec_open(file_words@, password@) matches Ok(m)
                        && !spec_container_acceptable(m) && e == WalletError::CorruptFile))
                },
            },
    {
        if self.wallet.is_some() {
            return Err(WalletError::WalletAlreadyOpen);
        }
        let container = match open_container(file_words, password) {
            Ok(c) => c,
            Err(e) => {
                return Err(e);
            },
        };
        let session = match WalletSession::from_container(&container) {
            Ok(s) => s,
            Err(e) => {
                return Err(e);
            },
        };
        self.wallet = Some(OpenWallet { name: copy_vec(name), session });
        Ok(())
    }

    /// Create a fresh wallet from a master key pair, served under
    /// `name`. The keys, the salt and the creation point come from
    /// the caller (key generation is the crypto collaborator's
    /// work); everything after is the engine's.
    pub fn wallet_create(
        &mut self,
        name: &Vec<u8>,
        spend_keys: KeyPair,
        view_keys: KeyPair,
        salt: u64,
        creation_height: u64,
        creation_hash: u64,
    ) -> (r: Result<(), WalletError>)
        requires
            old(self).inv(),
        ensures
            final(self).inv(),
            old(self).wallet_is_open() ==> r == Err::<(), WalletError>(
                WalletError::WalletAlreadyOpen,
            ) && *final(self) == *old(self),
            !old(self).wallet_is_open() && creation_height == u64::MAX ==> r == Err::<
                (),
                WalletError,
            >(WalletError::InvalidRequest) && !final(self).wallet_is_open(),
            !old(self).wallet_is_open() && creation_height < u64::MAX ==> r == Ok::<
                (),
                WalletError,
            >(()) && final(self).wallet_is_open() && final(self).wallet->Some_0.name@ == name@ && {
                let s = final(self).spec_session();
                &&& s.spend_keys == spend_keys
                &&& s.view_keys == view_keys
                &&& !s.view_only
                &&& s.salt == salt
                &&& s.iterations == crate::PBKDF2_ITERATIONS
                &&& s.creation_height == creation_height
                &&& s.synced_height == creation_height
                &&& s.outputs@.len() == 0
                &&& s.confirmation_depth == DEFAULT_CONFIRMATION_DEPTH
            },
    {
        if self.wallet.is_some() {
            return Err(WalletError::WalletAlreadyOpen);
        }
        if creation_height == u64::MAX {
            return Err(WalletError::InvalidRequest);
        }
        let session = WalletSession::new(
            spend_keys,
            view_keys,
            false,
            salt,
            crate::PBKDF2_ITERATIONS,
            creation_height,
            creation_hash,
            DEFAULT_CONFIRMATION_DEPTH,
        );
        self.wallet = Some(OpenWallet { name: copy_vec(name), session });
        Ok(())
    }

    /// Import a wallet from its master keys: a create at an earlier
    /// chain point, so history is rescanned from there.
    pub fn wallet_import_key(
        &mut self,
        name: &Vec<u8>,
        spend_keys: KeyPair,
        view_keys: KeyPair,
        salt: u64,
        creation_height: u64,
        creation_hash: u64,
    ) -> (r: Result<(), WalletError>)
        requires
            old(self).inv(),
        ensures
            final(self).inv(),
            old(self).wallet_is_open() ==> r == Err::<(), WalletError>(
                WalletError::WalletAlreadyOpen,
            ) && *final(self) == *old(self),
            !old(self).wallet_is_open() && creation_height == u64::MAX ==> r == Err::<
                (),
                WalletError,
            >(WalletError::InvalidRequest) && !final(self).wallet_is_open(),
            !old(self).wallet_is_open() && creation_height < u64::MAX ==> r == Ok::<
                (),
                WalletError,
            >(()) && final(self).wallet_is_open() && final(self).spec_session().spend_keys
                == spend_keys && final(self).spec_session().view_keys == view_keys && !final(self).spec_session().view_only,
    {
        self.wallet_create(name, spend_keys, view_keys, salt, creation_height, creation_hash)
    }

    /// Restoring from seed words needs the crypto collaborator's
    /// wordlist expansion, which the engine does not model; import
    /// the expanded keys through `wallet_import_key` instead.
    pub fn wallet_import_seed(&mut self, name: &Vec<u8>) -> (r: Result<(), WalletError>)
        requires
            old(self).inv(),
        ensures
            final(self).inv(),
            r == Err::<(), WalletError>(WalletError::UnsupportedOperation),
            *final(self) == *old(self),
    {
        let _ = name;
        Err(WalletError::UnsupportedOperation)
    }

    /// Import a view-only wallet: the public spend key plus the view
    /// pair. It can watch incoming outputs but holds no spend secret.
    pub fn wallet_import_view(
        &mut self,
        name: &Vec<u8>,
        spend_public_key: u64,
        view_keys: KeyPair,
        salt: u64,
        creation_height: u64,
        creation_hash: u64,
    ) -> (r: Result<(), WalletError>)
        requires
            old(self).inv(),
        ensures
            final(self).inv(),
            old(self).wallet_is_open() ==> r == Err::<(), WalletError>(
                WalletError::WalletAlreadyOpen,
            ) && *final(self) == *old(self),
            !old(self).wallet_is_open() && creation_height == u64::MAX ==> r == Err::<
                (),
                WalletError,
            >(WalletError::InvalidRequest) && !final(self).wallet_is_open(),
            !old(self).wallet_is_open() && creation_height < u64::MAX ==> r == Ok::<
                (),
                WalletError,
            >(()) && final(self).wallet_is_open() && final(self).spec_session().view_only && final(self).spec_session().spend_keys.public_key == spend_public_key,
    {
        if self.wallet.is_some() {
            return Err(WalletError::WalletAlreadyOpen);
        }
        if creation_height == u64::MAX {
            return Err(WalletError::InvalidRequest);
        }
        let session = WalletSession::new(
            KeyPair { public_key: spend_public_key, private_key: 0 },
            view_keys,
            true,
            salt,
            crate::PBKDF2_ITERATIONS,
            creation_height,
            creation_hash,
            DEFAULT_CONFIRMATION_DEPTH,
        );
        self.wallet = Some(OpenWallet { name: copy_vec(name), session });
        Ok(())
    }

    /// Add an address paying to a freshly derived key pair (derived
    /// by the crypto collaborator). Queued blocks are dropped: their
    /// derivations do not cover the new address and are fetched
    /// again.
    pub fn addresses_create(&mut self, name: &Vec<u8>, spend_public_key: u64, view_public_key: u64)
        -> (r: Result<Address, WalletError>)
        requires
            old(self).inv(),
        ensures
            final(self).inv(),
            match old(self).spec_target_err(name@) {
                Some(e) => r == Err::<Address, WalletError>(e) && *final(self) == *old(self),
                None => match r {
                    Ok(a) => {
                        &&& a.spend_public_key == spend_public_key
                        &&& a.view_public_key == view_public_key
                        &&& !a.has_payment_id
                        &&& final(self).spec_session().addresses@ == old(
                            self,
                        ).spec_session().addresses@.push(a)
                        &&& final(self).spec_session().outputs@ == old(
                            self,
                        ).spec_session().outputs@
                    },
                    Err(e) => (e == WalletError::DuplicateAddress && (exists|j: int|
                        0 <= j < old(self).spec_session().addresses@.len() && (#[trigger] old(
                            self,
                        ).spec_session().addresses@[j]).spend_public_key == spend_public_key)
                        && *final(self) == *old(self)) || (e == WalletError::InvalidRequest && old(
                        self,
                    ).spec_session().addresses@.len() >= 0xffff && *final(self) == *old(self)),
                },
            },
    {
        match &mut self.wallet {
            None => Err(WalletError::WalletNotOpen),
            Some(w) => {
                if !bytes_equal(&w.name, name) {
                    return Err(WalletError::WrongWalletName);
                }
                if let Some(i) = find_address(&w.session.addresses, spend_public_key) {
                    proof {
                        assert((old(self).spec_session().addresses@[i as int]).spend_public_key
                            == spend_public_key);
                    }
                    return Err(WalletError::DuplicateAddress);
                }
                if w.session.addresses.len() >= 0xffff {
                    return Err(WalletError::InvalidRequest);
                }
                let a = Address {
                    spend_public_key,
                    view_public_key,
                    has_payment_id: false,
                    payment_id: 0,
                };
                w.session.addresses.push(a);
                w.session.queue = SyncQueue::new(w.session.synced_height + 1);
                Ok(a)
            },
        }
    }

    /// Import an existing address's keys; the engine treats it as
    /// `addresses_create` at the current point.
    pub fn addresses_import(&mut self, name: &Vec<u8>, spend_public_key: u64, view_public_key: u64)
        -> (r: Result<Address, WalletError>)
        requires
            old(self).inv(),
        ensures
            final(self).inv(),
            match old(self).spec_target_err(name@) {
                Some(e) => r == Err::<Address, WalletError>(e) && *final(self) == *old(self),
                None => r is Ok ==> final(self).spec_session().addresses@ == old(
                    self,
                ).spec_session().addresses@.push(r->Ok_0),
            },
    {
        self.addresses_create(name, spend_public_key, view_public_key)
    }

    /// Import a watch-only address: only its public keys are known.
    pub fn addresses_import_view(
        &mut self,
        name: &Vec<u8>,
        spend_public_key: u64,
        view_public_key: u64,
    ) -> (r: Result<Address, WalletError>)
        requires
            old(self).inv(),
        ensures
            final(self).inv(),
            match old(self).spec_target_err(name@) {
                Some(e) => r == Err::<Address, WalletError>(e) && *final(self) == *old(self),
                None => r is Ok ==> final(self).spec_session().addresses@ == old(
                    self,
                ).spec_session().addresses@.push(r->Ok_0),
            },
    {
        self.addresses_create(name, spend_public_key, view_public_key)
    }

    /// Transaction construction is out of the engine's scope (the
    /// spend math belongs to the crypto collaborator); the operation
    /// reports so rather than no-op.
    pub fn transactions_send_basic(&mut self, name: &Vec<u8>) -> (r: Result<(), WalletError>)
        requires
            old(self).inv(),
        ensures
            final(self).inv(),
            *final(self) == *old(self),
            match old(self).spec_target_err(name@) {
                Some(e) => r == Err::<(), WalletError>(e),
                None => r == Err::<(), WalletError>(WalletError::UnsupportedOperation),
            },
    {
        match &self.wallet {
            None => Err(WalletError::WalletNotOpen),
            Some(w) => {
                if !bytes_equal(&w.name, name) {
                    return Err(WalletError::WrongWalletName);
                }
                Err(WalletError::UnsupportedOperation)
            },
        }
    }

    /// As `transactions_send_basic`.
    pub fn transactions_send_advanced(&mut self, name: &Vec<u8>) -> (r: Result<(), WalletError>)
        requires
            old(self).inv(),
        ensures
            final(self).inv(),
            *final(self) == *old(self),
            match old(self).spec_target_err(name@) {
                Some(e) => r == Err::<(), WalletError>(e),
                None => r == Err::<(), WalletError>(WalletError::UnsupportedOperation),
            },
    {
        self.transactions_send_basic(name)
    }

    /// As `transactions_send_basic`: fusion transactions are spends.
    pub fn transactions_send_fusion_basic(&mut self, name: &Vec<u8>) -> (r: Result<
        (),
        WalletError,
    >)
        requires
            old(self).inv(),
        ensures
            final(self).inv(),
            *final(self) == *old(self),
            match old(self).spec_target_err(name@) {
                Some(e) => r == Err::<(), WalletError>(e),
                None => r == Err::<(), WalletError>(WalletError::UnsupportedOperation),
            },
    {
        self.transactions_send_basic(name)
    }

    /// As `transactions_send_basic`.
    pub fn transactions_send_fusion_advanced(&mut self, name: &Vec<u8>) -> (r: Result<
        (),
        WalletError,
    >)
        requires
            old(self).inv(),
        ensures
            final(self).inv(),
            *final(self) == *old(self),
            match old(self).spec_target_err(name@) {
                Some(e) => r == Err::<(), WalletError>(e),
                None => r == Err::<(), WalletError>(WalletError::UnsupportedOperation),
            },
    {
        self.transactions_send_basic(name)
    }

    /// Serialize the wallet under the password; the caller writes
    /// the words to disk atomically (temporary file, then rename).
    pub fn save_wallet(&self, name: &Vec<u8>, password: &Vec<u8>) -> (r: Result<
        Vec<u64>,
        WalletError,
    >)
        requires
            self.inv(),
        ensures
            match self.spec_target_err(name@) {
                Some(e) => r == Err::<Vec<u64>, WalletError>(e),
                None => match r {
                    Ok(words) => words@ == spec_save(
                        self.spec_session().spec_container_model(),
                        password@,
                    ) && spec_open(words@, password@) == Ok::<ContainerModel, WalletError>(
                        self.spec_session().spec_container_model(),
                    ),
                    Err(e) => e == WalletError::InvalidRequest
                        && self.spec_session().outputs@.len() > 0xffff_ffff,
                },
            },
    {
        match &self.wallet {
            None => Err(WalletError::WalletNotOpen),
            Some(w) => {
                if !bytes_equal(&w.name, name) {
                    return Err(WalletError::WrongWalletName);
                }
                if w.session.outputs.len() > 0xffff_ffff {
                    return Err(WalletError::InvalidRequest);
                }
                let container = w.session.to_container();
                Ok(save_container(&container, password))
            },
        }
    }

    /// Clear scan state and rescan from the creation height.
    pub fn reset_wallet(&mut self, name: &Vec<u8>) -> (r: Result<(), WalletError>)
        requires
            old(self).inv(),
        ensures
            final(self).inv(),
            match old(self).spec_target_err(name@) {
                Some(e) => r == Err::<(), WalletError>(e) && *final(self) == *old(self),
                None => r == Ok::<(), WalletError>(()) && final(self).wallet_is_open() && final(self).wallet->Some_0.name@ == name@ && {
                    let s = final(self).spec_session();
                    let s0 = old(self).spec_session();
                    &&& s.outputs@.len() == 0
                    &&& s.tracker.checkpoints@.len() == 0
                    &&& s.synced_height == s0.creation_height
                    &&& s.tip_hash == s0.creation_hash
                    &&& s.addresses@ == s0.addresses@
                    &&& s.spend_keys == s0.spend_keys
                    &&& s.view_keys == s0.view_keys
                    &&& s.view_only == s0.view_only
                    &&& s.salt == s0.salt
                    &&& s.iterations == s0.iterations
                    &&& s.creation_height == s0.creation_height
                    &&& s.creation_hash == s0.creation_hash
                    &&& s.confirmation_depth == s0.confirmation_depth
                },
            },
    {
        match &mut self.wallet {
            None => Err(WalletError::WalletNotOpen),
            Some(w) => {
                if !bytes_equal(&w.name, name) {
                    return Err(WalletError::WrongWalletName);
                }
                w.session.reset_scan_state();
                Ok(())
            },
        }
    }

    /// Update the configured daemon connection info.
    pub fn set_node_info(&mut self, name: &Vec<u8>, details: NodeDetails) -> (r: Result<
        (),
        WalletError,
    >)
        requires
            old(self).inv(),
        ensures
            final(self).inv(),
            match old(self).spec_target_err(name@) {
                Some(e) => r == Err::<(), WalletError>(e) && final(self).node.details == old(
                    self,
                ).node.details,
                None => r == Ok::<(), WalletError>(()) && final(self).node.details == details,
            },
    {
        match &self.wallet {
            None => Err(WalletError::WalletNotOpen),
            Some(w) => {
                if !bytes_equal(&w.name, name) {
                    return Err(WalletError::WrongWalletName);
                }
                self.node.set_details(details);
                Ok(())
            },
        }
    }

    /// Stop serving the wallet. The caller saves first if it wants
    /// the state kept.
    pub fn close_wallet(&mut self, name: &Vec<u8>) -> (r: Result<(), WalletError>)
        requires
            old(self).inv(),
        ensures
            final(self).inv(),
            match old(self).spec_target_err(name@) {
                Some(e) => r == Err::<(), WalletError>(e) && *final(self) == *old(self),
                None => r == Ok::<(), WalletError>(()) && !final(self).wallet_is_open(),
            },
    {
        match &self.wallet {
            None => Err(WalletError::WalletNotOpen),
            Some(w) => {
                if !bytes_equal(&w.name, name) {
                    return Err(WalletError::WrongWalletName);
                }
                self.wallet = None;
                Ok(())
            },
        }
    }

    /// Remove an address. The primary address carries the master
    /// keys and cannot be removed. Queued blocks are dropped as in
    /// `addresses_create`.
    pub fn delete_address(&mut self, name: &Vec<u8>, address: u64) -> (r: Result<(), WalletError>)
        requires
            old(self).inv(),
        ensures
            final(self).inv(),
            match old(self).spec_target_err(name@) {
                Some(e) => r == Err::<(), WalletError>(e) && *final(self) == *old(self),
                None => match r {
                    Ok(()) => exists|i: int|
                        {
                            &&& 1 <= i < old(self).spec_session().addresses@.len()
                            &&& (#[trigger] old(self).spec_session().addresses@[i]).spend_public_key
                                == address
                            &&& final(self).spec_session().addresses@ == old(
                                self,
                            ).spec_session().addresses@.remove(i)
                        },
                    Err(e) => *final(self) == *old(self) && ((e == WalletError::InvalidRequest
                        && old(self).spec_session().addresses@[0].spend_public_key == address) || (e
                        == WalletError::AddressNotFound && (forall|j: int|
                        0 <= j < old(self).spec_session().addresses@.len() ==> (#[trigger] old(
                            self,
                        ).spec_session().addresses@[j]).spend_public_key != address))),
                },
            },
    {
        match &mut self.wallet {
            None => Err(WalletError::WalletNotOpen),
            Some(w) => {
                if !bytes_equal(&w.name, name) {
                    return Err(WalletError::WrongWalletName);
                }
                match find_address(&w.session.addresses, address) {
                    None => Err(WalletError::AddressNotFound),
                    Some(i) => {
                        if i == 0 {
                            return Err(WalletError::InvalidRequest);
                        }
                        proof {
                            assert((old(self).spec_session().addresses@[i as int]).spend_public_key
                                == address);
                        }
                        w.session.addresses.remove(i);
                        w.session.queue = SyncQueue::new(w.session.synced_height + 1);
                        proof {
                            assert(w.session.addresses@ =~= old(
                                self,
                            ).spec_session().addresses@.remove(i as int));
                        }
                        Ok(())
                    },
                }
            },
        }
    }

    /// Transport preflight: nothing to decide, nothing changed.
    pub fn handle_options(&self, name: &Vec<u8>) -> (r: Result<(), WalletError>)
        ensures
            r == Ok::<(), WalletError>(()),
    {
        let _ = name;
        Ok(())
    }
}

/// Unspent outputs below the confirmation depth, optionally for one
/// address.
fn filter_unconfirmed(
    outs: &Vec<OwnedOutput>,
    synced_height: u64,
    depth: u64,
    address: Option<u64>,
) -> (r: Vec<OwnedOutput>)
    ensures
        r@ == outs@.filter(
            |o: OwnedOutput| spec_counts_for(o, address) && !spec_is_confirmed(
                o,
                synced_height,
                depth,
            ),
        ),
{
    let mut r: Vec<OwnedOutput> = Vec::new();
    let mut i: usize = 0;
    while i < outs.len()
        invariant
            0 <= i <= outs@.len(),
            r@ == outs@.take(i as int).filter(
                |o: OwnedOutput| spec_counts_for(o, address) && !spec_is_confirmed(
                    o,
                    synced_height,
                    depth,
                ),
            ),
        decreases outs@.len() - i,
    {
        proof {
            assert(outs@.take(i as int + 1).drop_last() =~= outs@.take(i as int));
            reveal_with_fuel(Seq::<_>::filter, 2);
            assert(outs@.take(i as int + 1).last() == outs@[i as int]);
        }
        let o = outs[i];
        let counts = !o.spent && (match address {
            None => true,
            Some(a) => o.spend_public_key == a,
        });
        let confirmed = o.block_height <= synced_height && synced_height - o.block_height >= depth;
        if counts && !confirmed {
            r.push(o);
        }
        i += 1;
    }
    proof {
        assert(outs@.take(outs@.len() as int) =~= outs@);
    }
    r
}

/// Outputs with a height in `[start, end]`, optionally for one
/// address.
fn filter_range(outs: &Vec<OwnedOutput>, start: u64, end: u64, address: Option<u64>) -> (r: Vec<
    OwnedOutput,
>)
    ensures
        address is None ==> r@ == outs@.filter(
            |o: OwnedOutput| start <= o.block_height <= end,
        ),
        address matches Some(a) ==> r@ == outs@.filter(
            |o: OwnedOutput| o.spend_public_key == a && start <= o.block_height <= end,
        ),
{
    let mut r: Vec<OwnedOutput> = Vec::new();
    let mut i: usize = 0;
    while i < outs.len()
        invariant
            0 <= i <= outs@.len(),
            address is None ==> r@ == outs@.take(i as int).filter(
                |o: OwnedOutput| start <= o.block_height <= end,
            ),
            address matches Some(a) ==> r@ == outs@.take(i as int).filter(
                |o: OwnedOutput| o.spend_public_key == a && start <= o.block_height <= end,
            ),
        decreases outs@.len() - i,
    {
        proof {
            assert(outs@.take(i as int + 1).drop_last() =~= outs@.take(i as int));
            reveal_with_fuel(Seq::<_>::filter, 2);
            assert(outs@.take(i as int + 1).last() == outs@[i as int]);
        }
        let o = outs[i];
        let in_range = start <= o.block_height && o.block_height <= end;
        let addr_ok = match address {
            None => true,
            Some(a) => o.spend_public_key == a,
        };
        if in_range && addr_ok {
            r.push(o);
        }
        i += 1;
    }
    proof {
        assert(outs@.take(outs@.len() as int) =~= outs@);
    }
    r
}

/// Outputs of one transaction.
fn filter_by_hash(outs: &Vec<OwnedOutput>, hash: u64) -> (r: Vec<OwnedOutput>)
    ensures
        r@ == outs@.filter(|o: OwnedOutput| o.tx_hash == hash),
{
    let mut r: Vec<OwnedOutput> = Vec::new();
    let mut i: usize = 0;
    while i < outs.len()
        invariant
            0 <= i <= outs@.len(),
            r@ == outs@.take(i as int).filter(|o: OwnedOutput| o.tx_hash == hash),
        decreases outs@.len() - i,
    {
        proof {
            assert(outs@.take(i as int + 1).drop_last() =~= outs@.take(i as int));
            reveal_with_fuel(Seq::<_>::filter, 2);
            assert(outs@.take(i as int + 1).last() == outs@[i as int]);
        }
        if outs[i].tx_hash == hash {
            r.push(outs[i]);
        }
        i += 1;
    }
    proof {
        assert(outs@.take(outs@.len() as int) =~= outs@);
    }
    r
}

} // verus!
