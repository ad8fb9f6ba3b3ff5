//! Wallet synchronization and encrypted-storage engine for a
//! CryptoNote-family wallet backend.
//!
//! The crate holds the verified core: the encrypted wallet container,
//! the checkpoint ring used for fork-aware resumable sync, the bounded
//! block queue, the output scanner, the global-index obscurer and the
//! balance ledger, together with the server that exposes them.
use vstd::prelude::*;

pub mod types;
pub mod checkpoints;
pub mod node;
pub mod obscurer;
pub mod ledger;
pub mod queue;
pub mod rpc;
pub mod scanner;
pub mod session;
pub mod store;

verus! {

/// Number of key-stretching rounds applied to the wallet password.
pub const PBKDF2_ITERATIONS: u64 = 500000;

/// Version written into the wallet file header.
pub const WALLET_FILE_FORMAT_VERSION: u64 = 0;

/// Capacity of the checkpoint ring.
pub const LAST_KNOWN_BLOCK_HASHES_SIZE: usize = 100;

/// A block-hash checkpoint is stored once per this many blocks.
pub const BLOCK_HASH_CHECKPOINTS_INTERVAL: u64 = 5000;

/// Number of blocks a global-index request spans beyond a single
/// height, so the daemon cannot tell which block the wallet cares
/// about.
pub const GLOBAL_INDEXES_OBSCURITY: u64 = 10;

/// Bound on blocks waiting to be scanned.
pub const MAXIMUM_SYNC_QUEUE_SIZE: usize = 1000;

/// Blocks an output must be buried under before it counts as
/// confirmed; the depth is configurable per session, this is the
/// documented default.
pub const DEFAULT_CONFIRMATION_DEPTH: u64 = 10;

} // verus!
