//! Plain data model shared by every component of the engine.
use vstd::prelude::*;

verus! {

/// A public/private key pair. Key material is carried as plain
/// machine words; the asymmetric math on it belongs to the native
/// crypto collaborator, never to this crate.
#[derive(Clone, Copy, PartialEq, Eq, Debug)]
pub struct KeyPair {
    pub public_key: u64,
    pub private_key: u64,
}

/// A wallet address: its public keys plus an optional payment id for
/// integrated addresses. Immutable once derived.
#[derive(Clone, Copy, PartialEq, Eq, Debug)]
pub struct Address {
    pub spend_public_key: u64,
    pub view_public_key: u64,
    pub has_payment_id: bool,
    pub payment_id: u64,
}

/// A (height, block hash) pair anchoring sync progress.
#[derive(Clone, Copy, PartialEq, Eq, Debug)]
pub struct Checkpoint {
    pub height: u64,
    pub hash: u64,
}

/// One output of a transaction as the daemon reports it.
#[derive(Clone, Copy, PartialEq, Eq, Debug)]
pub struct TxOutput {
    pub amount: u64,
    pub target_key: u64,
}

/// A transaction as the daemon reports it: outputs it creates and the
/// key images of the inputs it spends.
#[derive(Clone, PartialEq, Eq, Debug)]
pub struct Transaction {
    pub hash: u64,
    pub public_key: u64,
    pub outputs: Vec<TxOutput>,
    pub spent_key_images: Vec<u64>,
}

/// A raw block at a given height plus its transactions.
#[derive(Clone, PartialEq, Eq, Debug)]
pub struct Block {
    pub height: u64,
    pub hash: u64,
    pub parent_hash: u64,
    pub transactions: Vec<Transaction>,
}

/// What the crypto collaborator derives for one transaction output:
/// the candidate ephemeral key for each wallet address (same order as
/// the session's address list) and the output's key image.
#[derive(Clone, PartialEq, Eq, Debug)]
pub struct OutputDerivation {
    pub candidates: Vec<u64>,
    pub key_image: u64,
}

/// Key derivations for one transaction. `valid` is false for a
/// malformed transaction whose keys could not be derived; such a
/// transaction is skipped during the scan, never an error.
#[derive(Clone, PartialEq, Eq, Debug)]
pub struct TransactionDerivation {
    pub valid: bool,
    pub outputs: Vec<OutputDerivation>,
}

/// A block bundled with the key derivations for each of its
/// transactions, ready to be scanned.
#[derive(Clone, PartialEq, Eq, Debug)]
pub struct PreparedBlock {
    pub block: Block,
    pub derivations: Vec<TransactionDerivation>,
}

/// An output identified as belonging to the wallet. Never deleted,
/// only marked spent, so the ledger keeps an audit trail.
#[derive(Clone, Copy, PartialEq, Eq, Debug)]
pub struct OwnedOutput {
    pub amount: u64,
    pub tx_hash: u64,
    pub output_index: u64,
    pub block_height: u64,
    pub spend_public_key: u64,
    pub key_image: u64,
    pub has_global_index: bool,
    pub global_index: u64,
    pub spent: bool,
}

/// Every failure the engine reports, each kind distinct so a caller
/// can decide whether to retry, prompt again or abort.
#[derive(Clone, Copy, PartialEq, Eq, Debug)]
pub enum WalletError {
    WrongPassword,
    CorruptFile,
    UnsupportedVersion,
    QueueFull,
    HeightGap(u64),
    ChainForked,
    WalletNotOpen,
    WalletAlreadyOpen,
    WrongWalletName,
    AddressNotFound,
    DuplicateAddress,
    TransactionNotFound,
    InvalidRequest,
    UnsupportedOperation,
}

/// Byte-string equality, stated over the views.
pub fn bytes_equal(a: &Vec<u8>, b: &Vec<u8>) -> (r: bool)
    ensures
        r == (a@ == b@),
{
    if a.len() != b.len() {
        assert(a@ != b@);
        return false;
    }
    let mut i: usize = 0;
    while i < a.len()
        invariant
            0 <= i <= a@.len(),
            a@.len() == b@.len(),
            forall|j: int| 0 <= j < i ==> a@[j] == b@[j],
        decreases a@.len() - i,
    {
        if a[i] != b[i] {
            assert(a@ != b@);
            return false;
        }
        i += 1;
    }
    assert(a@ =~= b@);
    true
}

/// Membership of a word in a list, stated over the view.
pub fn contains_word(v: &Vec<u64>, x: u64) -> (r: bool)
    ensures
        r == v@.contains(x),
{
    let mut i: usize = 0;
    while i < v.len()
        invariant
            0 <= i <= v@.len(),
            forall|j: int| 0 <= j < i ==> v@[j] != x,
        decreases v@.len() - i,
    {
        if v[i] == x {
            assert(v@.contains(x));
            return true;
        }
        i += 1;
    }
    assert(forall|j: int| 0 <= j < v@.len() ==> v@[j] != x);
    false
}

} // verus!
