use wallet_backend::node::{NodeDetails, NodeHandler};
use wallet_backend::rpc::WalletRPCServer;
use wallet_backend::store::{derive_key, open_container};
use wallet_backend::types::{
    Block, KeyPair, OutputDerivation, PreparedBlock, Transaction, TransactionDerivation,
    TxOutput, WalletError,
};
use wallet_backend::WALLET_FILE_FORMAT_VERSION;

fn block_hash(height: u64) -> u64 {
    height.wrapping_mul(31).wrapping_add(7)
}

fn node() -> NodeHandler {
    NodeHandler::new(NodeDetails {
        daemon_host: b"127.0.0.1".to_vec(),
        daemon_port: 11898,
        node_fee: 10,
        node_address: b"fee-address".to_vec(),
    })
}

fn spend_keys() -> KeyPair {
    KeyPair {
        public_key: 100,
        private_key: 200,
    }
}

fn view_keys() -> KeyPair {
    KeyPair {
        public_key: 300,
        private_key: 400,
    }
}

fn open_server() -> WalletRPCServer {
    let mut server = WalletRPCServer::new(node());
    server
        .wallet_create(
            &b"main".to_vec(),
            spend_keys(),
            view_keys(),
            0xabcd,
            1000,
            block_hash(1000),
        )
        .expect("create");
    server
}

fn sync_paying_block(server: &mut WalletRPCServer, height: u64, amount: u64) {
    let pb = PreparedBlock {
        block: Block {
            height,
            hash: block_hash(height),
            parent_hash: block_hash(height - 1),
            transactions: vec![Transaction {
                hash: height ^ 0xdead,
                public_key: 42,
                outputs: vec![TxOutput {
                    amount,
                    target_key: 0x5555,
                }],
                spent_key_images: vec![],
            }],
        },
        derivations: vec![TransactionDerivation {
            valid: true,
            outputs: vec![OutputDerivation {
                candidates: vec![0x5555],
                key_image: height ^ 0x77,
            }],
        }],
    };
    let session = &mut server.wallet.as_mut().unwrap().session;
    session.enqueue_block(pb).unwrap();
    session.sync_step().unwrap().unwrap();
}

#[test]
fn operations_need_an_open_wallet() {
    let server = WalletRPCServer::new(node());
    assert_eq!(server.get_balance(), Err(WalletError::WalletNotOpen));
    assert_eq!(server.get_private_view_key(), Err(WalletError::WalletNotOpen));
    assert_eq!(server.get_status(), Err(WalletError::WalletNotOpen));
}

#[test]
fn operations_check_the_wallet_name() {
    let mut server = open_server();
    assert_eq!(
        server.reset_wallet(&b"other".to_vec()),
        Err(WalletError::WrongWalletName)
    );
    assert_eq!(
        server.close_wallet(&b"other".to_vec()),
        Err(WalletError::WrongWalletName)
    );
    assert!(server.close_wallet(&b"main".to_vec()).is_ok());
    assert_eq!(server.get_balance(), Err(WalletError::WalletNotOpen));
}

#[test]
fn only_one_wallet_at_a_time() {
    let mut server = open_server();
    assert_eq!(
        server.wallet_create(
            &b"second".to_vec(),
            spend_keys(),
            view_keys(),
            1,
            1,
            block_hash(1)
        ),
        Err(WalletError::WalletAlreadyOpen)
    );
}

#[test]
fn key_queries_answer_from_the_session() {
    let server = open_server();
    assert_eq!(server.get_private_view_key(), Ok(400));
    let keys = server.get_spend_keys(100).expect("primary spend keys");
    assert_eq!((keys.public_key, keys.private_key), (100, 200));
    assert_eq!(server.get_spend_keys(9), Err(WalletError::AddressNotFound));
    assert_eq!(server.get_mnemonic_seed(100), Ok(200));
    assert_eq!(server.get_mnemonic_seed(9), Err(WalletError::AddressNotFound));
}

#[test]
fn address_management() {
    let mut server = open_server();
    let name = b"main".to_vec();
    let a = server.addresses_create(&name, 500, 600).expect("new address");
    assert_eq!(a.spend_public_key, 500);
    assert_eq!(
        server.addresses_create(&name, 500, 600),
        Err(WalletError::DuplicateAddress)
    );
    let listed = server.get_addresses().unwrap();
    assert_eq!(listed.len(), 2);
    assert_eq!(server.get_primary_address().unwrap().spend_public_key, 100);

    let integrated = server.create_integrated_address(500, 0x9999).unwrap();
    assert!(integrated.has_payment_id);
    assert_eq!(integrated.payment_id, 0x9999);
    assert_eq!(
        server.create_integrated_address(7, 1),
        Err(WalletError::AddressNotFound)
    );

    assert_eq!(
        server.delete_address(&name, 100),
        Err(WalletError::InvalidRequest),
        "the primary address cannot be deleted"
    );
    assert_eq!(server.delete_address(&name, 7), Err(WalletError::AddressNotFound));
    assert!(server.delete_address(&name, 500).is_ok());
    assert_eq!(server.get_addresses().unwrap().len(), 1);
}

#[test]
fn balances_and_transaction_queries() {
    let mut server = open_server();
    sync_paying_block(&mut server, 1001, 250);
    sync_paying_block(&mut server, 1002, 750);

    let b = server.get_balance().unwrap();
    assert_eq!(b.confirmed, 0);
    assert_eq!(b.unconfirmed, 1000);

    let per_address = server.get_balance_for_address(100).unwrap();
    assert_eq!(per_address.unconfirmed, 1000);
    assert_eq!(
        server.get_balance_for_address(9),
        Err(WalletError::AddressNotFound)
    );
    let all = server.get_balances().unwrap();
    assert_eq!(all.len(), 1);
    assert_eq!(all[0].address, 100);
    assert_eq!(all[0].unconfirmed, 1000);

    let txs = server.get_transactions().unwrap();
    assert_eq!(txs.len(), 2);
    let unconfirmed = server.get_unconfirmed_transactions().unwrap();
    assert_eq!(unconfirmed.len(), 2);
    let from_1002 = server.get_transactions_from_height(1002).unwrap();
    assert_eq!(from_1002.len(), 1);
    assert_eq!(from_1002[0].amount, 750);
    let ranged = server
        .get_transactions_from_height_to_height(1001, 1001)
        .unwrap();
    assert_eq!(ranged.len(), 1);
    assert_eq!(ranged[0].amount, 250);
    assert_eq!(
        server.get_transactions_from_height_to_height(5, 4),
        Err(WalletError::InvalidRequest)
    );
    let with_addr = server
        .get_transactions_from_height_with_address(100, 1001)
        .unwrap();
    assert_eq!(with_addr.len(), 2);

    let details = server.get_transaction_details(1001 ^ 0xdead).unwrap();
    assert_eq!(details.len(), 1);
    assert_eq!(
        server.get_transaction_details(0x123),
        Err(WalletError::TransactionNotFound)
    );
    assert_eq!(
        server.get_tx_private_key(1001 ^ 0xdead),
        Err(WalletError::TransactionNotFound)
    );

    let status = server.get_status().unwrap();
    assert_eq!(status.synced_height, 1002);
    assert_eq!(status.queued_blocks, 0);
}

#[test]
fn sends_and_seed_import_report_unsupported() {
    let mut server = open_server();
    let name = b"main".to_vec();
    assert_eq!(
        server.transactions_send_basic(&name),
        Err(WalletError::UnsupportedOperation)
    );
    assert_eq!(
        server.transactions_send_fusion_advanced(&name),
        Err(WalletError::UnsupportedOperation)
    );
    let mut fresh = WalletRPCServer::new(node());
    assert_eq!(
        fresh.wallet_import_seed(&b"x".to_vec()),
        Err(WalletError::UnsupportedOperation)
    );
}

#[test]
fn view_only_wallets_hold_no_spend_secret() {
    let mut server = WalletRPCServer::new(node());
    server
        .wallet_import_view(&b"watch".to_vec(), 100, view_keys(), 1, 1000, block_hash(1000))
        .unwrap();
    assert_eq!(
        server.get_spend_keys(100),
        Err(WalletError::UnsupportedOperation)
    );
    assert_eq!(
        server.get_mnemonic_seed(100),
        Err(WalletError::UnsupportedOperation)
    );
}

#[test]
fn node_info_round_trip() {
    let mut server = open_server();
    let info = server.get_node_info();
    assert_eq!(info.daemon_port, 11898);
    server
        .set_node_info(
            &b"main".to_vec(),
            NodeDetails {
                daemon_host: b"10.0.0.2".to_vec(),
                daemon_port: 1,
                node_fee: 0,
                node_address: vec![],
            },
        )
        .unwrap();
    assert_eq!(server.get_node_info().daemon_port, 1);
    assert!(server.handle_options(&b"main".to_vec()).is_ok());
}

#[test]
fn save_and_reopen_reproduces_the_wallet() {
    let mut server = open_server();
    sync_paying_block(&mut server, 1001, 250);
    let password = b"correct horse".to_vec();
    let words = server.save_wallet(&b"main".to_vec(), &password).unwrap();
    let saved = server.wallet.as_ref().unwrap().session.to_container();

    let reopened = open_container(&words, &password).expect("right password opens");
    assert_eq!(reopened.version, WALLET_FILE_FORMAT_VERSION);
    assert_eq!(reopened.spend_keys, saved.spend_keys);
    assert_eq!(reopened.view_keys, saved.view_keys);
    assert_eq!(reopened.creation_height, saved.creation_height);
    assert_eq!(reopened.synced_height, saved.synced_height);
    assert_eq!(reopened.addresses, saved.addresses);
    assert_eq!(reopened.outputs, saved.outputs);
    assert_eq!(reopened.checkpoints, saved.checkpoints);

    // A second server serves the reopened wallet identically.
    let mut second = WalletRPCServer::new(node());
    second
        .wallet_open(&b"main".to_vec(), &words, &password)
        .expect("open");
    assert_eq!(second.get_balance(), server.get_balance());
    assert_eq!(second.get_status(), server.get_status());
}

#[test]
fn wrong_password_is_reported_and_decrypts_nothing() {
    let mut server = open_server();
    let words = server
        .save_wallet(&b"main".to_vec(), &b"right".to_vec())
        .unwrap();
    // The two passwords must derive different keys for the check
    // word to catch the mistake.
    let salt = server.wallet.as_ref().unwrap().session.salt;
    assert_ne!(
        derive_key(&b"right".to_vec(), salt, wallet_backend::PBKDF2_ITERATIONS),
        derive_key(&b"wrong".to_vec(), salt, wallet_backend::PBKDF2_ITERATIONS)
    );
    assert_eq!(
        open_container(&words, &b"wrong".to_vec()),
        Err(WalletError::WrongPassword)
    );
}

#[test]
fn corrupt_files_fail_closed() {
    let mut server = open_server();
    let password = b"pw".to_vec();
    let words = server.save_wallet(&b"main".to_vec(), &password).unwrap();

    let mut wrong_version = words.clone();
    wrong_version[0] = WALLET_FILE_FORMAT_VERSION + 1;
    assert_eq!(
        open_container(&wrong_version, &password),
        Err(WalletError::UnsupportedVersion)
    );

    let mut flipped = words.clone();
    let mid = flipped.len() / 2;
    flipped[mid] ^= 1;
    assert_eq!(
        open_container(&flipped, &password),
        Err(WalletError::CorruptFile),
        "the checksum catches a flipped ciphertext word"
    );

    let truncated = words[..3].to_vec();
    assert_eq!(
        open_container(&truncated, &password),
        Err(WalletError::CorruptFile)
    );
}

#[test]
fn save_open_preserves_fresh_wallets() {
    let spend = KeyPair {
        public_key: 1,
        private_key: 2,
    };
    let view = KeyPair {
        public_key: 3,
        private_key: 4,
    };
    let mut server = WalletRPCServer::new(node());
    server
        .wallet_import_key(&b"w".to_vec(), spend, view, 0x5a17, 50, block_hash(50))
        .unwrap();
    let words = server.save_wallet(&b"w".to_vec(), &b"".to_vec()).unwrap();
    let c = open_container(&words, &b"".to_vec()).unwrap();
    assert_eq!(c.spend_keys, spend);
    assert_eq!(c.creation_height, 50);
    assert!(c.outputs.is_empty());
    // Saving is deterministic: the same state and password give the
    // same words.
    let words2 = server.save_wallet(&b"w".to_vec(), &b"".to_vec()).unwrap();
    assert_eq!(words, words2);
}

#[test]
fn reset_wallet_clears_scan_state() {
    let mut server = open_server();
    sync_paying_block(&mut server, 1001, 250);
    assert_eq!(server.get_transactions().unwrap().len(), 1);
    server.reset_wallet(&b"main".to_vec()).unwrap();
    assert!(server.get_transactions().unwrap().is_empty());
    assert_eq!(server.get_status().unwrap().synced_height, 1000);
    // The keys and addresses survive a reset; only scan state goes.
    assert_eq!(server.get_private_view_key(), Ok(400));
    assert_eq!(server.get_mnemonic_seed(100), Ok(200));
    assert_eq!(server.get_addresses().unwrap().len(), 1);
}

#[test]
fn wallet_open_reports_the_store_failure() {
    let mut server = open_server();
    let words = server
        .save_wallet(&b"main".to_vec(), &b"pw".to_vec())
        .unwrap();
    server.close_wallet(&b"main".to_vec()).unwrap();
    assert_eq!(
        server.wallet_open(&b"main".to_vec(), &words, &b"nope".to_vec()),
        Err(WalletError::WrongPassword)
    );
    assert_eq!(
        server.get_balance(),
        Err(WalletError::WalletNotOpen),
        "a failed open leaves nothing behind"
    );
    server
        .wallet_open(&b"main".to_vec(), &words, &b"pw".to_vec())
        .unwrap();
    assert_eq!(
        server.wallet_open(&b"main".to_vec(), &words, &b"pw".to_vec()),
        Err(WalletError::WalletAlreadyOpen)
    );
}

#[test]
fn unconfirmed_queries_check_the_address() {
    let mut server = open_server();
    sync_paying_block(&mut server, 1001, 250);
    let ours = server.get_unconfirmed_transactions_for_address(100).unwrap();
    assert_eq!(ours.len(), 1);
    assert_eq!(
        server.get_unconfirmed_transactions_for_address(9),
        Err(WalletError::AddressNotFound)
    );
}

#[test]
fn address_imports_append_like_creates() {
    let mut server = open_server();
    let name = b"main".to_vec();
    server.addresses_import(&name, 501, 601).unwrap();
    server.addresses_import_view(&name, 502, 602).unwrap();
    assert_eq!(server.get_addresses().unwrap().len(), 3);
}

#[test]
fn per_address_balances_sum_to_the_global_balance() {
    let mut server = open_server();
    let name = b"main".to_vec();
    server.addresses_create(&name, 500, 600).unwrap();
    // One output for each address; candidate lists cover both.
    for (height, target, amount) in [(1001u64, 0x5555u64, 250u64), (1002, 0x9999, 750)] {
        let pb = PreparedBlock {
            block: Block {
                height,
                hash: block_hash(height),
                parent_hash: block_hash(height - 1),
                transactions: vec![Transaction {
                    hash: height ^ 0xdead,
                    public_key: 42,
                    outputs: vec![TxOutput {
                        amount,
                        target_key: target,
                    }],
                    spent_key_images: vec![],
                }],
            },
            derivations: vec![TransactionDerivation {
                valid: true,
                outputs: vec![OutputDerivation {
                    // Candidate per address: primary derives 0x5555,
                    // the second address derives 0x9999.
                    candidates: vec![0x5555, 0x9999],
                    key_image: height ^ 0x77,
                }],
            }],
        };
        let session = &mut server.wallet.as_mut().unwrap().session;
        session.enqueue_block(pb).unwrap();
        session.sync_step().unwrap().unwrap();
    }
    let global = server.get_balance().unwrap();
    let per_address = server.get_balances().unwrap();
    assert_eq!(per_address.len(), 2);
    let confirmed: u128 = per_address.iter().map(|b| b.confirmed).sum();
    let unconfirmed: u128 = per_address.iter().map(|b| b.unconfirmed).sum();
    assert_eq!((confirmed, unconfirmed), (global.confirmed, global.unconfirmed));
    assert_eq!(per_address[0].unconfirmed, 250);
    assert_eq!(per_address[1].unconfirmed, 750);
}
