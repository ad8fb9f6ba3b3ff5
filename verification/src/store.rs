//! Versioned, password-protected wallet container.
//!
//! The container serializes to a sequence of words: a plain header
//! (format version, key-derivation salt and iteration count), the
//! enciphered payload, and an integrity checksum over the ciphertext
//! that is verified before anything is trusted. Inside the payload a
//! fixed check word detects a wrong password without exposing any
//! field. Unknown versions fail closed; a checksum mismatch is
//! reported as corruption, never silently accepted. Writing the words
//! to disk — atomically, via a temporary file — is the caller's side;
//! everything that decides is here.
//!
//! The word cipher, checksum and key stretch below are a plain-value
//! model of the native crypto collaborator's authenticated
//! encryption and PBKDF2: they carry the format's structure and the
//! laws proved of it (round trip, wrong-password detection,
//! integrity check before trust), and make no claim of
//! cryptographic strength.
use vstd::prelude::*;

use crate::types::{Address, Checkpoint, KeyPair, OwnedOutput, WalletError};
use crate::WALLET_FILE_FORMAT_VERSION;

verus! {

/// Word the payload starts with; visible only after deciphering with
/// the right key, so it serves as the password check.
pub const PASSWORD_CHECK_WORD: u64 = 0x57414c4c45545f4b;

/// Words in the file before the enciphered payload begins.
pub const HEADER_WORDS: usize = 3;

/// Fixed-size words at the start of the payload.
pub const PAYLOAD_FIXED_WORDS: usize = 17;

/// Everything the wallet persists.
#[derive(Clone, PartialEq, Eq, Debug)]
pub struct WalletContainer {
    pub version: u64,
    pub salt: u64,
    pub iterations: u64,
    pub view_keys: KeyPair,
    pub spend_keys: KeyPair,
    pub view_only: bool,
    pub creation_height: u64,
    pub creation_hash: u64,
    pub synced_height: u64,
    pub tip_hash: u64,
    pub confirmation_depth: u64,
    pub addresses: Vec<Address>,
    pub outputs: Vec<OwnedOutput>,
    pub checkpoints: Vec<Checkpoint>,
}

/// The mathematical value of a container.
pub ghost struct ContainerModel {
    pub version: u64,
    pub salt: u64,
    pub iterations: u64,
    pub view_keys: KeyPair,
    pub spend_keys: KeyPair,
    pub view_only: bool,
    pub creation_height: u64,
    pub creation_hash: u64,
    pub synced_height: u64,
    pub tip_hash: u64,
    pub confirmation_depth: u64,
    pub addresses: Seq<Address>,
    pub outputs: Seq<OwnedOutput>,
    pub checkpoints: Seq<Checkpoint>,
}

impl WalletContainer {
    pub open spec fn model(&self) -> ContainerModel {
        ContainerModel {
            version: self.version,
            salt: self.salt,
            iterations: self.iterations,
            view_keys: self.view_keys,
            spend_keys: self.spend_keys,
            view_only: self.view_only,
            creation_height: self.creation_height,
            creation_hash: self.creation_hash,
            synced_height: self.synced_height,
            tip_hash: self.tip_hash,
            confirmation_depth: self.confirmation_depth,
            addresses: self.addresses@,
            outputs: self.outputs@,
            checkpoints: self.checkpoints@,
        }
    }

    /// A container the store accepts: a known format version and
    /// list sizes a file can carry.
    pub open spec fn wf(&self) -> bool {
        spec_model_wf(self.model())
    }
}

pub open spec fn spec_model_wf(m: ContainerModel) -> bool {
    &&& m.version == WALLET_FILE_FORMAT_VERSION
    &&& m.addresses.len() <= 0xffff
    &&& m.outputs.len() <= 0xffff_ffff
    &&& m.checkpoints.len() <= 0xffff
}

/// One step of the password fold: rotate the state one byte and mix
/// a password byte in.
pub open spec fn spec_seed_step(state: u64, byte: u8) -> u64 {
    ((state << 8) | (state >> 56)) ^ (byte as u64)
}

/// The password folded to a word, salted.
pub open spec fn spec_seed(password: Seq<u8>, salt: u64) -> u64
    decreases password.len(),
{
    if password.len() == 0 {
        salt ^ 0x6b72_7970_746f_6e31
    } else {
        spec_seed_step(spec_seed(password.drop_last(), salt), password.last())
    }
}

/// One key-stretching round.
pub open spec fn spec_round(state: u64, salt: u64) -> u64 {
    (state ^ (state << 13) ^ (state >> 7)) ^ salt
}

pub open spec fn spec_stretch(state: u64, salt: u64, rounds: u64) -> u64
    decreases rounds,
{
    if rounds == 0 {
        state
    } else {
        spec_stretch(spec_round(state, salt), salt, (rounds - 1) as u64)
    }
}

/// The cipher key derived from the password: the salted fold of the
/// password bytes, stretched through the configured rounds.
pub open spec fn spec_kdf(password: Seq<u8>, salt: u64, iterations: u64) -> u64 {
    spec_stretch(spec_seed(password, salt), salt, iterations)
}

/// Derive the cipher key from a password: the salted fold of the
/// password bytes put through the configured round count, standing
/// in for the collaborator's slow PBKDF2. The password itself is
/// never stored.
pub fn derive_key(password: &Vec<u8>, salt: u64, iterations: u64) -> (r: u64)
    ensures
        r == spec_kdf(password@, salt, iterations),
{
    let mut state: u64 = salt ^ 0x6b72_7970_746f_6e31;
    let mut i: usize = 0;
    while i < password.len()
        invariant
            0 <= i <= password@.len(),
            state == spec_seed(password@.take(i as int), salt),
        decreases password@.len() - i,
    {
        proof {
            assert(password@.take(i as int + 1).drop_last() =~= password@.take(i as int));
            assert(password@.take(i as int + 1).last() == password@[i as int]);
        }
        state = ((state << 8u64) | (state >> 56u64)) ^ (password[i] as u64);
        i += 1;
    }
    proof {
        assert(password@.take(password@.len() as int) =~= password@);
    }
    let mut n: u64 = 0;
    while n < iterations
        invariant
            0 <= n <= iterations,
            spec_stretch(state, salt, (iterations - n) as u64) == spec_kdf(
                password@,
                salt,
                iterations,
            ),
        decreases iterations - n,
    {
        state = (state ^ (state << 13u64) ^ (state >> 7u64)) ^ salt;
        n += 1;
    }
    state
}

/// The keystream word for position `i` under `key`.
pub open spec fn spec_keystream(key: u64, i: u64) -> u64 {
    key ^ ((i << 32) | (i >> 32)) ^ 0x9e37_79b9_7f4a_7c15
}

/// The word sequence enciphered (or deciphered: the cipher is its
/// own inverse) under `key`.
pub open spec fn spec_crypt(words: Seq<u64>, key: u64) -> Seq<u64> {
    Seq::new(words.len(), |i: int| words[i] ^ spec_keystream(key, i as u64))
}

/// Applying the cipher twice with one key restores the words.
pub proof fn lemma_crypt_involution(words: Seq<u64>, key: u64)
    ensures
        spec_crypt(spec_crypt(words, key), key) == words,
{
    let once = spec_crypt(words, key);
    assert forall|i: int| 0 <= i < words.len() implies spec_crypt(once, key)[i] == words[i] by {
        let k = spec_keystream(key, i as u64);
        let w = words[i];
        assert((w ^ k) ^ k == w) by (bit_vector);
    }
    assert(spec_crypt(once, key) =~= words);
}

/// Different keys always differ in the first keystream word, which
/// is what turns a wrong password into a failed check word.
pub proof fn lemma_keystream_injective(key1: u64, key2: u64)
    requires
        key1 != key2,
    ensures
        spec_keystream(key1, 0) != spec_keystream(key2, 0),
{
    let c = ((0u64 << 32) | (0u64 >> 32)) ^ 0x9e37_79b9_7f4a_7c15;
    assert(key1 != key2 ==> (key1 ^ ((0u64 << 32) | (0u64 >> 32)) ^ 0x9e37_79b9_7f4a_7c15) != (
    key2 ^ ((0u64 << 32) | (0u64 >> 32)) ^ 0x9e37_79b9_7f4a_7c15)) by (bit_vector);
}

fn crypt_words(words: &Vec<u64>, key: u64) -> (r: Vec<u64>)
    ensures
        r@ == spec_crypt(words@, key),
{
    let mut r: Vec<u64> = Vec::new();
    let mut i: usize = 0;
    while i < words.len()
        invariant
            0 <= i <= words@.len(),
            r@.len() == i,
            forall|k: int| 0 <= k < i ==> r@[k] == words@[k] ^ spec_keystream(key, k as u64),
        decreases words@.len() - i,
    {
        r.push(words[i] ^ (key ^ (((i as u64) << 32u64) | ((i as u64) >> 32u64))
            ^ 0x9e37_79b9_7f4a_7c15));
        i += 1;
    }
    proof {
        assert(r@ =~= spec_crypt(words@, key));
    }
    r
}

/// One checksum step: rotate and fold the next word in.
pub open spec fn spec_checksum_step(state: u64, word: u64) -> u64 {
    ((state << 1) | (state >> 63)) ^ word
}

/// Integrity checksum over the enciphered payload; verified before
/// any decryption output is trusted.
pub open spec fn spec_checksum(words: Seq<u64>) -> u64
    decreases words.len(),
{
    if words.len() == 0 {
        0x5741_4c4c_4554_0001
    } else {
        spec_checksum_step(spec_checksum(words.drop_last()), words.last())
    }
}

pub fn checksum_words(words: &Vec<u64>) -> (r: u64)
    ensures
        r == spec_checksum(words@),
{
    let mut state: u64 = 0x5741_4c4c_4554_0001;
    let mut i: usize = 0;
    while i < words.len()
        invariant
            0 <= i <= words@.len(),
            state == spec_checksum(words@.take(i as int)),
        decreases words@.len() - i,
    {
        proof {
            assert(words@.take(i as int + 1).drop_last() =~= words@.take(i as int));
            assert(words@.take(i as int + 1).last() == words@[i as int]);
        }
        state = ((state << 1u64) | (state >> 63u64)) ^ words[i];
        i += 1;
    }
    proof {
        assert(words@.take(words@.len() as int) =~= words@);
    }
    state
}

pub open spec fn spec_bool_word(b: bool) -> u64 {
    if b {
        1
    } else {
        0
    }
}

/// The four words an address occupies.
pub open spec fn spec_enc_address(a: Address) -> Seq<u64> {
    seq![
        a.spend_public_key,
        a.view_public_key,
        spec_bool_word(a.has_payment_id),
        a.payment_id,
    ]
}

/// The nine words an owned output occupies.
pub open spec fn spec_enc_output(o: OwnedOutput) -> Seq<u64> {
    seq![
        o.amount,
        o.tx_hash,
        o.output_index,
        o.block_height,
        o.spend_public_key,
        o.key_image,
        spec_bool_word(o.has_global_index),
        o.global_index,
        spec_bool_word(o.spent),
    ]
}

/// The two words a checkpoint occupies.
pub open spec fn spec_enc_checkpoint(cp: Checkpoint) -> Seq<u64> {
    seq![cp.height, cp.hash]
}

pub open spec fn spec_enc_addresses(s: Seq<Address>) -> Seq<u64> {
    Seq::new(4 * s.len(), |k: int| spec_enc_address(s[k / 4])[k % 4])
}

pub open spec fn spec_enc_outputs(s: Seq<OwnedOutput>) -> Seq<u64> {
    Seq::new(9 * s.len(), |k: int| spec_enc_output(s[k / 9])[k % 9])
}

pub open spec fn spec_enc_checkpoints(s: Seq<Checkpoint>) -> Seq<u64> {
    Seq::new(2 * s.len(), |k: int| spec_enc_checkpoint(s[k / 2])[k % 2])
}

/// The payload in clear: the check word, every scalar field, the
/// three list lengths, then the three lists.
pub open spec fn spec_payload(m: ContainerModel) -> Seq<u64> {
    seq![
        PASSWORD_CHECK_WORD,
        m.version,
        m.salt,
        m.iterations,
        m.view_keys.public_key,
        m.view_keys.private_key,
        m.spend_keys.public_key,
        m.spend_keys.private_key,
        spec_bool_word(m.view_only),
        m.creation_height,
        m.creation_hash,
        m.synced_height,
        m.tip_hash,
        m.confirmation_depth,
        m.addresses.len() as u64,
        m.outputs.len() as u64,
        m.checkpoints.len() as u64,
    ] + spec_enc_addresses(m.addresses) + spec_enc_outputs(m.outputs) + spec_enc_checkpoints(
        m.checkpoints,
    )
}

/// The whole file: plain header, enciphered payload, checksum.
pub open spec fn spec_save(m: ContainerModel, password: Seq<u8>) -> Seq<u64> {
    let cipher = spec_crypt(spec_payload(m), spec_kdf(password, m.salt, m.iterations));
    seq![m.version, m.salt, m.iterations] + cipher + seq![spec_checksum(cipher)]
}

/// What opening a word file with a password yields: the model on
/// success, or the one distinct failure the file deserves.
pub open spec fn spec_open(words: Seq<u64>, password: Seq<u8>) -> Result<
    ContainerModel,
    WalletError,
> {
    if words.len() < 4 {
        Err(WalletError::CorruptFile)
    } else if words[0] != WALLET_FILE_FORMAT_VERSION {
        Err(WalletError::UnsupportedVersion)
    } else {
        let salt = words[1];
        let iterations = words[2];
        let cipher = words.subrange(HEADER_WORDS as int, words.len() - 1);
        if words.last() != spec_checksum(cipher) {
            Err(WalletError::CorruptFile)
        } else {
            let plain = spec_crypt(cipher, spec_kdf(password, salt, iterations));
            if plain.len() < PAYLOAD_FIXED_WORDS {
                Err(WalletError::CorruptFile)
            } else if plain[0] != PASSWORD_CHECK_WORD {
                Err(WalletError::WrongPassword)
            } else {
                spec_decode_body(plain, words[0], salt, iterations)
            }
        }
    }
}

/// Decode the deciphered payload, validating its shape exactly.
pub open spec fn spec_decode_body(plain: Seq<u64>, version: u64, salt: u64, iterations: u64)
    -> Result<ContainerModel, WalletError> {
    if plain.len() < PAYLOAD_FIXED_WORDS {
        Err(WalletError::CorruptFile)
    } else if plain[1] != version || plain[2] != salt || plain[3] != iterations {
        Err(WalletError::CorruptFile)
    } else {
        let n_addresses = plain[14] as int;
        let n_outputs = plain[15] as int;
        let n_checkpoints = plain[16] as int;
        if plain.len() != PAYLOAD_FIXED_WORDS + 4 * n_addresses + 9 * n_outputs + 2
            * n_checkpoints {
            Err(WalletError::CorruptFile)
        } else if plain[8] > 1 {
            Err(WalletError::CorruptFile)
        } else if !spec_addresses_valid(plain, 17, n_addresses) {
            Err(WalletError::CorruptFile)
        } else if !spec_outputs_valid(plain, 17 + 4 * n_addresses, n_outputs) {
            Err(WalletError::CorruptFile)
        } else {
            Ok(
                ContainerModel {
                    version,
                    salt,
                    iterations,
                    view_keys: KeyPair { public_key: plain[4], private_key: plain[5] },
                    spend_keys: KeyPair { public_key: plain[6], private_key: plain[7] },
                    view_only: plain[8] == 1,
                    creation_height: plain[9],
                    creation_hash: plain[10],
                    synced_height: plain[11],
                    tip_hash: plain[12],
                    confirmation_depth: plain[13],
                    addresses: Seq::new(
                        n_addresses as nat,
                        |i: int| spec_dec_address(plain, 17 + 4 * i),
                    ),
                    outputs: Seq::new(
                        n_outputs as nat,
                        |i: int| spec_dec_output(plain, 17 + 4 * n_addresses + 9 * i),
                    ),
                    checkpoints: Seq::new(
                        n_checkpoints as nat,
                        |i: int| spec_dec_checkpoint(
                            plain,
                            17 + 4 * n_addresses + 9 * n_outputs + 2 * i,
                        ),
                    ),
                },
            )
        }
    }
}

pub open spec fn spec_addresses_valid(plain: Seq<u64>, base: int, n: int) -> bool {
    forall|i: int| 0 <= i < n ==> #[trigger] plain[base + 4 * i + 2] <= 1
}

pub open spec fn spec_outputs_valid(plain: Seq<u64>, base: int, n: int) -> bool {
    forall|i: int|
        0 <= i < n ==> #[trigger] plain[base + 9 * i + 6] <= 1 && plain[base + 9 * i + 8] <= 1
}

pub open spec fn spec_dec_address(plain: Seq<u64>, p: int) -> Address {
    Address {
        spend_public_key: plain[p],
        view_public_key: plain[p + 1],
        has_payment_id: plain[p + 2] == 1,
        payment_id: plain[p + 3],
    }
}

pub open spec fn spec_dec_output(plain: Seq<u64>, p: int) -> OwnedOutput {
    OwnedOutput {
        amount: plain[p],
        tx_hash: plain[p + 1],
        output_index: plain[p + 2],
        block_height: plain[p + 3],
        spend_public_key: plain[p + 4],
        key_image: plain[p + 5],
        has_global_index: plain[p + 6] == 1,
        global_index: plain[p + 7],
        spent: plain[p + 8] == 1,
    }
}

pub open spec fn spec_dec_checkpoint(plain: Seq<u64>, p: int) -> Checkpoint {
    Checkpoint { height: plain[p], hash: plain[p + 1] }
}

/// Serialize the payload in clear.
fn encode_payload(c: &WalletContainer) -> (r: Vec<u64>)
    requires
        c.wf(),
    ensures
        r@ == spec_payload(c.model()),
{
    let ghost m = c.model();
    let mut r: Vec<u64> = Vec::new();
    r.push(PASSWORD_CHECK_WORD);
    r.push(c.version);
    r.push(c.salt);
    r.push(c.iterations);
    r.push(c.view_keys.public_key);
    r.push(c.view_keys.private_key);
    r.push(c.spend_keys.public_key);
    r.push(c.spend_keys.private_key);
    r.push(if c.view_only { 1 } else { 0 });
    r.push(c.creation_height);
    r.push(c.creation_hash);
    r.push(c.synced_height);
    r.push(c.tip_hash);
    r.push(c.confirmation_depth);
    r.push(c.addresses.len() as u64);
    r.push(c.outputs.len() as u64);
    r.push(c.checkpoints.len() as u64);
    let mut i: usize = 0;
    while i < c.addresses.len()
        invariant
            0 <= i <= c.addresses@.len(),
            c.wf(),
            m == c.model(),
            r@.len() == 17 + 4 * i,
            r@.subrange(0, 17) =~= spec_payload(m).subrange(0, 17),
            forall|k: int| 0 <= k < 4 * i ==> r@[17 + k] == spec_enc_addresses(m.addresses)[k],
        decreases c.addresses@.len() - i,
    {
        let a = c.addresses[i];
        r.push(a.spend_public_key);
        r.push(a.view_public_key);
        r.push(if a.has_payment_id { 1 } else { 0 });
        r.push(a.payment_id);
        proof {
            assert forall|k: int| 4 * i <= k < 4 * (i + 1) implies r@[17 + k]
                == spec_enc_addresses(m.addresses)[k] by {
                assert(k / 4 == i && k % 4 == k - 4 * i) by (nonlinear_arith)
                    requires 4 * i <= k < 4 * i + 4, i >= 0;
            }
        }
        i += 1;
    }
    let ghost addr_end = 17 + 4 * m.addresses.len();
    let mut j: usize = 0;
    while j < c.outputs.len()
        invariant
            0 <= j <= c.outputs@.len(),
            c.wf(),
            m == c.model(),
            r@.len() == addr_end + 9 * j,
            addr_end == 17 + 4 * m.addresses.len(),
            r@.subrange(0, 17) =~= spec_payload(m).subrange(0, 17),
            forall|k: int|
                0 <= k < 4 * m.addresses.len() ==> r@[17 + k] == spec_enc_addresses(
                    m.addresses,
                )[k],
            forall|k: int| 0 <= k < 9 * j ==> r@[addr_end + k] == spec_enc_outputs(m.outputs)[k],
        decreases c.outputs@.len() - j,
    {
        let o = c.outputs[j];
        r.push(o.amount);
        r.push(o.tx_hash);
        r.push(o.output_index);
        r.push(o.block_height);
        r.push(o.spend_public_key);
        r.push(o.key_image);
        r.push(if o.has_global_index { 1 } else { 0 });
        r.push(o.global_index);
        r.push(if o.spent { 1 } else { 0 });
        proof {
            assert forall|k: int| 9 * j <= k < 9 * (j + 1) implies r@[addr_end + k]
                == spec_enc_outputs(m.outputs)[k] by {
                assert(k / 9 == j && k % 9 == k - 9 * j) by (nonlinear_arith)
                    requires 9 * j <= k < 9 * j + 9, j >= 0;
            }
        }
        j += 1;
    }
    let ghost out_end = addr_end + 9 * m.outputs.len();
    let mut k2: usize = 0;
    while k2 < c.checkpoints.len()
        invariant
            0 <= k2 <= c.checkpoints@.len(),
            c.wf(),
            m == c.model(),
            r@.len() == out_end + 2 * k2,
            addr_end == 17 + 4 * m.addresses.len(),
            out_end == addr_end + 9 * m.outputs.len(),
            r@.subrange(0, 17) =~= spec_payload(m).subrange(0, 17),
            forall|k: int|
                0 <= k < 4 * m.addresses.len() ==> r@[17 + k] == spec_enc_addresses(
                    m.addresses,
                )[k],
            forall|k: int|
                0 <= k < 9 * m.outputs.len() ==> r@[addr_end + k] == spec_enc_outputs(
                    m.outputs,
                )[k],
            forall|k: int|
                0 <= k < 2 * k2 ==> r@[out_end + k] == spec_enc_checkpoints(m.checkpoints)[k],
        decreases c.checkpoints@.len() - k2,
    {
        let cp = c.checkpoints[k2];
        r.push(cp.height);
        r.push(cp.hash);
        proof {
            assert forall|k: int| 2 * k2 <= k < 2 * (k2 + 1) implies r@[out_end + k]
                == spec_enc_checkpoints(m.checkpoints)[k] by {
                assert(k / 2 == k2 && k % 2 == k - 2 * k2) by (nonlinear_arith)
                    requires 2 * k2 <= k < 2 * k2 + 2, k2 >= 0;
            }
        }
        k2 += 1;
    }
    proof {
        let sp = spec_payload(m);
        let cp_end = out_end + 2 * m.checkpoints.len();
        assert(r@.len() == sp.len());
        assert forall|idx: int| 0 <= idx < r@.len() implies r@[idx] == sp[idx] by {
            if idx < 17 {
                assert(r@.subrange(0, 17)[idx] == sp.subrange(0, 17)[idx]);
            } else if idx < addr_end {
                assert(r@[17 + (idx - 17)] == spec_enc_addresses(m.addresses)[idx - 17]);
                assert(sp[idx] == spec_enc_addresses(m.addresses)[idx - 17]);
            } else if idx < out_end {
                assert(r@[addr_end + (idx - addr_end)] == spec_enc_outputs(m.outputs)[idx
                    - addr_end]);
                assert(sp[idx] == spec_enc_outputs(m.outputs)[idx - addr_end]);
            } else {
                assert(r@[out_end + (idx - out_end)] == spec_enc_checkpoints(m.checkpoints)[idx
                    - out_end]);
                assert(sp[idx] == spec_enc_checkpoints(m.checkpoints)[idx - out_end]);
            }
        }
        assert(r@ =~= sp);
    }
    r
}

/// Serialize and encipher the container under the password. The
/// caller writes the words to a temporary file and renames it over
/// the old one, so a crash mid-write never leaves a truncated
/// container.
pub fn save_container(c: &WalletContainer, password: &Vec<u8>) -> (r: Vec<u64>)
    requires
        c.wf(),
    ensures
        r@ == spec_save(c.model(), password@),
        spec_open(r@, password@) == Ok::<ContainerModel, WalletError>(c.model()),
{
    let payload = encode_payload(c);
    let key = derive_key(password, c.salt, c.iterations);
    let cipher = crypt_words(&payload, key);
    let check = checksum_words(&cipher);
    let mut r: Vec<u64> = Vec::new();
    r.push(c.version);
    r.push(c.salt);
    r.push(c.iterations);
    let mut i: usize = 0;
    while i < cipher.len()
        invariant
            0 <= i <= cipher@.len(),
            r@ =~= seq![c.version, c.salt, c.iterations] + cipher@.take(i as int),
        decreases cipher@.len() - i,
    {
        r.push(cipher[i]);
        proof {
            assert(cipher@.take(i as int + 1) =~= cipher@.take(i as int).push(
                cipher@[i as int],
            ));
        }
        i += 1;
    }
    proof {
        assert(cipher@.take(cipher@.len() as int) =~= cipher@);
    }
    r.push(check);
    proof {
        assert(r@ =~= spec_save(c.model(), password@));
        lemma_save_then_open(c.model(), password@);
    }
    r
}

/// Opening a saved container with its password yields the container
/// back: the round-trip law the store owes its callers.
pub proof fn lemma_save_then_open(m: ContainerModel, password: Seq<u8>)
    requires
        spec_model_wf(m),
    ensures
        spec_open(spec_save(m, password), password) == Ok::<ContainerModel, WalletError>(m),
{
    let payload = spec_payload(m);
    let key = spec_kdf(password, m.salt, m.iterations);
    let cipher = spec_crypt(payload, key);
    let file = spec_save(m, password);
    assert(file.len() == 4 + payload.len());
    assert(payload.len() >= 17);
    assert(file[0] == m.version && m.version == WALLET_FILE_FORMAT_VERSION);
    assert(file.subrange(HEADER_WORDS as int, file.len() - 1) =~= cipher);
    assert(file.last() == spec_checksum(cipher));
    lemma_crypt_involution(payload, key);
    let plain = spec_crypt(cipher, key);
    assert(plain == payload);
    assert(plain[0] == PASSWORD_CHECK_WORD);
    lemma_decode_of_payload(m, plain);
}

/// Decoding the clear payload of a well-formed model restores the
/// model exactly.
proof fn lemma_decode_of_payload(m: ContainerModel, plain: Seq<u64>)
    requires
        spec_model_wf(m),
        plain == spec_payload(m),
    ensures
        spec_decode_body(plain, m.version, m.salt, m.iterations) == Ok::<
            ContainerModel,
            WalletError,
        >(m),
{
    let na = m.addresses.len() as int;
    let no = m.outputs.len() as int;
    let nc = m.checkpoints.len() as int;
    assert(plain.len() == 17 + 4 * na + 9 * no + 2 * nc);
    assert(plain[14] == na as u64 && plain[15] == no as u64 && plain[16] == nc as u64);
    lemma_decoded_addresses(m, plain);
    lemma_decoded_outputs(m, plain);
    lemma_decoded_checkpoints(m, plain);
    let decoded = spec_decode_body(plain, m.version, m.salt, m.iterations);
    assert(decoded is Ok);
    let d = decoded->Ok_0;
    assert(d.addresses == m.addresses && d.outputs == m.outputs && d.checkpoints
        == m.checkpoints);
}

/// The decoded address list of an encoded payload is the encoded
/// one, and its flag words are valid.
#[verifier::rlimit(50)]
proof fn lemma_decoded_addresses(m: ContainerModel, plain: Seq<u64>)
    requires
        spec_model_wf(m),
        plain == spec_payload(m),
    ensures
        spec_addresses_valid(plain, 17, m.addresses.len() as int),
        Seq::new(m.addresses.len() as nat, |i: int| spec_dec_address(plain, 17 + 4 * i))
            == m.addresses,
{
    let na = m.addresses.len() as int;
    assert forall|i: int| 0 <= i < na implies #[trigger] plain[17 + 4 * i + 2] <= 1 by {
        lemma_address_words(m, i);
    }
    let dec = Seq::new(m.addresses.len() as nat, |i: int| spec_dec_address(plain, 17 + 4 * i));
    assert forall|i: int| 0 <= i < na implies dec[i] == m.addresses[i] by {
        lemma_address_words(m, i);
    }
    assert(dec =~= m.addresses);
}

/// As `lemma_decoded_addresses`, for the outputs.
#[verifier::rlimit(50)]
proof fn lemma_decoded_outputs(m: ContainerModel, plain: Seq<u64>)
    requires
        spec_model_wf(m),
        plain == spec_payload(m),
    ensures
        spec_outputs_valid(plain, 17 + 4 * (m.addresses.len() as int), m.outputs.len() as int),
        Seq::new(
            m.outputs.len() as nat,
            |i: int| spec_dec_output(plain, 17 + 4 * m.addresses.len() + 9 * i),
        ) == m.outputs,
{
    let na = m.addresses.len() as int;
    let no = m.outputs.len() as int;
    assert forall|i: int| 0 <= i < no implies #[trigger] plain[17 + 4 * na + 9 * i + 6] <= 1
        && plain[17 + 4 * na + 9 * i + 8] <= 1 by {
        lemma_output_words(m, i);
    }
    let dec = Seq::new(
        m.outputs.len() as nat,
        |i: int| spec_dec_output(plain, 17 + 4 * m.addresses.len() + 9 * i),
    );
    assert forall|i: int| 0 <= i < no implies dec[i] == m.outputs[i] by {
        lemma_output_words(m, i);
    }
    assert(dec =~= m.outputs);
}

/// As `lemma_decoded_addresses`, for the checkpoints.
#[verifier::rlimit(50)]
proof fn lemma_decoded_checkpoints(m: ContainerModel, plain: Seq<u64>)
    requires
        spec_model_wf(m),
        plain == spec_payload(m),
    ensures
        Seq::new(
            m.checkpoints.len() as nat,
            |i: int| spec_dec_checkpoint(
                plain,
                17 + 4 * m.addresses.len() + 9 * m.outputs.len() + 2 * i,
            ),
        ) == m.checkpoints,
{
    let nc = m.checkpoints.len() as int;
    let dec = Seq::new(
        m.checkpoints.len() as nat,
        |i: int| spec_dec_checkpoint(
            plain,
            17 + 4 * m.addresses.len() + 9 * m.outputs.len() + 2 * i,
        ),
    );
    assert forall|i: int| 0 <= i < nc implies dec[i] == m.checkpoints[i] by {
        lemma_checkpoint_words(m, i);
    }
    assert(dec =~= m.checkpoints);
}

/// The words of address `i` sit at their formula positions.
proof fn lemma_address_words(m: ContainerModel, i: int)
    requires
        0 <= i < m.addresses.len(),
    ensures
        forall|r: int|
            0 <= r < 4 ==> #[trigger] spec_payload(m)[17 + 4 * i + r] == spec_enc_address(
                m.addresses[i],
            )[r],
{
    let plain = spec_payload(m);
    assert forall|r: int| 0 <= r < 4 implies #[trigger] plain[17 + 4 * i + r] == spec_enc_address(
        m.addresses[i],
    )[r] by {
        let k = 4 * i + r;
        assert(plain[17 + k] == spec_enc_addresses(m.addresses)[k]);
        assert(k / 4 == i && k % 4 == r) by (nonlinear_arith)
            requires 0 <= r < 4, k == 4 * i + r, i >= 0;
    }
}

/// The words of output `i` sit at their formula positions.
proof fn lemma_output_words(m: ContainerModel, i: int)
    requires
        0 <= i < m.outputs.len(),
    ensures
        forall|r: int|
            0 <= r < 9 ==> #[trigger] spec_payload(m)[17 + 4 * m.addresses.len() + 9 * i + r]
                == spec_enc_output(m.outputs[i])[r],
{
    let plain = spec_payload(m);
    let base = 17 + 4 * m.addresses.len();
    assert forall|r: int| 0 <= r < 9 implies #[trigger] plain[base + 9 * i + r] == spec_enc_output(
        m.outputs[i],
    )[r] by {
        let k = 9 * i + r;
        assert(plain[base + k] == spec_enc_outputs(m.outputs)[k]);
        assert(k / 9 == i && k % 9 == r) by (nonlinear_arith)
            requires 0 <= r < 9, k == 9 * i + r, i >= 0;
    }
}

/// The words of checkpoint `i` sit at their formula positions.
proof fn lemma_checkpoint_words(m: ContainerModel, i: int)
    requires
        0 <= i < m.checkpoints.len(),
    ensures
        forall|r: int|
            0 <= r < 2 ==> #[trigger] spec_payload(m)[17 + 4 * m.addresses.len() + 9
                * m.outputs.len() + 2 * i + r] == spec_enc_checkpoint(m.checkpoints[i])[r],
{
    let plain = spec_payload(m);
    let base = 17 + 4 * m.addresses.len() + 9 * m.outputs.len();
    assert forall|r: int| 0 <= r < 2 implies #[trigger] plain[base + 2 * i + r]
        == spec_enc_checkpoint(m.checkpoints[i])[r] by {
        let k = 2 * i + r;
        assert(plain[base + k] == spec_enc_checkpoints(m.checkpoints)[k]);
        assert(k / 2 == i && k % 2 == r) by (nonlinear_arith)
            requires 0 <= r < 2, k == 2 * i + r, i >= 0;
    }
}

/// A password whose derived key differs cannot open the file: the
/// check word never survives the wrong keystream, and nothing of the
/// payload is handed out.
pub proof fn lemma_wrong_password(m: ContainerModel, password: Seq<u8>, other: Seq<u8>)
    requires
        spec_model_wf(m),
        spec_kdf(other, m.salt, m.iterations) != spec_kdf(password, m.salt, m.iterations),
    ensures
        spec_open(spec_save(m, password), other) == Err::<ContainerModel, WalletError>(
            WalletError::WrongPassword,
        ),
{
    let payload = spec_payload(m);
    let key = spec_kdf(password, m.salt, m.iterations);
    let key2 = spec_kdf(other, m.salt, m.iterations);
    let cipher = spec_crypt(payload, key);
    let file = spec_save(m, password);
    assert(file.subrange(HEADER_WORDS as int, file.len() - 1) =~= cipher);
    let plain2 = spec_crypt(cipher, key2);
    assert(plain2[0] == (payload[0] ^ spec_keystream(key, 0)) ^ spec_keystream(key2, 0));
    lemma_keystream_injective(key, key2);
    let a = spec_keystream(key, 0);
    let b = spec_keystream(key2, 0);
    assert(a != b ==> (PASSWORD_CHECK_WORD ^ a) ^ b != PASSWORD_CHECK_WORD) by (bit_vector);
}

/// Decipher and decode a word file. Every failure is the exact kind
/// `spec_open` names: `UnsupportedVersion` for a foreign format,
/// `WrongPassword` when the check word fails, `CorruptFile` for a
/// checksum or shape violation; and on success the container is the
/// one that was saved, with nothing handed out on failure.
pub fn open_container(words: &Vec<u64>, password: &Vec<u8>) -> (r: Result<
    WalletContainer,
    WalletError,
>)
    ensures
        match r {
            Ok(c) => spec_open(words@, password@) == Ok::<ContainerModel, WalletError>(c.model()),
            Err(e) => spec_open(words@, password@) == Err::<ContainerModel, WalletError>(e),
        },
{
    if words.len() < 4 {
        return Err(WalletError::CorruptFile);
    }
    if words[0] != WALLET_FILE_FORMAT_VERSION {
        return Err(WalletError::UnsupportedVersion);
    }
    let version = words[0];
    let salt = words[1];
    let iterations = words[2];
    let mut cipher: Vec<u64> = Vec::new();
    let mut i: usize = HEADER_WORDS;
    while i < words.len() - 1
        invariant
            HEADER_WORDS <= i <= words@.len() - 1,
            words@.len() >= 4,
            cipher@ =~= words@.subrange(HEADER_WORDS as int, i as int),
        decreases words@.len() - 1 - i,
    {
        cipher.push(words[i]);
        proof {
            assert(words@.subrange(HEADER_WORDS as int, i as int + 1) =~= words@.subrange(
                HEADER_WORDS as int,
                i as int,
            ).push(words@[i as int]));
        }
        i += 1;
    }
    let check = checksum_words(&cipher);
    if words[words.len() - 1] != check {
        return Err(WalletError::CorruptFile);
    }
    let key = derive_key(password, salt, iterations);
    let plain = crypt_words(&cipher, key);
    if plain.len() < PAYLOAD_FIXED_WORDS {
        return Err(WalletError::CorruptFile);
    }
    if plain[0] != PASSWORD_CHECK_WORD {
        return Err(WalletError::WrongPassword);
    }
    decode_body(&plain, version, salt, iterations)
}

/// Decode the deciphered payload exactly as `spec_decode_body` says.
fn decode_body(plain: &Vec<u64>, version: u64, salt: u64, iterations: u64) -> (r: Result<
    WalletContainer,
    WalletError,
>)
    ensures
        match r {
            Ok(c) => spec_decode_body(plain@, version, salt, iterations) == Ok::<
                ContainerModel,
                WalletError,
            >(c.model()),
            Err(e) => spec_decode_body(plain@, version, salt, iterations) == Err::<
                ContainerModel,
                WalletError,
            >(e),
        },
{
    if plain.len() < PAYLOAD_FIXED_WORDS {
        return Err(WalletError::CorruptFile);
    }
    if plain[1] != version || plain[2] != salt || plain[3] != iterations {
        return Err(WalletError::CorruptFile);
    }
    let n_addresses = plain[14];
    let n_outputs = plain[15];
    let n_checkpoints = plain[16];
    let total: u128 = 17u128 + 4u128 * (n_addresses as u128) + 9u128 * (n_outputs as u128)
        + 2u128 * (n_checkpoints as u128);
    if (plain.len() as u128) != total {
        return Err(WalletError::CorruptFile);
    }
    if plain[8] > 1 {
        return Err(WalletError::CorruptFile);
    }
    let na = n_addresses as usize;
    let no = n_outputs as usize;
    let nc = n_checkpoints as usize;
    let plen: usize = plain.len();
    let ghost base_out = 17 + 4 * (na as int);
    let ghost base_cp = base_out + 9 * (no as int);
    let mut addresses: Vec<Address> = Vec::new();
    let mut i: usize = 0;
    while i < na
        invariant
            0 <= i <= na,
            plen == plain@.len(),
            plain@.len() == 17 + 4 * (na as int) + 9 * (no as int) + 2 * (nc as int),
            plain@[1] == version && plain@[2] == salt && plain@[3] == iterations,
            plain@[8] <= 1,
            plain@[14] == na as u64 && plain@[15] == no as u64 && plain@[16] == nc as u64,
            addresses@.len() == i,
            forall|j: int|
                0 <= j < i ==> #[trigger] addresses@[j] == spec_dec_address(plain@, 17 + 4 * j)
                    && plain@[17 + 4 * j + 2] <= 1,
        decreases na - i,
    {
        let p = 17 + 4 * i;
        let flag = plain[p + 2];
        if flag > 1 {
            proof {
                assert(plain@[17 + 4 * (i as int) + 2] > 1);
                assert(!spec_addresses_valid(plain@, 17, na as int));
            }
            return Err(WalletError::CorruptFile);
        }
        addresses.push(
            Address {
                spend_public_key: plain[p],
                view_public_key: plain[p + 1],
                has_payment_id: flag == 1,
                payment_id: plain[p + 3],
            },
        );
        i += 1;
    }
    proof {
        assert forall|q: int| 0 <= q < na implies #[trigger] plain@[17 + 4 * q + 2] <= 1 by {
            assert(addresses@[q] == spec_dec_address(plain@, 17 + 4 * q));
        }
        assert(spec_addresses_valid(plain@, 17, na as int));
    }
    let mut outputs: Vec<OwnedOutput> = Vec::new();
    let mut j: usize = 0;
    while j < no
        invariant
            0 <= j <= no,
            plen == plain@.len(),
            plain@.len() == 17 + 4 * (na as int) + 9 * (no as int) + 2 * (nc as int),
            plain@[1] == version && plain@[2] == salt && plain@[3] == iterations,
            plain@[8] <= 1,
            plain@[14] == na as u64 && plain@[15] == no as u64 && plain@[16] == nc as u64,
            spec_addresses_valid(plain@, 17, na as int),
            base_out == 17 + 4 * (na as int),
            outputs@.len() == j,
            forall|k: int|
                0 <= k < j ==> #[trigger] outputs@[k] == spec_dec_output(plain@, base_out + 9 * k)
                    && plain@[base_out + 9 * k + 6] <= 1 && plain@[base_out + 9 * k + 8] <= 1,
        decreases no - j,
    {
        let p = 17 + 4 * na + 9 * j;
        let gi_flag = plain[p + 6];
        let spent_flag = plain[p + 8];
        if gi_flag > 1 || spent_flag > 1 {
            proof {
                assert(plain@[base_out + 9 * (j as int) + 6] > 1 || plain@[base_out + 9 * (
                j as int) + 8] > 1);
                assert(!spec_outputs_valid(plain@, base_out, no as int));
            }
            return Err(WalletError::CorruptFile);
        }
        outputs.push(
            OwnedOutput {
                amount: plain[p],
                tx_hash: plain[p + 1],
                output_index: plain[p + 2],
                block_height: plain[p + 3],
                spend_public_key: plain[p + 4],
                key_image: plain[p + 5],
                has_global_index: gi_flag == 1,
                global_index: plain[p + 7],
                spent: spent_flag == 1,
            },
        );
        j += 1;
    }
    let mut checkpoints: Vec<Checkpoint> = Vec::new();
    let mut k: usize = 0;
    while k < nc
        invariant
            0 <= k <= nc,
            plen == plain@.len(),
            plain@.len() == 17 + 4 * (na as int) + 9 * (no as int) + 2 * (nc as int),
            base_cp == 17 + 4 * (na as int) + 9 * (no as int),
            checkpoints@.len() == k,
            forall|q: int|
                0 <= q < k ==> #[trigger] checkpoints@[q] == spec_dec_checkpoint(
                    plain@,
                    base_cp + 2 * q,
                ),
        decreases nc - k,
    {
        let p = 17 + 4 * na + 9 * no + 2 * k;
        checkpoints.push(Checkpoint { height: plain[p], hash: plain[p + 1] });
        k += 1;
    }
    let c = WalletContainer {
        version,
        salt,
        iterations,
        view_keys: KeyPair { public_key: plain[4], private_key: plain[5] },
        spend_keys: KeyPair { public_key: plain[6], private_key: plain[7] },
        view_only: plain[8] == 1,
        creation_height: plain[9],
        creation_hash: plain[10],
        synced_height: plain[11],
        tip_hash: plain[12],
        confirmation_depth: plain[13],
        addresses,
        outputs,
        checkpoints,
    };
    proof {
        let d = spec_decode_body(plain@, version, salt, iterations);
        assert forall|q: int| 0 <= q < na implies #[trigger] plain@[17 + 4 * q + 2] <= 1 by {
            assert(addresses@[q] == spec_dec_address(plain@, 17 + 4 * q));
        }
        assert forall|q: int| 0 <= q < no implies #[trigger] plain@[base_out + 9 * q + 6] <= 1
            && plain@[base_out + 9 * q + 8] <= 1 by {
            assert(outputs@[q] == spec_dec_output(plain@, base_out + 9 * q));
        }
        assert(spec_addresses_valid(plain@, 17, na as int));
        assert(spec_outputs_valid(plain@, base_out, no as int));
        assert(d is Ok);
        let dm = d->Ok_0;
        assert(c.model().addresses =~= dm.addresses);
        assert(c.model().outputs =~= dm.outputs);
        assert(c.model().checkpoints =~= dm.checkpoints);
    }
    Ok(c)
}

} // verus!
