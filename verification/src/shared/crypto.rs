//! Key derivation and field encryption.
//!
//! The ciphers themselves are not verified here: PBKDF2, HMAC, SHA-256, AES and
//! the CBC mode come from their crates. This module names what they compute
//! and states what the rest of the library relies on.

use aes::Aes256;
use cbc::cipher::block_padding::Pkcs7;
use cbc::cipher::{BlockDecryptMut, BlockEncryptMut, KeyIvInit};
use hmac::Hmac;
use rand::RngCore;
use sha2::Sha256;
use vstd::prelude::*;

use crate::shared::addr::bytes_equal;
use crate::{BLOCK_SIZE, KEY_DERIVATION_ROUNDS, KEY_SIZE};

verus! {

/// Why a field could not be encrypted or decrypted.
#[derive(Clone, Copy, Debug, PartialEq, Eq, Structural)]
pub enum CryptoFailure {
    /// The key is not 32 bytes long or the IV is not 16 bytes long.
    InvalidLength,
    /// The ciphertext is corrupt, was made with another key, or is not a
    /// whole number of blocks.
    PaddingInvalid,
}

/// The 32 bytes that PBKDF2 over HMAC-SHA-256 derives from a password and a
/// salt in the given number of rounds.
pub uninterp spec fn pbkdf2_hmac_sha256(password: Seq<u8>, salt: Seq<u8>, rounds: u32) -> Seq<u8>;

/// The ciphertext of AES-256 in CBC mode with PKCS#7 padding.
pub uninterp spec fn aes256_cbc_encrypted(key: Seq<u8>, iv: Seq<u8>, plaintext: Seq<u8>) -> Seq<u8>;

/// The plaintext that AES-256 in CBC mode recovers and unpads, or `None`
/// where the padding it finds is not PKCS#7.
pub uninterp spec fn aes256_cbc_decrypted(key: Seq<u8>, iv: Seq<u8>, ciphertext: Seq<u8>) -> Option<
    Seq<u8>,
>;

/// The length of the ciphertext of a plaintext of `len` bytes: the padding
/// fills the last block and takes a whole block where nothing is left to fill.
pub open spec fn spec_encrypted_len(len: nat) -> nat {
    16 * (len / 16 + 1)
}

/// Calls `pbkdf2::pbkdf2` with `Hmac<Sha256>` on a 32-byte buffer. The result
/// is a function of password, salt and round count alone. HMAC takes a key of
/// any length, so the call's error cannot occur and is dropped.
#[verifier::external_body]
fn pbkdf2_call(password: &[u8], salt: &[u8], rounds: u32) -> (key: [u8; 32])
    ensures
        key@ == pbkdf2_hmac_sha256(password@, salt@, rounds),
{
    let mut key = [0u8; 32];
    let _ = pbkdf2::pbkdf2::<Hmac<Sha256>>(password, salt, rounds, &mut key);
    key
}

/// Calls `KeyIvInit::new_from_slices` on `cbc::Encryptor<Aes256>` and then
/// `BlockEncryptMut::encrypt_padded_vec_mut` with `Pkcs7`. The first fails
/// exactly on a key that is not 32 or an IV that is not 16 bytes long. The
/// second pads to the next block boundary, a whole block where the plaintext
/// ends on one, and encrypts; decrypting its output under the same key and IV
/// removes that padding again.
#[verifier::external_body]
fn cbc_encrypt_call(key: &[u8], iv: &[u8], data: &[u8]) -> (r: Option<Vec<u8>>)
    requires
        data@.len() + 16 <= usize::MAX,
    ensures
        (r is Some) == (key@.len() == 32 && iv@.len() == 16),
        r matches Some(ct) ==> ct@ == aes256_cbc_encrypted(key@, iv@, data@),
        r matches Some(ct) ==> ct@.len() == spec_encrypted_len(data@.len()),
        r matches Some(ct) ==> aes256_cbc_decrypted(key@, iv@, ct@) == Some(data@),
{
    match cbc::Encryptor::<Aes256>::new_from_slices(key, iv) {
        Ok(cipher) => Some(cipher.encrypt_padded_vec_mut::<Pkcs7>(data)),
        Err(_) => None,
    }
}

/// Calls `KeyIvInit::new_from_slices` on `cbc::Decryptor<Aes256>` and then
/// `BlockDecryptMut::decrypt_padded_vec_mut` with `Pkcs7`. The first fails
/// exactly on a key that is not 32 or an IV that is not 16 bytes long. The
/// second fails where the input is not a whole number of blocks or the
/// padding is malformed.
#[verifier::external_body]
fn cbc_decrypt_call(key: &[u8], iv: &[u8], ciphertext: &[u8]) -> (r: Result<Vec<u8>, CryptoFailure>)
    ensures
        (r matches Err(CryptoFailure::InvalidLength)) == !(key@.len() == 32 && iv@.len() == 16),
        r matches Ok(plain) ==> aes256_cbc_decrypted(key@, iv@, ciphertext@) == Some(plain@),
        r matches Err(CryptoFailure::PaddingInvalid) ==> aes256_cbc_decrypted(
            key@,
            iv@,
            ciphertext@,
        ) is None,
        ciphertext@.len() % 16 != 0 ==> r is Err,
{
    match cbc::Decryptor::<Aes256>::new_from_slices(key, iv) {
        Ok(cipher) => match cipher.decrypt_padded_vec_mut::<Pkcs7>(ciphertext) {
            Ok(plain) => Ok(plain),
            Err(_) => Err(CryptoFailure::PaddingInvalid),
        },
        Err(_) => Err(CryptoFailure::InvalidLength),
    }
}

/// Calls `rand::rng` and `RngCore::fill_bytes` on a block. Nothing is known
/// of the bytes that come back.
#[verifier::external_body]
pub(crate) fn random_block_call() -> (block: [u8; 16]) {
    let mut block = [0u8; 16];
    rand::rng().fill_bytes(&mut block);
    block
}

/// The key of a network: derived from its password and its salt.
pub open spec fn spec_derive_key(password: Seq<u8>, salt: Seq<u8>) -> Seq<u8> {
    pbkdf2_hmac_sha256(password, salt, KEY_DERIVATION_ROUNDS)
}

/// Derives the 32-byte key of a network from its password and its salt.
pub fn derive_key_from_password(password: &[u8], salt: &[u8]) -> (key: [u8; 32])
    ensures
        key@ == spec_derive_key(password@, salt@),
{
    pbkdf2_call(password, salt, KEY_DERIVATION_ROUNDS)
}

/// What `encrypt` returns for given lengths of key and IV.
pub open spec fn spec_encrypt(key: Seq<u8>, iv: Seq<u8>, data: Seq<u8>) -> Result<
    Seq<u8>,
    CryptoFailure,
> {
    if key.len() == KEY_SIZE && iv.len() == BLOCK_SIZE {
        Ok(aes256_cbc_encrypted(key, iv, data))
    } else {
        Err(CryptoFailure::InvalidLength)
    }
}

/// What `decrypt` returns.
pub open spec fn spec_decrypt(key: Seq<u8>, iv: Seq<u8>, ciphertext: Seq<u8>) -> Result<
    Seq<u8>,
    CryptoFailure,
> {
    if key.len() == KEY_SIZE && iv.len() == BLOCK_SIZE {
        match aes256_cbc_decrypted(key, iv, ciphertext) {
            Some(plain) => Ok(plain),
            None => Err(CryptoFailure::PaddingInvalid),
        }
    } else {
        Err(CryptoFailure::InvalidLength)
    }
}

/// The bytes of a result, where there are any.
pub open spec fn result_view(r: Result<Vec<u8>, CryptoFailure>) -> Result<Seq<u8>, CryptoFailure> {
    match r {
        Ok(v) => Ok(v@),
        Err(e) => Err(e),
    }
}

/// Encrypts `data` with AES-256 in CBC mode under `key` and `iv`.
///
/// The ciphertext decrypts to `data` under the same key and IV.
pub fn encrypt(key: &[u8], iv: &[u8], data: &[u8]) -> (r: Result<Vec<u8>, CryptoFailure>)
    requires
        data@.len() + 16 <= usize::MAX,
    ensures
        result_view(r) == spec_encrypt(key@, iv@, data@),
        r matches Ok(ct) ==> ct@.len() == spec_encrypted_len(data@.len()),
        r matches Ok(ct) ==> spec_decrypt(key@, iv@, ct@) == Ok::<Seq<u8>, CryptoFailure>(data@),
{
    match cbc_encrypt_call(key, iv, data) {
        Some(ct) => Ok(ct),
        None => Err(CryptoFailure::InvalidLength),
    }
}

/// Decrypts `ciphertext` with AES-256 in CBC mode under `key` and `iv`.
///
/// A ciphertext that is not a whole number of blocks is rejected.
pub fn decrypt(key: &[u8], iv: &[u8], ciphertext: &[u8]) -> (r: Result<Vec<u8>, CryptoFailure>)
    ensures
        result_view(r) == spec_decrypt(key@, iv@, ciphertext@),
        key@.len() == KEY_SIZE && iv@.len() == BLOCK_SIZE && ciphertext@.len() % 16 != 0 ==> r
            == Err::<Vec<u8>, CryptoFailure>(CryptoFailure::PaddingInvalid),
{
    cbc_decrypt_call(key, iv, ciphertext)
}

/// A block of fresh random bytes, for use as a salt or an IV.
pub fn random_block() -> (block: [u8; 16]) {
    random_block_call()
}

/// What the self-test of the cipher found.
#[derive(Clone, Copy, Debug, PartialEq, Eq, Structural)]
pub struct CryptoSelfTest {
    /// The sample text was encrypted.
    pub encrypted: bool,
    /// Decrypting the ciphertext gave the sample text back.
    pub round_trip: bool,
    /// Decrypting under a key from another password did not give it back.
    pub wrong_key_rejected: bool,
}

/// Runs the cipher on a sample: derives a key, encrypts, decrypts, and tries
/// a key derived from another password.
///
/// Encryption and the round trip always succeed; what the wrong key does is
/// reported as found.
pub fn test_all_crypto_functions() -> (report: CryptoSelfTest)
    ensures
        report.encrypted,
        report.round_trip,
{
    let password = "test_password_123".as_bytes();
    let salt = "random_salt_data".as_bytes();
    let iv: [u8; 16] = [49, 50, 51, 52, 53, 54, 55, 56, 57, 48, 49, 50, 51, 52, 53, 54];
    let sample: [u8; 20] = [
        72,
        101,
        108,
        108,
        111,
        44,
        32,
        115,
        101,
        99,
        114,
        101,
        116,
        32,
        100,
        97,
        116,
        97,
        33,
        33,
    ];
    let key = derive_key_from_password(password, salt);
    let wrong_key = derive_key_from_password("wrong_password".as_bytes(), salt);
    match encrypt(key.as_slice(), iv.as_slice(), sample.as_slice()) {
        Ok(ciphertext) => {
            let round_trip = match decrypt(key.as_slice(), iv.as_slice(), ciphertext.as_slice()) {
                Ok(plain) => bytes_equal(plain.as_slice(), sample.as_slice()),
                Err(_) => false,
            };
            let wrong_key_rejected = match decrypt(
                wrong_key.as_slice(),
                iv.as_slice(),
                ciphertext.as_slice(),
            ) {
                Ok(plain) => !bytes_equal(plain.as_slice(), sample.as_slice()),
                Err(_) => true,
            };
            CryptoSelfTest { encrypted: true, round_trip, wrong_key_rejected }
        },
        Err(_) => CryptoSelfTest { encrypted: false, round_trip: false, wrong_key_rejected: false },
    }
}

} // verus!
