//! AES-256-GCM, random bytes, and wiping what must not linger.
use aes_gcm::aead::{Aead, KeyInit, Nonce, Payload};
use vstd::prelude::*;

use crate::crypto::kdf::{KEY_LEN, SALT_LEN};
use crate::crypto::wiped::{SecretBytes, SecretKey};
use crate::error::{AppError, ErrorView};

verus! {

pub const NONCE_LEN: usize = 12;

/// The number of bytes that AES-256-GCM adds to a message.
pub const TAG_LEN: usize = 16;

/// The longest message and the longest additional data that AES-GCM takes.
pub const GCM_MAX: u64 = 0x10_0000_0000;

/// The sealed form of a message under AES-256-GCM: the ciphertext, then the tag.
pub uninterp spec fn gcm_seal(key: Seq<u8>, nonce: Seq<u8>, aad: Seq<u8>, plaintext: Seq<u8>) -> Seq<u8>;

/// The message in a sealed form, if its tag is right.
pub uninterp spec fn gcm_open(key: Seq<u8>, nonce: Seq<u8>, aad: Seq<u8>, sealed: Seq<u8>) -> Option<Seq<u8>>;

/// Whether AES-GCM takes a message and additional data of these lengths.
pub open spec fn gcm_takes(aad_len: nat, plaintext_len: nat) -> bool {
    aad_len <= GCM_MAX && plaintext_len <= GCM_MAX
}

/// `aes_gcm::Aes256Gcm`'s `encrypt`. It fails only where the message or the
/// additional data is longer than 2^36 bytes. What it returns is a function of
/// the four inputs, is 16 bytes longer than the message, and opens to the
/// message under the same key, nonce and additional data.
#[verifier::external_body]
fn aes_gcm_encrypt(key: &[u8; KEY_LEN], nonce: &[u8; NONCE_LEN], aad: &[u8], plaintext: &[u8]) -> (r: Result<
    Vec<u8>,
    String,
>)
    ensures
        match r {
            Ok(sealed) => {
                &&& gcm_takes(aad@.len(), plaintext@.len())
                &&& sealed@ == gcm_seal(key@, nonce@, aad@, plaintext@)
                &&& sealed@.len() == plaintext@.len() + TAG_LEN
                &&& gcm_open(key@, nonce@, aad@, sealed@) == Some(plaintext@)
            },
            Err(text) => !gcm_takes(aad@.len(), plaintext@.len()) && text@ == "aead::Error"@,
        },
{
    let cipher = aes_gcm::Aes256Gcm::new_from_slice(key).map_err(|e| e.to_string())?;
    let nonce = Nonce::<aes_gcm::Aes256Gcm>::from(*nonce);
    cipher.encrypt(&nonce, Payload { msg: plaintext, aad }).map_err(|e| e.to_string())
}

/// `aes_gcm::Aes256Gcm`'s `decrypt`. What it returns is a function of the four
/// inputs. A message that it returns is 16 bytes shorter than the sealed form,
/// and sealing that message again gives the same sealed form: nothing else
/// opens to it under this key, nonce and additional data. That another key,
/// nonce or additional data opens nothing is not claimed: it holds only up to
/// chance.
#[verifier::external_body]
fn aes_gcm_decrypt(key: &[u8; KEY_LEN], nonce: &[u8; NONCE_LEN], aad: &[u8], sealed: &[u8]) -> (r: Option<Vec<u8>>)
    ensures
        match r {
            Some(plaintext) => {
                &&& gcm_open(key@, nonce@, aad@, sealed@) == Some(plaintext@)
                &&& sealed@.len() == plaintext@.len() + TAG_LEN
                &&& gcm_takes(aad@.len(), plaintext@.len()) ==> gcm_seal(key@, nonce@, aad@, plaintext@) == sealed@
            },
            None => gcm_open(key@, nonce@, aad@, sealed@) is None,
        },
{
    let cipher = aes_gcm::Aes256Gcm::new_from_slice(key).ok()?;
    let nonce = Nonce::<aes_gcm::Aes256Gcm>::from(*nonce);
    cipher.decrypt(&nonce, Payload { msg: sealed, aad }).ok()
}

/// `getrandom::fill`. The bytes are the operating system's choice, so nothing
/// is claimed of them; a failure carries the error's own sentence.
#[verifier::external_body]
fn random_bytes<const N: usize>() -> (r: Result<[u8; N], String>) {
    let mut buf = [0u8; N];
    getrandom::fill(&mut buf).map_err(|e| e.to_string())?;
    Ok(buf)
}

/// `zeroize::Zeroize::zeroize` on an array of bytes: every byte becomes zero.
#[verifier::external_body]
pub(crate) fn wipe_key(key: &mut [u8; KEY_LEN])
    ensures
        forall|i: int| 0 <= i < KEY_LEN ==> final(key)@[i] == 0,
    opens_invariants none
    no_unwind
{
    zeroize::Zeroize::zeroize(key);
}

/// `zeroize::Zeroize::zeroize` on a vector of bytes: its buffer is overwritten
/// and it becomes empty.
#[verifier::external_body]
pub(crate) fn wipe_bytes(bytes: &mut Vec<u8>)
    ensures
        final(bytes)@.len() == 0,
    opens_invariants none
    no_unwind
{
    zeroize::Zeroize::zeroize(bytes);
}

/// `zeroize::Zeroize::zeroize` on a text: its buffer is overwritten and it
/// becomes empty.
#[verifier::external_body]
pub(crate) fn wipe_text(text: &mut String)
    ensures
        final(text)@.len() == 0,
    opens_invariants none
    no_unwind
{
    zeroize::Zeroize::zeroize(text);
}

/// Encrypts `plaintext` under `key` and `nonce`, authenticating (but not
/// encrypting) `aad` alongside it. The nonce must be fresh for every call with
/// the same key: see `random_nonce`.
pub fn encrypt(key: &[u8; KEY_LEN], nonce: &[u8; NONCE_LEN], aad: &[u8], plaintext: &[u8]) -> (r: Result<
    Vec<u8>,
    AppError,
>)
    ensures
        match r {
            Ok(sealed) => {
                &&& gcm_takes(aad@.len(), plaintext@.len())
                &&& sealed@ == gcm_seal(key@, nonce@, aad@, plaintext@)
                &&& sealed@.len() == plaintext@.len() + TAG_LEN
                &&& gcm_open(key@, nonce@, aad@, sealed@) == Some(plaintext@)
            },
            Err(e) => !gcm_takes(aad@.len(), plaintext@.len()) && e@ == ErrorView::Crypto("aead::Error"@),
        },
{
    match aes_gcm_encrypt(key, nonce, aad, plaintext) {
        Ok(sealed) => Ok(sealed),
        Err(text) => Err(AppError::Crypto(text)),
    }
}

/// Decrypts `ciphertext` under `key`, `nonce` and `aad`. The authentication tag
/// is the only check: a wrong key and a tampered header or ciphertext are the
/// same `WrongPasswordOrCorrupt`, by design.
pub fn decrypt(key: &[u8; KEY_LEN], nonce: &[u8; NONCE_LEN], aad: &[u8], ciphertext: &[u8]) -> (r: Result<
    SecretBytes,
    AppError,
>)
    ensures
        match r {
            Ok(plaintext) => {
                &&& gcm_open(key@, nonce@, aad@, ciphertext@) == Some(plaintext@)
                &&& ciphertext@.len() == plaintext@.len() + TAG_LEN
                &&& gcm_takes(aad@.len(), plaintext@.len()) ==> gcm_seal(key@, nonce@, aad@, plaintext@) == ciphertext@
            },
            Err(e) => gcm_open(key@, nonce@, aad@, ciphertext@) is None && e@ == ErrorView::WrongPasswordOrCorrupt,
        },
{
    match aes_gcm_decrypt(key, nonce, aad, ciphertext) {
        Some(plaintext) => Ok(SecretBytes::new(plaintext)),
        None => Err(AppError::WrongPasswordOrCorrupt),
    }
}

/// What a draw from the random source comes to: the bytes as they were drawn, or
/// a `Crypto` error with the source's own sentence.
pub fn drawn<const N: usize>(source: Result<[u8; N], String>) -> (r: Result<[u8; N], AppError>)
    ensures
        match source {
            Ok(bytes) => r == Ok::<[u8; N], AppError>(bytes),
            Err(text) => r == Err::<[u8; N], AppError>(AppError::Crypto(text)),
        },
{
    match source {
        Ok(bytes) => Ok(bytes),
        Err(text) => Err(AppError::Crypto(text)),
    }
}

/// A fresh nonce. A failure of the random source is a `Crypto` error.
pub fn random_nonce() -> (r: Result<[u8; NONCE_LEN], AppError>)
    ensures
        r matches Err(e) ==> e@ is Crypto,
{
    drawn(random_bytes::<NONCE_LEN>())
}

/// 32 fresh random bytes: a device key, or the master key that the vault body is
/// encrypted under. That one is made once, at vault creation, and never derived
/// from anything the user types.
pub fn random_master_key() -> (r: Result<SecretKey, AppError>)
    ensures
        r matches Err(e) ==> e@ is Crypto,
{
    drawn_key(drawn(random_bytes::<KEY_LEN>()))
}

/// The key of 32 drawn bytes.
pub fn drawn_key(raw: Result<[u8; KEY_LEN], AppError>) -> (r: Result<SecretKey, AppError>)
    ensures
        match raw {
            Ok(bytes) => r matches Ok(key) && key@ == bytes@,
            Err(e) => r == Err::<SecretKey, AppError>(e),
        },
{
    match raw {
        Ok(bytes) => Ok(SecretKey::new(bytes)),
        Err(e) => Err(e),
    }
}

/// A fresh salt. A failure of the random source is a `Crypto` error.
pub fn random_salt() -> (r: Result<[u8; SALT_LEN], AppError>)
    ensures
        r matches Err(e) ==> e@ is Crypto,
{
    drawn(random_bytes::<SALT_LEN>())
}

} // verus!
