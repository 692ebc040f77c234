//! AES-256-GCM with an explicit nonce and no associated data.
use vstd::prelude::*;
use aes_gcm::aead::{Aead, KeyInit};
use crate::envelope::{NONCE_LEN, TAG_LEN};
use crate::error::CryptoError;
use crate::kdf::KEY_LEN;

verus! {

/// Longest plaintext AES-GCM accepts, in bytes.
pub const MAX_PLAINTEXT_LEN: u64 = 68719476736;

/// Longest ciphertext, tag included, that the decryption side accepts.
pub const MAX_CIPHERTEXT_LEN: u64 = 68719476752;

/// AES-256-GCM ciphertext, tag appended, of `msg` under `key` and `nonce`.
pub uninterp spec fn gcm_sealed(key: Seq<u8>, nonce: Seq<u8>, msg: Seq<u8>) -> Seq<u8>;

/// Relies on aes_gcm::Aes256Gcm's `Aead::encrypt`: it refuses a message
/// longer than `P_MAX` (2^36 bytes) and otherwise returns the ciphertext, as
/// long as the message, followed by the 16-byte tag.
#[verifier::external_body]
fn aes_gcm_encrypt(key: &Vec<u8>, nonce: &Vec<u8>, msg: &Vec<u8>) -> (r: Option<Vec<u8>>)
    requires
        key@.len() == KEY_LEN,
        nonce@.len() == NONCE_LEN,
    ensures
        r is Some <==> msg@.len() <= MAX_PLAINTEXT_LEN,
        r is Some ==> r->0@ == gcm_sealed(key@, nonce@, msg@),
        r is Some ==> r->0@.len() == msg@.len() + TAG_LEN,
{
    let cipher = aes_gcm::Aes256Gcm::new(aes_gcm::Key::<aes_gcm::Aes256Gcm>::from_slice(key));
    cipher.encrypt(aes_gcm::Nonce::from_slice(nonce), msg.as_slice()).ok()
}

/// Relies on aes_gcm::Aes256Gcm's `Aead::decrypt`: it succeeds exactly when
/// the tag authenticates, and then returns the one message whose encryption
/// under the same key and nonce is `ct`.
#[verifier::external_body]
fn aes_gcm_decrypt(key: &Vec<u8>, nonce: &Vec<u8>, ct: &Vec<u8>) -> (r: Option<Vec<u8>>)
    requires
        key@.len() == KEY_LEN,
        nonce@.len() == NONCE_LEN,
        ct@.len() <= MAX_CIPHERTEXT_LEN,
    ensures
        r is Some ==> gcm_sealed(key@, nonce@, r->0@) == ct@,
        r is Some ==> r->0@.len() <= MAX_PLAINTEXT_LEN,
        forall|m: Seq<u8>|
            m.len() <= MAX_PLAINTEXT_LEN && #[trigger] gcm_sealed(key@, nonce@, m) == ct@
                ==> r is Some && r->0@ == m,
{
    let cipher = aes_gcm::Aes256Gcm::new(aes_gcm::Key::<aes_gcm::Aes256Gcm>::from_slice(key));
    cipher.decrypt(aes_gcm::Nonce::from_slice(nonce), ct.as_slice()).ok()
}

/// What `seal` gives for `msg`.
pub open spec fn sealed(key: Seq<u8>, nonce: Seq<u8>, msg: Seq<u8>) -> Result<Seq<u8>, CryptoError> {
    if msg.len() <= MAX_PLAINTEXT_LEN {
        Ok(gcm_sealed(key, nonce, msg))
    } else {
        Err(CryptoError::EncryptionFailed)
    }
}

/// `ct` is the encryption of some message under `key` and `nonce`.
pub open spec fn authentic(key: Seq<u8>, nonce: Seq<u8>, ct: Seq<u8>) -> bool {
    exists|m: Seq<u8>| m.len() <= MAX_PLAINTEXT_LEN && #[trigger] gcm_sealed(key, nonce, m) == ct
}

/// What `open` gives for `ct`: the message it encrypts, or `DecryptionFailed`.
pub open spec fn opened(key: Seq<u8>, nonce: Seq<u8>, ct: Seq<u8>) -> Result<Seq<u8>, CryptoError> {
    if ct.len() <= MAX_CIPHERTEXT_LEN && authentic(key, nonce, ct) {
        Ok(choose|m: Seq<u8>| m.len() <= MAX_PLAINTEXT_LEN && #[trigger] gcm_sealed(key, nonce, m) == ct)
    } else {
        Err(CryptoError::DecryptionFailed)
    }
}

/// Encrypts `msg` under `key` and `nonce`; the result is the ciphertext with
/// the tag appended.
pub fn seal(key: &Vec<u8>, nonce: &Vec<u8>, msg: &Vec<u8>) -> (r: Result<Vec<u8>, CryptoError>)
    requires
        key@.len() == KEY_LEN,
        nonce@.len() == NONCE_LEN,
    ensures
        match r {
            Ok(c) => sealed(key@, nonce@, msg@) == Ok::<Seq<u8>, CryptoError>(c@),
            Err(e) => sealed(key@, nonce@, msg@) == Err::<Seq<u8>, CryptoError>(e),
        },
        r is Ok ==> r->Ok_0@.len() == msg@.len() + TAG_LEN,
{
    match aes_gcm_encrypt(key, nonce, msg) {
        Some(c) => Ok(c),
        None => Err(CryptoError::EncryptionFailed),
    }
}

/// Decrypts `ct` under `key` and `nonce`. Fails with `DecryptionFailed` when
/// the tag does not authenticate.
pub fn open(key: &Vec<u8>, nonce: &Vec<u8>, ct: &Vec<u8>) -> (r: Result<Vec<u8>, CryptoError>)
    requires
        key@.len() == KEY_LEN,
        nonce@.len() == NONCE_LEN,
    ensures
        match r {
            Ok(m) => opened(key@, nonce@, ct@) == Ok::<Seq<u8>, CryptoError>(m@),
            Err(e) => opened(key@, nonce@, ct@) == Err::<Seq<u8>, CryptoError>(e),
        },
        ct@.len() <= MAX_CIPHERTEXT_LEN ==> forall|m: Seq<u8>|
            m.len() <= MAX_PLAINTEXT_LEN && #[trigger] gcm_sealed(key@, nonce@, m) == ct@
                ==> r is Ok && r->Ok_0@ == m,
{
    if ct.len() as u64 > MAX_CIPHERTEXT_LEN {
        return Err(CryptoError::DecryptionFailed);
    }
    match aes_gcm_decrypt(key, nonce, ct) {
        Some(m) => {
            proof {
                let c = choose|x: Seq<u8>|
                    x.len() <= MAX_PLAINTEXT_LEN && #[trigger] gcm_sealed(key@, nonce@, x) == ct@;
                assert(authentic(key@, nonce@, ct@));
                assert(gcm_sealed(key@, nonce@, c) == ct@);
            }
            Ok(m)
        },
        None => Err(CryptoError::DecryptionFailed),
    }
}

} // verus!
