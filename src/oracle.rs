//! The client side of the threshold oracle: ephemeral transport key pairs,
//! recovery and verification of a derived key from the oracle's answer, and
//! fail-open decryption of identity-based ciphertexts with a derived key.
use vstd::prelude::*;
use crate::envelope::{decode, decoded, Decoded, DecodedModel};
use crate::error::CryptoError;
use ic_vetkeys::{DerivedPublicKey, EncryptedVetKey, IbeCiphertext, TransportSecretKey, VetKey};

verus! {

/// Length of a transport key seed.
pub const TRANSPORT_SEED_LEN: usize = 32;

/// Length of a serialized transport public key (a compressed G1 point).
pub const TRANSPORT_PUBLIC_KEY_LEN: usize = 48;

/// Length of a serialized derived key (a compressed G1 point).
pub const DERIVED_KEY_LEN: usize = 48;

/// Length of a serialized public key of the service (a compressed G2 point).
pub const PUBLIC_KEY_LEN: usize = 96;

/// Length of an encrypted derived key as the oracle returns it.
pub const ENCRYPTED_KEY_LEN: usize = 192;

/// Shortest identity-based ciphertext: header, seed and a G2 point.
pub const IBE_OVERHEAD: usize = 136;

/// The public half of the transport key pair made from `seed`.
pub uninterp spec fn transport_public_of(seed: Seq<u8>) -> Seq<u8>;

/// Relies on ic_vetkeys::TransportSecretKey::from_seed, which accepts any
/// 32-byte seed, and on its `public_key`: a compressed G1 point, 48 bytes,
/// fixed by the seed.
#[verifier::external_body]
fn transport_public_key(seed: &Vec<u8>) -> (r: Vec<u8>)
    requires
        seed@.len() == TRANSPORT_SEED_LEN,
    ensures
        r@ == transport_public_of(seed@),
        r@.len() == TRANSPORT_PUBLIC_KEY_LEN,
{
    TransportSecretKey::from_seed(seed.clone()).unwrap().public_key()
}

/// The derived key that verify-and-decrypt recovers from `encrypted` with the
/// transport key made from `seed`, checked against `public_key` and
/// `identity`; `None` when it does not parse or does not verify.
pub uninterp spec fn unwrapped_key(
    encrypted: Seq<u8>,
    seed: Seq<u8>,
    public_key: Seq<u8>,
    identity: Seq<u8>,
) -> Option<Seq<u8>>;

/// Relies on ic_vetkeys::EncryptedVetKey::decrypt_and_verify, with its
/// arguments parsed by TransportSecretKey::from_seed,
/// DerivedPublicKey::deserialize (96 bytes only) and
/// EncryptedVetKey::deserialize (192 bytes only), and the result written out
/// by VetKey::serialize (48 bytes). It fails when a part does not parse or the
/// recovered key does not verify.
#[verifier::external_body]
fn verified_derived_key(
    encrypted: &Vec<u8>,
    seed: &Vec<u8>,
    public_key: &Vec<u8>,
    identity: &Vec<u8>,
) -> (r: Option<Vec<u8>>)
    requires
        seed@.len() == TRANSPORT_SEED_LEN,
    ensures
        match r {
            Some(k) => unwrapped_key(encrypted@, seed@, public_key@, identity@) == Some(k@),
            None => unwrapped_key(encrypted@, seed@, public_key@, identity@) is None,
        },
        r is Some ==> r->0@.len() == DERIVED_KEY_LEN,
        encrypted@.len() != ENCRYPTED_KEY_LEN ==> r is None,
        public_key@.len() != PUBLIC_KEY_LEN ==> r is None,
{
    let tsk = TransportSecretKey::from_seed(seed.clone()).ok()?;
    let dpk = DerivedPublicKey::deserialize(public_key.as_slice()).ok()?;
    let ek = EncryptedVetKey::deserialize(encrypted.as_slice()).ok()?;
    let key = ek.decrypt_and_verify(&tsk, &dpk, identity.as_slice()).ok()?;
    Some(key.serialize().to_vec())
}

/// The plaintext of the identity-based ciphertext `ciphertext` under the
/// derived key `key`; `None` when either does not parse or decryption fails.
pub uninterp spec fn ibe_opened(key: Seq<u8>, ciphertext: Seq<u8>) -> Option<Seq<u8>>;

/// Relies on ic_vetkeys::IbeCiphertext::decrypt, with its arguments parsed by
/// VetKey::deserialize (48 bytes only) and IbeCiphertext::deserialize (at
/// least header, seed and G2 point). It fails when a part does not parse or
/// the ciphertext does not check out under the key.
#[verifier::external_body]
fn ibe_decrypt(key: &Vec<u8>, ciphertext: &Vec<u8>) -> (r: Option<Vec<u8>>)
    ensures
        match r {
            Some(m) => ibe_opened(key@, ciphertext@) == Some(m@),
            None => ibe_opened(key@, ciphertext@) is None,
        },
        key@.len() != DERIVED_KEY_LEN ==> r is None,
        ciphertext@.len() < IBE_OVERHEAD ==> r is None,
{
    let vetkey = VetKey::deserialize(key.as_slice()).ok()?;
    let c = IbeCiphertext::deserialize(ciphertext.as_slice()).ok()?;
    c.decrypt(&vetkey).ok()
}

/// An ephemeral transport key pair: the oracle encrypts a derived key to its
/// public half, and only its secret half recovers it. Made for one request
/// from a fresh seed and dropped with it.
pub struct TransportKeypair {
    seed: Vec<u8>,
    public: Vec<u8>,
}

impl TransportKeypair {
    /// The seed always has the length a transport key needs.
    #[verifier::type_invariant]
    closed spec fn seed_has_len(&self) -> bool {
        self.seed@.len() == TRANSPORT_SEED_LEN
    }

    /// The seed the key pair was made from.
    pub closed spec fn seed_view(&self) -> Seq<u8> {
        self.seed@
    }

    /// The public half, as sent to the oracle.
    pub closed spec fn public_view(&self) -> Seq<u8> {
        self.public@
    }

    /// Makes a key pair from a 32-byte seed; other lengths give `None`.
    pub fn from_seed(seed: Vec<u8>) -> (r: Option<TransportKeypair>)
        ensures
            r is Some <==> seed@.len() == TRANSPORT_SEED_LEN,
            r is Some ==> r->0.seed_view() == seed@,
            r is Some ==> r->0.public_view() == transport_public_of(seed@),
            r is Some ==> r->0.public_view().len() == TRANSPORT_PUBLIC_KEY_LEN,
    {
        if seed.len() != TRANSPORT_SEED_LEN {
            return None;
        }
        let public = transport_public_key(&seed);
        Some(TransportKeypair { seed, public })
    }

    /// The serialized public half.
    pub fn public_key(&self) -> (r: Vec<u8>)
        ensures
            r@ == self.public_view(),
    {
        crate::envelope::copy_range(&self.public, 0, self.public.len())
    }

    /// Recovers the derived key for `identity` from the oracle's answer
    /// `encrypted_key`, checking it against the service's `public_key`. Any
    /// answer that does not parse or does not verify fails closed with
    /// `KeyVerificationFailed`.
    pub fn unwrap_derived_key(
        &self,
        encrypted_key: &Vec<u8>,
        public_key: &Vec<u8>,
        identity: &Vec<u8>,
    ) -> (r: Result<Vec<u8>, CryptoError>)
        ensures
            match unwrapped_key(encrypted_key@, self.seed_view(), public_key@, identity@) {
                Some(k) => r is Ok && r->Ok_0@ == k,
                None => r == Err::<Vec<u8>, CryptoError>(CryptoError::KeyVerificationFailed),
            },
            r is Ok ==> r->Ok_0@.len() == DERIVED_KEY_LEN,
            encrypted_key@.len() != ENCRYPTED_KEY_LEN ==> r is Err,
            public_key@.len() != PUBLIC_KEY_LEN ==> r is Err,
    {
        proof {
            use_type_invariant(self);
        }
        match verified_derived_key(encrypted_key, &self.seed, public_key, identity) {
            Some(k) => Ok(k),
            None => Err(CryptoError::KeyVerificationFailed),
        }
    }
}

/// What the fail-open batch gives for one item under `key`: an empty item
/// gives an empty plaintext, an item that does not start with the version
/// byte is legacy plaintext and comes back as it is, a malformed envelope gives
/// `None`, and the body of a current-version envelope is an identity-based
/// ciphertext, decrypted with the key.
pub open spec fn item_plaintext(key: Seq<u8>, item: Seq<u8>) -> Option<Seq<u8>> {
    match decoded(item) {
        Err(_) => None,
        Ok(DecodedModel::Empty) => Some(Seq::<u8>::empty()),
        Ok(DecodedModel::Legacy(b)) => Some(b),
        Ok(DecodedModel::Sealed { nonce, body }) => ibe_opened(key, body),
    }
}

/// The byte view of an optional plaintext.
pub open spec fn opt_view(o: Option<Vec<u8>>) -> Option<Seq<u8>> {
    match o {
        Some(m) => Some(m@),
        None => None,
    }
}

/// Decrypts one item of a fail-open batch.
fn decrypt_item(key: &Vec<u8>, item: &Vec<u8>) -> (r: Option<Vec<u8>>)
    ensures
        opt_view(r) == item_plaintext(key@, item@),
{
    match decode(item) {
        Err(_) => None,
        Ok(Decoded::Empty) => Some(Vec::new()),
        Ok(Decoded::Legacy(b)) => Some(b),
        Ok(Decoded::Sealed { nonce: _, body }) => ibe_decrypt(key, &body),
    }
}

/// Decrypts each of `ciphertexts` with the derived key `derived_key`. Every
/// item goes through the envelope codec first; each item fails on its own,
/// giving `None`, and the others go on. The result has one entry per
/// ciphertext, in order, and each entry depends on its own ciphertext alone.
pub fn decrypt_ciphertexts(derived_key: &Vec<u8>, ciphertexts: &Vec<Vec<u8>>) -> (r: Vec<
    Option<Vec<u8>>,
>)
    ensures
        r@.len() == ciphertexts@.len(),
        forall|j: int|
            0 <= j < r@.len() ==> opt_view(#[trigger] r@[j]) == item_plaintext(
                derived_key@,
                ciphertexts@[j]@,
            ),
{
    let mut out: Vec<Option<Vec<u8>>> = Vec::new();
    let mut i: usize = 0;
    while i < ciphertexts.len()
        invariant
            i <= ciphertexts@.len(),
            out@.len() == i,
            forall|j: int|
                0 <= j < i ==> opt_view(#[trigger] out@[j]) == item_plaintext(
                    derived_key@,
                    ciphertexts@[j]@,
                ),
        decreases ciphertexts@.len() - i,
    {
        let item = decrypt_item(derived_key, &ciphertexts[i]);
        out.push(item);
        i = i + 1;
    }
    out
}

} // verus!
