use vstd::prelude::*;

verus! {

/// What can go wrong while encrypting or decrypting.
#[derive(Clone, Copy, Debug, PartialEq, Eq, Structural)]
pub enum CryptoError {
    /// The threshold oracle could not be reached or did not answer.
    OracleUnavailable,
    /// A key handed back by the oracle did not verify.
    KeyVerificationFailed,
    /// A version-tagged envelope is structurally invalid.
    Malformed,
    /// Authentication of a ciphertext failed.
    DecryptionFailed,
    /// The AEAD primitive refused its input.
    EncryptionFailed,
}

} // verus!
