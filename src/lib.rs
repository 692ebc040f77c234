//! Identity-based encryption service: a versioned envelope format, a
//! deterministic key schedule, an AEAD layer and the key-material bookkeeping
//! around a threshold key-derivation oracle.
use vstd::prelude::*;

pub mod error;
pub mod envelope;
pub mod kdf;
pub mod cipher;
pub mod service;
pub mod keystore;
pub mod oracle;

verus! {

} // verus!
