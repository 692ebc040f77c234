//! Deterministic key schedule: HKDF-SHA256 expansion of input key material
//! and an identity into a symmetric key and a nonce.
use vstd::prelude::*;
use crate::envelope::NONCE_LEN;

verus! {

/// Length in bytes of a symmetric key.
pub const KEY_LEN: usize = 32;

/// Length in bytes of the master secret of the self-contained mode.
pub const MASTER_SECRET_LEN: usize = 32;

/// Domain label of the key and nonce derived for one identity.
pub const ENVELOPE_DOMAIN: &'static str = "basic_timelock_ibe_example_dapp-envelope-key";

/// Domain label of the master secret derived from the service's own identity.
pub const MASTER_DOMAIN: &'static str = "basic_timelock_ibe_example_dapp-master-secret";

/// Domain label of the public key derived from the master secret.
pub const PUBLIC_KEY_DOMAIN: &'static str = "basic_timelock_ibe_example_dapp-public-key";

/// HKDF-SHA256 of `input` (no salt) with `domain` as info, `len` bytes long.
pub uninterp spec fn hkdf_sha256(input: Seq<u8>, domain: Seq<char>, len: nat) -> Seq<u8>;

/// Relies on ic_vetkeys::derive_symmetric_key: HKDF-SHA256 with no salt,
/// `input` as key material and `domain_sep` as info, giving exactly `len`
/// bytes. HKDF cannot give more than 255 blocks of 32 bytes: it panics there.
#[verifier::external_body]
fn derive_symmetric_key(input: &Vec<u8>, domain_sep: &str, len: usize) -> (r: Vec<u8>)
    requires
        len <= 255 * 32,
    ensures
        r@ == hkdf_sha256(input@, domain_sep@, len as nat),
        r@.len() == len,
{
    ic_vetkeys::derive_symmetric_key(input.as_slice(), domain_sep, len)
}

/// The last `count` bytes of `n`, most significant first.
pub open spec fn be_bytes(n: nat, count: nat) -> Seq<u8>
    decreases count,
{
    if count == 0 {
        Seq::<u8>::empty()
    } else {
        be_bytes(n / 256, (count - 1) as nat).push((n % 256) as u8)
    }
}

/// The key material that is expanded for `identity`: the length of the input
/// key material as 8 big-endian bytes, the input key material, then the
/// identity. The length prefix keeps apart pairs whose concatenations agree.
pub open spec fn schedule_input(ikm: Seq<u8>, identity: Seq<u8>) -> Seq<u8> {
    be_bytes(ikm.len(), 8) + ikm + identity
}

/// The last `count` bytes of `n`, most significant first.
fn be_bytes_of(n: u64, count: usize) -> (r: Vec<u8>)
    requires
        count <= 8,
    ensures
        r@ == be_bytes(n as nat, count as nat),
    decreases count,
{
    if count == 0 {
        Vec::new()
    } else {
        let mut r = be_bytes_of(n / 256, count - 1);
        r.push((n % 256) as u8);
        r
    }
}

/// The key schedule of `identity` under `ikm`: key, then nonce.
pub open spec fn key_schedule(ikm: Seq<u8>, identity: Seq<u8>) -> Seq<u8> {
    hkdf_sha256(
        schedule_input(ikm, identity),
        ENVELOPE_DOMAIN@,
        (KEY_LEN + NONCE_LEN) as nat,
    )
}

/// The symmetric key derived for `identity`.
pub open spec fn derived_key(ikm: Seq<u8>, identity: Seq<u8>) -> Seq<u8> {
    key_schedule(ikm, identity).subrange(0, KEY_LEN as int)
}

/// The nonce derived for `identity`.
pub open spec fn derived_nonce(ikm: Seq<u8>, identity: Seq<u8>) -> Seq<u8> {
    key_schedule(ikm, identity).subrange(KEY_LEN as int, (KEY_LEN + NONCE_LEN) as int)
}

/// The master secret derived from the service's stable identity `seed`.
pub open spec fn master_secret_of(seed: Seq<u8>) -> Seq<u8> {
    hkdf_sha256(seed, MASTER_DOMAIN@, MASTER_SECRET_LEN as nat)
}

/// The public key published for the master secret `master`.
pub open spec fn public_key_of(master: Seq<u8>) -> Seq<u8> {
    hkdf_sha256(master, PUBLIC_KEY_DOMAIN@, KEY_LEN as nat)
}

/// Copies `src[from..to]` after what `dst` already holds.
fn append_range(dst: &mut Vec<u8>, src: &Vec<u8>, from: usize, to: usize)
    requires
        from <= to <= src@.len(),
    ensures
        final(dst)@ == old(dst)@ + src@.subrange(from as int, to as int),
{
    let mut i: usize = from;
    while i < to
        invariant
            from <= i <= to <= src@.len(),
            dst@ == old(dst)@ + src@.subrange(from as int, i as int),
        decreases to - i,
    {
        dst.push(src[i]);
        i = i + 1;
    }
}

/// Derives the symmetric key and the nonce for `identity` from the input key
/// material `ikm`. The same inputs always give the same pair.
pub fn derive_key_nonce(ikm: &Vec<u8>, identity: &Vec<u8>) -> (r: (Vec<u8>, Vec<u8>))
    ensures
        r.0@ == derived_key(ikm@, identity@),
        r.1@ == derived_nonce(ikm@, identity@),
        r.0@.len() == KEY_LEN,
        r.1@.len() == NONCE_LEN,
{
    let mut input: Vec<u8> = be_bytes_of(ikm.len() as u64, 8);
    append_range(&mut input, ikm, 0, ikm.len());
    append_range(&mut input, identity, 0, identity.len());
    proof {
        assert(ikm@.subrange(0, ikm@.len() as int) =~= ikm@);
        assert(identity@.subrange(0, identity@.len() as int) =~= identity@);
    }
    let okm = derive_symmetric_key(&input, ENVELOPE_DOMAIN, KEY_LEN + NONCE_LEN);
    let mut key: Vec<u8> = Vec::new();
    append_range(&mut key, &okm, 0, KEY_LEN);
    let mut nonce: Vec<u8> = Vec::new();
    append_range(&mut nonce, &okm, KEY_LEN, KEY_LEN + NONCE_LEN);
    proof {
        assert(key@ =~= derived_key(ikm@, identity@));
        assert(nonce@ =~= derived_nonce(ikm@, identity@));
    }
    (key, nonce)
}

/// Derives the master secret from the service's stable identity `seed`.
pub fn derive_master_secret(seed: &Vec<u8>) -> (r: Vec<u8>)
    ensures
        r@ == master_secret_of(seed@),
        r@.len() == MASTER_SECRET_LEN,
{
    derive_symmetric_key(seed, MASTER_DOMAIN, MASTER_SECRET_LEN)
}

/// Derives the public key published for the master secret `master`.
pub fn derive_public_key(master: &Vec<u8>) -> (r: Vec<u8>)
    ensures
        r@ == public_key_of(master@),
        r@.len() == KEY_LEN,
{
    derive_symmetric_key(master, PUBLIC_KEY_DOMAIN, KEY_LEN)
}

} // verus!
