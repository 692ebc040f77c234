//! The self-contained mode: key material derived from the service's own stable
//! identity, envelope encryption of single blocks and fail-fast decryption of
//! batches of blocks.
use vstd::prelude::*;
use crate::cipher::{gcm_sealed, open, opened, seal, sealed, MAX_PLAINTEXT_LEN};
use crate::envelope::{
    copy_range, decode, decoded, encode, encoded, lemma_decode_encoded, Decoded, DecodedModel,
    MIN_SEALED_LEN, NONCE_LEN, TAG_LEN, VERSION,
};
use crate::error::CryptoError;
use crate::kdf::{
    derive_key_nonce, derive_master_secret, derive_public_key, derived_key, derived_nonce,
    master_secret_of, public_key_of, KEY_LEN, MASTER_SECRET_LEN,
};

verus! {

/// Key material of the self-contained mode: a master secret and the public key
/// published for it, both derived from the service's stable identity.
pub struct FallbackKeys {
    master_secret: Vec<u8>,
    public_key: Vec<u8>,
}

/// The model of `FallbackKeys`.
pub struct FallbackKeysModel {
    pub master_secret: Seq<u8>,
    pub public_key: Seq<u8>,
}

impl View for FallbackKeys {
    type V = FallbackKeysModel;

    closed spec fn view(&self) -> FallbackKeysModel {
        FallbackKeysModel { master_secret: self.master_secret@, public_key: self.public_key@ }
    }
}

/// The key material derived from the stable identity `seed`.
pub open spec fn keys_of(seed: Seq<u8>) -> FallbackKeysModel {
    FallbackKeysModel {
        master_secret: master_secret_of(seed),
        public_key: public_key_of(master_secret_of(seed)),
    }
}

/// What encrypting `plaintext` for `identity` under `master` gives: the
/// envelope of the AEAD ciphertext under the key and nonce derived for the
/// identity.
pub open spec fn encrypted_block(master: Seq<u8>, identity: Seq<u8>, plaintext: Seq<u8>) -> Result<
    Seq<u8>,
    CryptoError,
> {
    let nonce = derived_nonce(master, identity);
    match sealed(derived_key(master, identity), nonce, plaintext) {
        Ok(c) => Ok(encoded(nonce, c)),
        Err(e) => Err(e),
    }
}

/// `env` is the envelope that encrypting `plaintext` for `identity` under
/// `master` produces.
pub open spec fn is_envelope_of(
    master: Seq<u8>,
    identity: Seq<u8>,
    env: Seq<u8>,
    plaintext: Seq<u8>,
) -> bool {
    sealed_under(derived_key(master, identity), derived_nonce(master, identity), env, plaintext)
}

/// `block` is an envelope of `plaintext` under `key`, with nonce `nonce`.
pub open spec fn sealed_under(key: Seq<u8>, nonce: Seq<u8>, block: Seq<u8>, plaintext: Seq<u8>) -> bool {
    &&& nonce.len() == NONCE_LEN
    &&& plaintext.len() <= MAX_PLAINTEXT_LEN
    &&& gcm_sealed(key, nonce, plaintext).len() == plaintext.len() + TAG_LEN
    &&& block == encoded(nonce, gcm_sealed(key, nonce, plaintext))
}

/// What decrypting one block under `key` gives: nothing for an empty block,
/// the block itself for legacy plaintext, else the authenticated plaintext.
pub open spec fn block_plaintext(key: Seq<u8>, block: Seq<u8>) -> Result<Seq<u8>, CryptoError> {
    match decoded(block) {
        Err(e) => Err(e),
        Ok(DecodedModel::Empty) => Ok(Seq::<u8>::empty()),
        Ok(DecodedModel::Legacy(b)) => Ok(b),
        Ok(DecodedModel::Sealed { nonce, body }) => opened(key, nonce, body),
    }
}

/// What decrypting `blocks` in order under `key` gives; the first failure
/// wins and nothing after it is looked at.
pub open spec fn blocks_plaintext(key: Seq<u8>, blocks: Seq<Seq<u8>>) -> Result<
    Seq<Seq<u8>>,
    CryptoError,
>
    decreases blocks.len(),
{
    if blocks.len() == 0 {
        Ok(Seq::<Seq<u8>>::empty())
    } else {
        match blocks_plaintext(key, blocks.drop_last()) {
            Err(e) => Err(e),
            Ok(prev) => match block_plaintext(key, blocks.last()) {
                Err(e) => Err(e),
                Ok(p) => Ok(prev.push(p)),
            },
        }
    }
}

/// What `decrypt_blocks` gives for `blocks` under `identity`.
pub open spec fn decrypted_blocks(master: Seq<u8>, identity: Seq<u8>, blocks: Seq<Seq<u8>>) -> Result<
    Seq<Seq<u8>>,
    CryptoError,
> {
    blocks_plaintext(derived_key(master, identity), blocks)
}

/// The byte sequences held by a vector of vectors.
pub open spec fn byte_seqs(v: Seq<Vec<u8>>) -> Seq<Seq<u8>> {
    Seq::new(v.len(), |j: int| v[j]@)
}

/// Decrypts one block under `key`.
fn decrypt_block(key: &Vec<u8>, block: &Vec<u8>) -> (r: Result<Vec<u8>, CryptoError>)
    requires
        key@.len() == KEY_LEN,
    ensures
        match r {
            Ok(p) => block_plaintext(key@, block@) == Ok::<Seq<u8>, CryptoError>(p@),
            Err(e) => block_plaintext(key@, block@) == Err::<Seq<u8>, CryptoError>(e),
        },
        forall|nonce: Seq<u8>, p: Seq<u8>|
            sealed_under(key@, nonce, block@, p) ==> #[trigger] gcm_sealed(key@, nonce, p).len() > 0
                && r is Ok && r->Ok_0@ == p,
{
    let r = match decode(block) {
        Err(e) => Err(e),
        Ok(Decoded::Empty) => Ok(Vec::new()),
        Ok(Decoded::Legacy(b)) => Ok(b),
        Ok(Decoded::Sealed { nonce, body }) => open(key, &nonce, &body),
    };
    proof {
        assert forall|nonce: Seq<u8>, p: Seq<u8>|
            sealed_under(key@, nonce, block@, p) implies #[trigger] gcm_sealed(key@, nonce, p).len()
            > 0 && r is Ok && r->Ok_0@ == p by {
            lemma_decode_encoded(nonce, gcm_sealed(key@, nonce, p));
        }
    }
    r
}

impl FallbackKeys {
    /// The master secret has its fixed length.
    pub open spec fn well_formed(&self) -> bool {
        self@.master_secret.len() == MASTER_SECRET_LEN
    }

    /// Derives the key material from the service's stable identity `seed`.
    /// No outside service is asked, so this can run at start-up and after
    /// every restart.
    pub fn from_seed(seed: &Vec<u8>) -> (r: FallbackKeys)
        ensures
            r@ == keys_of(seed@),
            r.well_formed(),
    {
        let master_secret = derive_master_secret(seed);
        let public_key = derive_public_key(&master_secret);
        FallbackKeys { master_secret, public_key }
    }

    /// Run on every resume of the process: derives the key material again from
    /// the stable identity `seed`, with no outside call. Material that came
    /// from the same seed before the restart is left exactly as it was, so
    /// every envelope it issued decrypts after the restart as before.
    pub fn reestablish_after_restart(&mut self, seed: &Vec<u8>)
        ensures
            final(self)@ == keys_of(seed@),
            final(self).well_formed(),
            old(self)@ == keys_of(seed@) ==> final(self)@ == old(self)@,
    {
        *self = FallbackKeys::from_seed(seed);
    }

    /// The public key published for the master secret.
    pub fn public_key(&self) -> (r: Vec<u8>)
        ensures
            r@ == self@.public_key,
    {
        copy_range(&self.public_key, 0, self.public_key.len())
    }

    /// Encrypts `plaintext` for `identity`. Key and nonce both come from the
    /// identity: two calls with the same arguments give the same envelope, so
    /// two different plaintexts must never be encrypted for one identity.
    pub fn encrypt_block(&self, identity: &Vec<u8>, plaintext: &Vec<u8>) -> (r: Result<
        Vec<u8>,
        CryptoError,
    >)
        requires
            self.well_formed(),
            plaintext@.len() + MIN_SEALED_LEN <= usize::MAX,
        ensures
            match r {
                Ok(env) => encrypted_block(self@.master_secret, identity@, plaintext@) == Ok::<
                    Seq<u8>,
                    CryptoError,
                >(env@),
                Err(e) => encrypted_block(self@.master_secret, identity@, plaintext@) == Err::<
                    Seq<u8>,
                    CryptoError,
                >(e),
            },
            r is Ok ==> is_envelope_of(self@.master_secret, identity@, r->Ok_0@, plaintext@),
            r is Ok ==> r->Ok_0@.len() == plaintext@.len() + MIN_SEALED_LEN,
            r is Err <==> plaintext@.len() > MAX_PLAINTEXT_LEN,
    {
        let (key, nonce) = derive_key_nonce(&self.master_secret, identity);
        match seal(&key, &nonce, plaintext) {
            Ok(c) => Ok(encode(&nonce, &c)),
            Err(e) => Err(e),
        }
    }

    /// Decrypts `blocks`, all encrypted for `identity`, in order. The key is
    /// derived once. An empty block gives an empty plaintext, a block that does
    /// not start with the version byte is handed back as it is, and the first
    /// block that is malformed or does not authenticate ends the call with its
    /// error.
    pub fn decrypt_blocks(&self, identity: &Vec<u8>, blocks: &Vec<Vec<u8>>) -> (r: Result<
        Vec<Vec<u8>>,
        CryptoError,
    >)
        requires
            self.well_formed(),
        ensures
            match r {
                Ok(ps) => decrypted_blocks(self@.master_secret, identity@, byte_seqs(blocks@))
                    == Ok::<Seq<Seq<u8>>, CryptoError>(byte_seqs(ps@)),
                Err(e) => decrypted_blocks(self@.master_secret, identity@, byte_seqs(blocks@))
                    == Err::<Seq<Seq<u8>>, CryptoError>(e),
            },
            forall|p: Seq<u8>|
                blocks@.len() == 1 && #[trigger] is_envelope_of(
                    self@.master_secret,
                    identity@,
                    blocks@[0]@,
                    p,
                ) ==> r is Ok && r->Ok_0@.len() == 1 && r->Ok_0@[0]@ == p,
    {
        let (key, nonce) = derive_key_nonce(&self.master_secret, identity);
        let ghost k = key@;
        let ghost n0 = derived_nonce(self@.master_secret, identity@);
        let mut out: Vec<Vec<u8>> = Vec::new();
        let mut i: usize = 0;
        proof {
            assert(byte_seqs(blocks@).take(0) =~= Seq::<Seq<u8>>::empty());
            assert(byte_seqs(out@) =~= Seq::<Seq<u8>>::empty());
        }
        while i < blocks.len()
            invariant
                i <= blocks@.len(),
                k == key@,
                k == derived_key(self@.master_secret, identity@),
                key@.len() == KEY_LEN,
                blocks_plaintext(k, byte_seqs(blocks@).take(i as int)) == Ok::<
                    Seq<Seq<u8>>,
                    CryptoError,
                >(byte_seqs(out@)),
                out@.len() == i,
                n0 == derived_nonce(self@.master_secret, identity@),
                n0.len() == NONCE_LEN,
                forall|p: Seq<u8>|
                    0 < i && #[trigger] sealed_under(k, n0, blocks@[0]@, p) ==> out@[0]@ == p,
            decreases blocks@.len() - i,
        {
            let ghost prefix = byte_seqs(blocks@).take(i as int);
            let ghost next = byte_seqs(blocks@).take(i + 1);
            proof {
                assert(next.drop_last() =~= prefix);
                assert(next.last() == blocks@[i as int]@);
            }
            match decrypt_block(&key, &blocks[i]) {
                Ok(p) => {
                    let ghost old_out = out@;
                    out.push(p);
                    proof {
                        assert(byte_seqs(out@) =~= byte_seqs(old_out).push(p@));
                        assert(forall|j: int| 0 <= j < i ==> out@[j] == old_out[j]);
                        assert forall|q: Seq<u8>|
                            0 < i + 1 && #[trigger] sealed_under(k, n0, blocks@[0]@, q)
                                implies out@[0]@ == q by {
                            if i == 0 {
                                assert(gcm_sealed(k, n0, q).len() > 0);
                            }
                        }
                    }
                },
                Err(e) => {
                    proof {
                        lemma_error_persists(k, byte_seqs(blocks@), i as int + 1);
                        assert(byte_seqs(blocks@).take(blocks@.len() as int) =~= byte_seqs(
                            blocks@,
                        ));
                        assert forall|p: Seq<u8>|
                            blocks@.len() == 1 && #[trigger] is_envelope_of(
                                self@.master_secret,
                                identity@,
                                blocks@[0]@,
                                p,
                            ) implies false by {
                            assert(sealed_under(k, n0, blocks@[0]@, p));
                            assert(gcm_sealed(k, n0, p).len() > 0);
                        }
                    }
                    return Err(e);
                },
            }
            i = i + 1;
        }
        proof {
            assert(byte_seqs(blocks@).take(blocks@.len() as int) =~= byte_seqs(blocks@));
            assert forall|p: Seq<u8>|
                blocks@.len() == 1 && #[trigger] is_envelope_of(
                    self@.master_secret,
                    identity@,
                    blocks@[0]@,
                    p,
                ) implies out@.len() == 1 && out@[0]@ == p by {
                assert(sealed_under(k, n0, blocks@[0]@, p));
            }
        }
        Ok(out)
    }
}

/// Once a prefix of the blocks fails, every longer prefix fails the same way.
proof fn lemma_error_persists(key: Seq<u8>, blocks: Seq<Seq<u8>>, n: int)
    requires
        0 < n <= blocks.len(),
        blocks_plaintext(key, blocks.take(n)) is Err,
    ensures
        blocks_plaintext(key, blocks) == blocks_plaintext(key, blocks.take(n)),
    decreases blocks.len() - n,
{
    if n < blocks.len() {
        assert(blocks.take(n + 1).drop_last() =~= blocks.take(n));
        lemma_error_persists(key, blocks, n + 1);
    } else {
        assert(blocks.take(n) =~= blocks);
    }
}

/// A block that does not start with the version byte is legacy plaintext: it
/// decrypts to itself, under any identity.
pub proof fn lemma_legacy_passthrough(master: Seq<u8>, identity: Seq<u8>, block: Seq<u8>)
    requires
        block.len() > 0,
        block[0] != VERSION,
    ensures
        decrypted_blocks(master, identity, seq![block]) == Ok::<Seq<Seq<u8>>, CryptoError>(
            seq![block],
        ),
{
    reveal_with_fuel(blocks_plaintext, 2);
    assert(seq![block].drop_last() =~= Seq::<Seq<u8>>::empty());
    assert(seq![block].last() == block);
    assert(Seq::<Seq<u8>>::empty().push(block) =~= seq![block]);
}

/// An empty block decrypts to an empty plaintext, under any identity.
pub proof fn lemma_empty_block(master: Seq<u8>, identity: Seq<u8>)
    ensures
        decrypted_blocks(master, identity, seq![Seq::<u8>::empty()]) == Ok::<
            Seq<Seq<u8>>,
            CryptoError,
        >(seq![Seq::<u8>::empty()]),
{
    reveal_with_fuel(blocks_plaintext, 2);
    assert(seq![Seq::<u8>::empty()].drop_last() =~= Seq::<Seq<u8>>::empty());
    assert(seq![Seq::<u8>::empty()].last() == Seq::<u8>::empty());
    assert(Seq::<Seq<u8>>::empty().push(Seq::<u8>::empty()) =~= seq![Seq::<u8>::empty()]);
}

/// A version-tagged block too short to hold a nonce and a tag makes the batch
/// fail with `Malformed`.
pub proof fn lemma_short_block_is_malformed(master: Seq<u8>, identity: Seq<u8>, block: Seq<u8>)
    requires
        block.len() > 0,
        block[0] == VERSION,
        block.len() < 1 + NONCE_LEN + TAG_LEN,
    ensures
        decrypted_blocks(master, identity, seq![block]) == Err::<Seq<Seq<u8>>, CryptoError>(
            CryptoError::Malformed,
        ),
{
    reveal_with_fuel(blocks_plaintext, 2);
    assert(seq![block].drop_last() =~= Seq::<Seq<u8>>::empty());
    assert(seq![block].last() == block);
}

/// Fail-fast: when a block of the batch fails, the batch fails with the error
/// of the first failing block, whatever follows it.
pub proof fn lemma_first_error_wins(key: Seq<u8>, blocks: Seq<Seq<u8>>, n: int)
    requires
        0 <= n < blocks.len(),
        blocks_plaintext(key, blocks.take(n)) is Ok,
        block_plaintext(key, blocks[n]) is Err,
    ensures
        blocks_plaintext(key, blocks) == Err::<Seq<Seq<u8>>, CryptoError>(
            block_plaintext(key, blocks[n])->Err_0,
        ),
{
    assert(blocks.take(n + 1).drop_last() =~= blocks.take(n));
    lemma_error_persists(key, blocks, n + 1);
}

/// Every envelope made for `identity` under `master` carries the same nonce,
/// the one derived for the identity: encryption is deterministic, and two
/// different plaintexts encrypted for one identity would share key and nonce.
pub proof fn lemma_envelope_nonce_is_derived(
    master: Seq<u8>,
    identity: Seq<u8>,
    plaintext: Seq<u8>,
    env: Seq<u8>,
)
    requires
        derived_nonce(master, identity).len() == NONCE_LEN,
        encrypted_block(master, identity, plaintext) == Ok::<Seq<u8>, CryptoError>(env),
    ensures
        env.subrange(1, 1 + NONCE_LEN as int) == derived_nonce(master, identity),
{
    let n = derived_nonce(master, identity);
    let c = gcm_sealed(derived_key(master, identity), n, plaintext);
    assert(env == encoded(n, c));
    assert(env.subrange(1, 1 + NONCE_LEN as int) =~= n);
}

} // verus!
