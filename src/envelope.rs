//! The binary envelope: a version byte, a nonce, then ciphertext and tag.
use vstd::prelude::*;
use crate::error::CryptoError;

verus! {

/// Version byte of the current envelope format.
pub const VERSION: u8 = 1;

/// Length in bytes of the nonce carried by an envelope.
pub const NONCE_LEN: usize = 12;

/// Length in bytes of the authentication tag at the end of the ciphertext.
pub const TAG_LEN: usize = 16;

/// Smallest well-formed current-version envelope: version, nonce and tag.
pub const MIN_SEALED_LEN: usize = 29;

/// An envelope taken apart.
#[derive(Debug)]
pub enum Decoded {
    /// The input was empty; there is nothing to decrypt.
    Empty,
    /// The input does not start with the version byte: unencrypted data,
    /// handed back as it came.
    Legacy(Vec<u8>),
    /// A current-version envelope.
    Sealed { nonce: Vec<u8>, body: Vec<u8> },
}

/// The model of a decoded envelope.
pub enum DecodedModel {
    Empty,
    Legacy(Seq<u8>),
    Sealed { nonce: Seq<u8>, body: Seq<u8> },
}

impl View for Decoded {
    type V = DecodedModel;

    open spec fn view(&self) -> DecodedModel {
        match self {
            Decoded::Empty => DecodedModel::Empty,
            Decoded::Legacy(b) => DecodedModel::Legacy(b@),
            Decoded::Sealed { nonce, body } => DecodedModel::Sealed { nonce: nonce@, body: body@ },
        }
    }
}

/// The bytes of an envelope holding `nonce` and `body`.
pub open spec fn encoded(nonce: Seq<u8>, body: Seq<u8>) -> Seq<u8> {
    seq![VERSION].add(nonce).add(body)
}

/// How `decode` reads `bytes`.
pub open spec fn decoded(bytes: Seq<u8>) -> Result<DecodedModel, CryptoError> {
    if bytes.len() == 0 {
        Ok(DecodedModel::Empty)
    } else if bytes[0] != VERSION {
        Ok(DecodedModel::Legacy(bytes))
    } else if bytes.len() < MIN_SEALED_LEN {
        Err(CryptoError::Malformed)
    } else {
        Ok(DecodedModel::Sealed {
            nonce: bytes.subrange(1, 1 + NONCE_LEN as int),
            body: bytes.subrange(1 + NONCE_LEN as int, bytes.len() as int),
        })
    }
}

/// Copies `src[from..to]` into a new vector.
pub(crate) fn copy_range(src: &Vec<u8>, from: usize, to: usize) -> (r: Vec<u8>)
    requires
        from <= to <= src@.len(),
    ensures
        r@ == src@.subrange(from as int, to as int),
{
    let mut r: Vec<u8> = Vec::with_capacity(to - from);
    let mut i: usize = from;
    while i < to
        invariant
            from <= i <= to <= src@.len(),
            r@ == src@.subrange(from as int, i as int),
        decreases to - i,
    {
        r.push(src[i]);
        i = i + 1;
    }
    r
}

/// Lays out an envelope: the version byte, the nonce, then the body.
pub fn encode(nonce: &Vec<u8>, body: &Vec<u8>) -> (r: Vec<u8>)
    requires
        nonce@.len() == NONCE_LEN,
        1 + NONCE_LEN + body@.len() <= usize::MAX,
    ensures
        r@ == encoded(nonce@, body@),
{
    let mut r: Vec<u8> = Vec::with_capacity(1 + NONCE_LEN + body.len());
    r.push(VERSION);
    let mut i: usize = 0;
    while i < nonce.len()
        invariant
            i <= nonce@.len(),
            r@ == seq![VERSION].add(nonce@.subrange(0, i as int)),
        decreases nonce@.len() - i,
    {
        r.push(nonce[i]);
        i = i + 1;
    }
    assert(nonce@.subrange(0, nonce@.len() as int) =~= nonce@);
    let mut j: usize = 0;
    while j < body.len()
        invariant
            j <= body@.len(),
            r@ == seq![VERSION].add(nonce@).add(body@.subrange(0, j as int)),
        decreases body@.len() - j,
    {
        r.push(body[j]);
        j = j + 1;
    }
    assert(body@.subrange(0, body@.len() as int) =~= body@);
    r
}

/// Takes an envelope apart. Input that does not start with the version byte
/// is legacy plaintext; a version-tagged input too short to hold a nonce and a
/// tag is `Malformed`.
pub fn decode(bytes: &Vec<u8>) -> (r: Result<Decoded, CryptoError>)
    ensures
        match r {
            Ok(d) => decoded(bytes@) == Ok::<DecodedModel, CryptoError>(d@),
            Err(e) => decoded(bytes@) == Err::<DecodedModel, CryptoError>(e),
        },
{
    if bytes.len() == 0 {
        Ok(Decoded::Empty)
    } else if bytes[0] != VERSION {
        let all = copy_range(bytes, 0, bytes.len());
        proof {
            assert(bytes@.subrange(0, bytes@.len() as int) =~= bytes@);
        }
        Ok(Decoded::Legacy(all))
    } else if bytes.len() < MIN_SEALED_LEN {
        Err(CryptoError::Malformed)
    } else {
        let nonce = copy_range(bytes, 1, 1 + NONCE_LEN);
        let body = copy_range(bytes, 1 + NONCE_LEN, bytes.len());
        Ok(Decoded::Sealed { nonce, body })
    }
}

/// Decoding an encoded envelope gives back its nonce and body, provided the
/// body is long enough to hold an authentication tag.
pub proof fn lemma_decode_encoded(nonce: Seq<u8>, body: Seq<u8>)
    requires
        nonce.len() == NONCE_LEN,
        body.len() >= TAG_LEN,
    ensures
        decoded(encoded(nonce, body)) == Ok::<DecodedModel, CryptoError>(
            DecodedModel::Sealed { nonce, body },
        ),
{
    let b = encoded(nonce, body);
    assert(b.subrange(1, 1 + NONCE_LEN as int) =~= nonce);
    assert(b.subrange(1 + NONCE_LEN as int, b.len() as int) =~= body);
}

/// A version-tagged input shorter than version, nonce and tag is rejected as
/// `Malformed`.
pub proof fn lemma_short_envelope_is_malformed(bytes: Seq<u8>)
    requires
        bytes.len() > 0,
        bytes[0] == VERSION,
        bytes.len() < 1 + NONCE_LEN + TAG_LEN,
    ensures
        decoded(bytes) == Err::<DecodedModel, CryptoError>(CryptoError::Malformed),
{
}

} // verus!
