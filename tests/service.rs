use crypto_canister::cipher::{open, seal};
use crypto_canister::envelope::{decode, encode, Decoded};
use crypto_canister::error::CryptoError;
use crypto_canister::kdf::{derive_key_nonce, derive_master_secret};
use crypto_canister::service::FallbackKeys;

fn keys() -> FallbackKeys {
    FallbackKeys::from_seed(&vec![7u8; 10])
}

fn hex(s: &str) -> Vec<u8> {
    (0..s.len() / 2)
        .map(|i| u8::from_str_radix(&s[2 * i..2 * i + 2], 16).unwrap())
        .collect()
}

#[test]
fn round_trip_single_block() {
    let k = keys();
    let identity = b"2030-01-01T00:00:00Z".to_vec();
    let plaintext = b"open after the deadline".to_vec();
    let env = k.encrypt_block(&identity, &plaintext).unwrap();
    assert_eq!(k.decrypt_blocks(&identity, &vec![env]), Ok(vec![plaintext]));
}

#[test]
fn round_trip_empty_plaintext() {
    let k = keys();
    let identity = b"id".to_vec();
    let env = k.encrypt_block(&identity, &vec![]).unwrap();
    assert_eq!(env.len(), 29);
    assert_eq!(k.decrypt_blocks(&identity, &vec![env]), Ok(vec![vec![]]));
}

#[test]
fn wrong_identity_fails_decryption() {
    let k = keys();
    let env = k.encrypt_block(&b"alice".to_vec(), &b"secret".to_vec()).unwrap();
    assert_eq!(
        k.decrypt_blocks(&b"bob".to_vec(), &vec![env]),
        Err(CryptoError::DecryptionFailed)
    );
}

#[test]
fn legacy_block_passes_through() {
    let k = keys();
    let block = b"plain old data".to_vec();
    assert_eq!(k.decrypt_blocks(&b"any".to_vec(), &vec![block.clone()]), Ok(vec![block]));
    let zero_first = vec![0u8, 1, 2, 3];
    assert_eq!(
        k.decrypt_blocks(&b"other".to_vec(), &vec![zero_first.clone()]),
        Ok(vec![zero_first])
    );
}

#[test]
fn empty_block_gives_empty_plaintext() {
    let k = keys();
    assert_eq!(k.decrypt_blocks(&b"i".to_vec(), &vec![vec![]]), Ok(vec![vec![]]));
}

#[test]
fn empty_batch_gives_empty_result() {
    let k = keys();
    assert_eq!(k.decrypt_blocks(&b"i".to_vec(), &vec![]), Ok(vec![]));
}

#[test]
fn fail_fast_stops_at_corrupted_block() {
    let k = keys();
    let identity = b"batch".to_vec();
    let first = k.encrypt_block(&identity, &b"one".to_vec()).unwrap();
    let mut second = first.clone();
    let last = second.len() - 1;
    second[last] ^= 0x01;
    let third = b"legacy three".to_vec();
    assert_eq!(
        k.decrypt_blocks(&identity, &vec![first, second, third]),
        Err(CryptoError::DecryptionFailed)
    );
}

#[test]
fn first_error_wins() {
    let k = keys();
    let identity = b"batch".to_vec();
    let good = k.encrypt_block(&identity, &b"one".to_vec()).unwrap();
    let short = vec![1u8, 2, 3];
    let mut bad = good.clone();
    bad[20] ^= 0xff;
    assert_eq!(
        k.decrypt_blocks(&identity, &vec![good, short, bad]),
        Err(CryptoError::Malformed)
    );
}

#[test]
fn mixed_batch_decrypts_in_order() {
    let k = keys();
    let identity = b"batch".to_vec();
    let a = k.encrypt_block(&identity, &b"alpha".to_vec()).unwrap();
    let b = k.encrypt_block(&identity, &b"beta".to_vec()).unwrap();
    let legacy = b"gamma".to_vec();
    assert_eq!(
        k.decrypt_blocks(&identity, &vec![a, vec![], legacy.clone(), b]),
        Ok(vec![b"alpha".to_vec(), vec![], legacy, b"beta".to_vec()])
    );
}

#[test]
fn encryption_is_deterministic() {
    let k = keys();
    let identity = b"same".to_vec();
    let p = b"payload".to_vec();
    let a = k.encrypt_block(&identity, &p).unwrap();
    let b = k.encrypt_block(&identity, &p).unwrap();
    assert_eq!(a, b);
    let other = k.encrypt_block(&b"different".to_vec(), &p).unwrap();
    assert_ne!(a, other);
}

#[test]
fn envelope_layout_of_encrypted_block() {
    let k = keys();
    let identity = b"layout".to_vec();
    let p = b"0123456789".to_vec();
    let env = k.encrypt_block(&identity, &p).unwrap();
    assert_eq!(env.len(), 1 + 12 + p.len() + 16);
    assert_eq!(env[0], 1);
    let master = derive_master_secret(&vec![7u8; 10]);
    let (key, nonce) = derive_key_nonce(&master, &identity);
    assert_eq!(env[1..13].to_vec(), nonce);
    let body = env[13..].to_vec();
    assert_ne!(body[..p.len()].to_vec(), p);
    assert_eq!(open(&key, &nonce, &body), Ok(p));
}

#[test]
fn restart_stability() {
    let seed = b"canister-principal".to_vec();
    let before = FallbackKeys::from_seed(&seed);
    let identity = b"1700000000".to_vec();
    let env = before.encrypt_block(&identity, &b"later".to_vec()).unwrap();
    let mut after = FallbackKeys::from_seed(&b"something else".to_vec());
    after.reestablish_after_restart(&seed);
    assert_eq!(after.public_key(), before.public_key());
    assert_eq!(after.decrypt_blocks(&identity, &vec![env]), Ok(vec![b"later".to_vec()]));
}

#[test]
fn other_seed_cannot_decrypt() {
    let identity = b"t".to_vec();
    let env = FallbackKeys::from_seed(&b"one".to_vec())
        .encrypt_block(&identity, &b"x".to_vec())
        .unwrap();
    assert_eq!(
        FallbackKeys::from_seed(&b"two".to_vec()).decrypt_blocks(&identity, &vec![env]),
        Err(CryptoError::DecryptionFailed)
    );
}

#[test]
fn public_key_is_derived_not_copied() {
    let seed = vec![3u8; 32];
    let k = FallbackKeys::from_seed(&seed);
    let pk = k.public_key();
    assert_eq!(pk.len(), 32);
    assert_ne!(pk, seed);
    let master = derive_master_secret(&seed);
    assert_eq!(master.len(), 32);
    assert_ne!(master, seed);
    assert_ne!(pk, master);
}

#[test]
fn malformed_envelope() {
    let k = keys();
    for len in 1..29usize {
        let mut block = vec![0u8; len];
        block[0] = 1;
        assert_eq!(decode(&block).unwrap_err(), CryptoError::Malformed);
        assert_eq!(
            k.decrypt_blocks(&b"i".to_vec(), &vec![block]),
            Err(CryptoError::Malformed)
        );
    }
    let mut block = vec![0u8; 29];
    block[0] = 1;
    assert_eq!(
        k.decrypt_blocks(&b"i".to_vec(), &vec![block]),
        Err(CryptoError::DecryptionFailed)
    );
}

#[test]
fn envelope_encode_exact_bytes() {
    let nonce: Vec<u8> = (1..=12).collect();
    let env = encode(&nonce, &vec![0xaa, 0xbb]);
    assert_eq!(env, vec![1, 1, 2, 3, 4, 5, 6, 7, 8, 9, 10, 11, 12, 0xaa, 0xbb]);
}

#[test]
fn envelope_decode_variants() {
    assert!(matches!(decode(&vec![]), Ok(Decoded::Empty)));
    match decode(&vec![2, 3]) {
        Ok(Decoded::Legacy(b)) => assert_eq!(b, vec![2, 3]),
        _ => panic!("expected legacy"),
    }
    let nonce = vec![9u8; 12];
    let body = vec![5u8; 16];
    match decode(&encode(&nonce, &body)) {
        Ok(Decoded::Sealed { nonce: n, body: b }) => {
            assert_eq!(n, nonce);
            assert_eq!(b, body);
        }
        _ => panic!("expected sealed"),
    }
}

#[test]
fn aes_gcm_known_answers() {
    let key = vec![0u8; 32];
    let nonce = vec![0u8; 12];
    assert_eq!(seal(&key, &nonce, &vec![]), Ok(hex("530f8afbc74536b9a963b4f1c4cb738b")));
    assert_eq!(
        seal(&key, &nonce, &vec![0u8; 16]),
        Ok(hex("cea7403d4d606b6e074ec5d3baf39d18d0d1c8a799996bf0265b98b5d48ab919"))
    );
    assert_eq!(
        open(&key, &nonce, &hex("cea7403d4d606b6e074ec5d3baf39d18d0d1c8a799996bf0265b98b5d48ab919")),
        Ok(vec![0u8; 16])
    );
}

#[test]
fn aes_gcm_rejects_tampering() {
    let key = vec![1u8; 32];
    let nonce = vec![2u8; 12];
    let mut c = seal(&key, &nonce, &b"message".to_vec()).unwrap();
    assert_eq!(c.len(), 7 + 16);
    c[0] ^= 1;
    assert_eq!(open(&key, &nonce, &c), Err(CryptoError::DecryptionFailed));
    assert_eq!(open(&key, &nonce, &vec![0u8; 5]), Err(CryptoError::DecryptionFailed));
}

#[test]
fn key_schedule_depends_on_identity() {
    let ikm = vec![4u8; 32];
    let (k1, n1) = derive_key_nonce(&ikm, &b"a".to_vec());
    let (k2, n2) = derive_key_nonce(&ikm, &b"b".to_vec());
    let (k3, n3) = derive_key_nonce(&ikm, &b"a".to_vec());
    assert_eq!((k1.len(), n1.len()), (32, 12));
    assert_ne!(k1, k2);
    assert_ne!(n1, n2);
    assert_eq!((k1, n1), (k3, n3));
}

#[test]
fn key_schedule_separates_split_points() {
    let (k1, n1) = derive_key_nonce(&b"ab".to_vec(), &b"c".to_vec());
    let (k2, n2) = derive_key_nonce(&b"a".to_vec(), &b"bc".to_vec());
    assert_ne!(k1, k2);
    assert_ne!(n1, n2);
}
