use crypto_canister::error::CryptoError;
use crypto_canister::keystore::{KeyStore, PublicKeyAction, DOMAIN_SEPARATOR};
use crypto_canister::oracle::{decrypt_ciphertexts, TransportKeypair};

#[test]
fn set_handle_only_once() {
    let mut s = KeyStore::new();
    assert_eq!(s.key_name(), "");
    assert!(s.set_handle("key_1".to_string()));
    assert_eq!(s.key_name(), "key_1");
    assert!(s.set_handle("key_1".to_string()));
    assert!(!s.set_handle("test_key_1".to_string()));
    assert_eq!(s.key_name(), "key_1");
}

#[test]
fn public_key_cache_lifecycle() {
    let mut s = KeyStore::with_handle("key_1".to_string());
    match s.public_key_action() {
        PublicKeyAction::Fetch(req) => {
            assert_eq!(req.context, DOMAIN_SEPARATOR.as_bytes().to_vec());
            assert_eq!(req.key_name, "key_1");
        }
        _ => panic!("the first miss fetches"),
    }
    assert!(s.is_fetch_pending());
    assert!(matches!(s.public_key_action(), PublicKeyAction::Wait));
    assert!(matches!(s.public_key_action(), PublicKeyAction::Wait));
    s.fetch_failed();
    assert!(!s.is_fetch_pending());
    assert!(matches!(s.public_key_action(), PublicKeyAction::Fetch(_)));
    assert!(matches!(s.public_key_action(), PublicKeyAction::Wait));
    assert_eq!(s.store_public_key(vec![1, 2, 3]), vec![1, 2, 3]);
    assert!(!s.is_fetch_pending());
    assert_eq!(s.store_public_key(vec![9, 9]), vec![1, 2, 3]);
    match s.public_key_action() {
        PublicKeyAction::Cached(k) => assert_eq!(k, vec![1, 2, 3]),
        _ => panic!("the key is cached"),
    }
    s.reestablish_after_restart();
    assert_eq!(s.cached_public_key(), None);
    assert!(!s.is_fetch_pending());
    assert!(matches!(s.public_key_action(), PublicKeyAction::Fetch(_)));
    assert_eq!(s.key_name(), "key_1");
}

#[test]
fn derive_key_request_fields() {
    let s = KeyStore::with_handle("dfx_test_key".to_string());
    let req = s.derive_key_request(&b"identity".to_vec(), &vec![5u8; 48]);
    assert_eq!(req.input, b"identity".to_vec());
    assert_eq!(req.context, b"basic_timelock_ibe_example_dapp".to_vec());
    assert_eq!(req.transport_public_key, vec![5u8; 48]);
    assert_eq!(req.key_name, "dfx_test_key");
}

#[test]
fn transport_keypair_from_seed() {
    assert!(TransportKeypair::from_seed(vec![0u8; 31]).is_none());
    let a = TransportKeypair::from_seed(vec![0u8; 32]).unwrap();
    let b = TransportKeypair::from_seed(vec![0u8; 32]).unwrap();
    let c = TransportKeypair::from_seed(vec![1u8; 32]).unwrap();
    assert_eq!(a.public_key().len(), 48);
    assert_eq!(a.public_key(), b.public_key());
    assert_ne!(a.public_key(), c.public_key());
}

#[test]
fn unwrap_rejects_bad_answers() {
    let t = TransportKeypair::from_seed(vec![0u8; 32]).unwrap();
    assert_eq!(
        t.unwrap_derived_key(&vec![0u8; 10], &vec![0u8; 96], &b"id".to_vec()),
        Err(CryptoError::KeyVerificationFailed)
    );
    assert_eq!(
        t.unwrap_derived_key(&vec![0u8; 192], &vec![0u8; 12], &b"id".to_vec()),
        Err(CryptoError::KeyVerificationFailed)
    );
    assert_eq!(
        t.unwrap_derived_key(&vec![0u8; 192], &vec![0u8; 96], &b"id".to_vec()),
        Err(CryptoError::KeyVerificationFailed)
    );
}

#[test]
fn fail_open_keeps_length_with_bad_key() {
    let sealed = {
        let mut v = vec![1u8; 200];
        v[5] = 7;
        v
    };
    let cts = vec![sealed.clone(), vec![1u8, 2, 3], vec![2u8; 150]];
    assert_eq!(
        decrypt_ciphertexts(&vec![0u8; 5], &cts),
        vec![None, None, Some(vec![2u8; 150])]
    );
    assert_eq!(decrypt_ciphertexts(&vec![0u8; 48], &cts).len(), 3);
    assert_eq!(decrypt_ciphertexts(&vec![0u8; 5], &vec![]), Vec::<Option<Vec<u8>>>::new());
}

#[test]
fn fail_open_empty_item() {
    assert_eq!(decrypt_ciphertexts(&vec![], &vec![vec![]]), vec![Some(vec![])]);
}

#[test]
fn fail_open_legacy_item() {
    assert_eq!(
        decrypt_ciphertexts(&vec![], &vec![vec![0x00, 0x68, 0x69]]),
        vec![Some(vec![0x00, 0x68, 0x69])]
    );
    assert_eq!(
        decrypt_ciphertexts(&vec![0u8; 48], &vec![b"hello".to_vec()]),
        vec![Some(b"hello".to_vec())]
    );
}

#[test]
fn fail_open_version_one_envelope() {
    let mut short = vec![0u8; 20];
    short[0] = 1;
    let mut long = vec![0u8; 13 + 140];
    long[0] = 1;
    assert_eq!(
        decrypt_ciphertexts(&vec![0u8; 48], &vec![short, long.clone()]),
        vec![None, None]
    );
    assert_eq!(decrypt_ciphertexts(&vec![], &vec![long]), vec![None]);
}

#[test]
fn fail_open_items_are_independent() {
    let key = vec![0u8; 48];
    let mut bad = vec![0u8; 40];
    bad[0] = 1;
    let legacy = vec![9u8; 140];
    let whole = decrypt_ciphertexts(&key, &vec![legacy.clone(), bad.clone(), vec![], legacy.clone()]);
    assert_eq!(
        whole,
        vec![Some(legacy.clone()), None, Some(vec![]), Some(legacy.clone())]
    );
    assert_eq!(whole[1], decrypt_ciphertexts(&key, &vec![bad])[0]);
}
