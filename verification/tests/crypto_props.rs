use agies_core::crypto::{CryptoEngine, Envelope, ALG_ID, NONCE_LEN, SALT_LEN};
use agies_core::CoreError;

fn engine() -> CryptoEngine {
    let password: Vec<u8> = b"CorrectHorse1!".to_vec();
    let salt: Vec<u8> = vec![7u8; SALT_LEN];
    CryptoEngine::initialize(&password, &salt).unwrap()
}

#[test]
fn round_trip_restores_plaintext() {
    let mut eng = engine();
    let plaintext: Vec<u8> = b"attack at dawn".to_vec();
    let env = eng.encrypt(&plaintext).unwrap();
    let out = eng.decrypt(&env).unwrap();
    assert_eq!(out, plaintext);
}

#[test]
fn round_trip_empty_plaintext() {
    let mut eng = engine();
    let plaintext: Vec<u8> = Vec::new();
    let env = eng.encrypt(&plaintext).unwrap();
    assert_eq!(eng.decrypt(&env).unwrap(), plaintext);
}

fn duplicate_env(env: &Envelope) -> Envelope {
    Envelope {
        alg: env.alg,
        nonce: env.nonce.clone(),
        ct: env.ct.clone(),
        tag: env.tag,
    }
}

#[test]
fn tamper_any_ciphertext_bit_fails() {
    let mut eng = engine();
    let plaintext: Vec<u8> = b"secret".to_vec();
    let env = eng.encrypt(&plaintext).unwrap();
    for i in 0..env.ct.len() {
        for b in 0..8u8 {
            let mut bad = duplicate_env(&env);
            bad.ct[i] ^= 1u8 << b;
            assert!(matches!(eng.decrypt(&bad), Err(CoreError::AuthenticationFailure)));
        }
    }
}

#[test]
fn tamper_any_nonce_bit_fails() {
    let mut eng = engine();
    let env = eng.encrypt(&b"secret".to_vec()).unwrap();
    assert_eq!(env.nonce.len(), NONCE_LEN);
    for i in 0..env.nonce.len() {
        for b in 0..8u8 {
            let mut bad = duplicate_env(&env);
            bad.nonce[i] ^= 1u8 << b;
            assert!(matches!(eng.decrypt(&bad), Err(CoreError::AuthenticationFailure)));
        }
    }
}

#[test]
fn tamper_any_tag_bit_fails() {
    let mut eng = engine();
    let env = eng.encrypt(&b"secret".to_vec()).unwrap();
    for b in 0..64u64 {
        let mut bad = duplicate_env(&env);
        bad.tag ^= 1u64 << b;
        assert!(matches!(eng.decrypt(&bad), Err(CoreError::AuthenticationFailure)));
    }
}

#[test]
fn tamper_any_alg_bit_fails() {
    let mut eng = engine();
    let env = eng.encrypt(&b"secret".to_vec()).unwrap();
    assert_eq!(env.alg, ALG_ID);
    for b in 0..8u8 {
        let mut bad = duplicate_env(&env);
        bad.alg ^= 1u8 << b;
        assert!(matches!(eng.decrypt(&bad), Err(CoreError::AuthenticationFailure)));
    }
}

#[test]
fn truncated_nonce_fails_closed() {
    let mut eng = engine();
    let env = eng.encrypt(&b"secret".to_vec()).unwrap();
    let mut bad = duplicate_env(&env);
    bad.nonce.pop();
    assert!(matches!(eng.decrypt(&bad), Err(CoreError::AuthenticationFailure)));
}

#[test]
fn nonces_never_repeat_under_one_key() {
    let mut eng = engine();
    let mut nonces: Vec<Vec<u8>> = Vec::new();
    for _ in 0..64 {
        let env = eng.encrypt(&b"x".to_vec()).unwrap();
        nonces.push(env.nonce);
    }
    for i in 0..nonces.len() {
        for j in (i + 1)..nonces.len() {
            assert_ne!(nonces[i], nonces[j]);
        }
    }
}

#[test]
fn malformed_salt_length_is_rejected() {
    let password: Vec<u8> = b"pw".to_vec();
    let short: Vec<u8> = vec![1u8; SALT_LEN - 1];
    assert!(matches!(
        CryptoEngine::initialize(&password, &short),
        Err(CoreError::KeyDerivationError)
    ));
    let long: Vec<u8> = vec![1u8; SALT_LEN + 1];
    assert!(matches!(
        CryptoEngine::initialize(&password, &long),
        Err(CoreError::KeyDerivationError)
    ));
}

#[test]
fn decrypt_under_wrong_key_fails() {
    let mut eng = engine();
    let env = eng.encrypt(&b"secret".to_vec()).unwrap();
    let password: Vec<u8> = b"OtherPassword9?".to_vec();
    let salt: Vec<u8> = vec![7u8; SALT_LEN];
    let other = CryptoEngine::initialize(&password, &salt).unwrap();
    assert!(other.decrypt(&env).is_err());
}

#[test]
fn key_derivation_is_deterministic_and_salt_sensitive() {
    let password: Vec<u8> = b"CorrectHorse1!".to_vec();
    let salt_a: Vec<u8> = vec![7u8; SALT_LEN];
    let salt_b: Vec<u8> = vec![8u8; SALT_LEN];
    let e1 = CryptoEngine::initialize(&password, &salt_a).unwrap();
    let e2 = CryptoEngine::initialize(&password, &salt_a).unwrap();
    let e3 = CryptoEngine::initialize(&password, &salt_b).unwrap();
    assert_eq!(e1.key, e2.key);
    assert_ne!(e1.key, e3.key);
}

#[test]
fn rotate_preserves_plaintext_under_new_key() {
    let mut old_eng = engine();
    let env = old_eng.encrypt(&b"keep me".to_vec()).unwrap();
    let password: Vec<u8> = b"NewMaster5$".to_vec();
    let salt: Vec<u8> = vec![9u8; SALT_LEN];
    let mut new_eng = CryptoEngine::initialize(&password, &salt).unwrap();
    let env2 = new_eng.rotate(&old_eng.key, &env).unwrap();
    assert_eq!(new_eng.decrypt(&env2).unwrap(), b"keep me".to_vec());
    assert!(old_eng.decrypt(&env2).is_err() || env2.tag != env.tag);
}
