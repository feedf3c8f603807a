use deconet::errors::CryptoError;
use deconet::kdf::{derive_key_from_password, stretch_key, DerivationParams};

#[test]
fn derivation_is_deterministic() {
    let params = DerivationParams::default();
    let salt = [0u8; 16];
    let k1 = derive_key_from_password("pw1", &salt, &params).unwrap();
    let k2 = derive_key_from_password("pw1", &salt, &params).unwrap();
    assert_eq!(k1.len(), 32);
    assert_eq!(k1, k2);
}

#[test]
fn changing_the_salt_changes_the_key() {
    let params = DerivationParams::default();
    let k1 = derive_key_from_password("pw1", &[0u8; 16], &params).unwrap();
    let k2 = derive_key_from_password("pw1", &[1u8; 16], &params).unwrap();
    assert_ne!(k1, k2);
}

#[test]
fn changing_the_password_changes_the_key() {
    let params = DerivationParams::default();
    let salt = [0u8; 16];
    let k1 = derive_key_from_password("pw1", &salt, &params).unwrap();
    let k2 = derive_key_from_password("pw2", &salt, &params).unwrap();
    assert_ne!(k1, k2);
}

#[test]
fn derived_key_is_not_the_password() {
    let params = DerivationParams::default();
    let key = derive_key_from_password("pw1", &[0u8; 16], &params).unwrap();
    assert_eq!(key.len(), 32);
    assert_ne!(&key[..3], b"pw1");
}

#[test]
fn zero_costs_are_rejected() {
    let salt = [0u8; 16];
    let mut params = DerivationParams::default();
    params.memory_cost = 0;
    assert_eq!(
        derive_key_from_password("pw", &salt, &params).unwrap_err(),
        CryptoError::InvalidKdfParams
    );
    let mut params = DerivationParams::default();
    params.time_cost = 0;
    assert_eq!(
        derive_key_from_password("pw", &salt, &params).unwrap_err(),
        CryptoError::InvalidKdfParams
    );
    let mut params = DerivationParams::default();
    params.parallelism = 0;
    assert_eq!(
        derive_key_from_password("pw", &salt, &params).unwrap_err(),
        CryptoError::InvalidKdfParams
    );
    let mut params = DerivationParams::default();
    params.output_length = 0;
    assert_eq!(
        derive_key_from_password("pw", &salt, &params).unwrap_err(),
        CryptoError::InvalidKdfParams
    );
}

#[test]
fn short_salt_is_rejected() {
    let params = DerivationParams::default();
    assert_eq!(
        derive_key_from_password("pw", &[0u8; 7], &params).unwrap_err(),
        CryptoError::InvalidKdfParams
    );
}

#[test]
fn stretch_reaches_the_exact_length() {
    let key = b"0123456789abcdef";
    for n in [0usize, 1, 15, 16, 17, 31, 32, 33, 64, 100] {
        let stretched = stretch_key(key, n);
        assert_eq!(stretched.len(), n);
    }
}

#[test]
fn stretch_is_deterministic() {
    let key = b"0123456789abcdef";
    assert_eq!(stretch_key(key, 64), stretch_key(key, 64));
}

#[test]
fn stretch_keeps_the_key_as_prefix() {
    let key = b"0123456789abcdef";
    let stretched = stretch_key(key, 40);
    assert_eq!(&stretched[..16], &key[..]);
    assert_eq!(stretch_key(key, 16), key.to_vec());
}

#[test]
fn stretch_appends_real_digest_bytes() {
    let key = b"0123456789abcdef";
    let stretched = stretch_key(key, 48);
    let digest = deconet::hashing::hash_message(key);
    assert_eq!(&stretched[16..48], &digest[..]);
}

#[test]
fn generated_keys_have_the_requested_length() {
    let k = deconet::kdf::generate_key(24).unwrap();
    assert_eq!(k.len(), 24);
    let other = deconet::kdf::generate_key(24).unwrap();
    assert_ne!(k, other);
}
