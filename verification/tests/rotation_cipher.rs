use deconet::cipher::{decrypt, encrypt};
use deconet::errors::CryptoError;
use deconet::rotation::{rotate_key, GenerationStatus, KeyRotationManager};
use deconet::kdf::DerivationParams;

fn manager_with_initial() -> KeyRotationManager {
    let mut manager = KeyRotationManager::new();
    let params = DerivationParams::default();
    let gid = manager.create_initial("pw-a", &[0u8; 16], &params).unwrap();
    assert_eq!(gid, 1);
    manager
}

#[test]
fn rotation_keeps_old_ciphertext_readable() {
    let mut manager = manager_with_initial();
    let c1 = encrypt(&manager, b"msg").unwrap();
    assert_eq!(c1.generation_id, 1);

    let params = DerivationParams::default();
    let gid = rotate_key(&mut manager, "pw-b", &[0u8; 16], &params).unwrap();
    assert_eq!(gid, 2);
    assert_eq!(
        manager.get_generation(1).unwrap().status,
        GenerationStatus::Retiring
    );
    assert_eq!(
        manager.get_generation(2).unwrap().status,
        GenerationStatus::Active
    );

    assert_eq!(decrypt(&manager, &c1).unwrap(), b"msg");
    let c2 = encrypt(&manager, b"msg2").unwrap();
    assert_eq!(c2.generation_id, 2);
    assert_eq!(decrypt(&manager, &c2).unwrap(), b"msg2");
}

#[test]
fn round_trip_restores_the_plaintext() {
    let manager = manager_with_initial();
    for message in [&b""[..], b"a", b"0123456789abcdef", b"something longer than one block"] {
        let c = encrypt(&manager, message).unwrap();
        assert_eq!(decrypt(&manager, &c).unwrap(), message);
    }
}

#[test]
fn fresh_nonces_for_every_encryption() {
    let manager = manager_with_initial();
    let c1 = encrypt(&manager, b"msg").unwrap();
    let c2 = encrypt(&manager, b"msg").unwrap();
    assert_ne!(c1.nonce, c2.nonce);
    assert_ne!(c1.payload, c2.payload);
}

#[test]
fn tampered_payload_is_rejected() {
    let manager = manager_with_initial();
    let mut c1 = encrypt(&manager, b"msg").unwrap();
    c1.payload[0] ^= 0x01;
    assert_eq!(
        decrypt(&manager, &c1).unwrap_err(),
        CryptoError::AuthenticationTagMismatch
    );
}

#[test]
fn every_payload_bit_flip_is_rejected() {
    let manager = manager_with_initial();
    let c = encrypt(&manager, b"msg").unwrap();
    for i in 0..c.payload.len() {
        for bit in 0..8 {
            let mut tampered = c.clone();
            tampered.payload[i] ^= 1 << bit;
            assert_eq!(
                decrypt(&manager, &tampered).unwrap_err(),
                CryptoError::AuthenticationTagMismatch
            );
        }
    }
}

#[test]
fn tampered_tag_is_rejected() {
    let manager = manager_with_initial();
    let mut c1 = encrypt(&manager, b"msg").unwrap();
    let last = c1.authentication_tag.len() - 1;
    c1.authentication_tag[last] ^= 0x80;
    assert_eq!(
        decrypt(&manager, &c1).unwrap_err(),
        CryptoError::AuthenticationTagMismatch
    );
}

#[test]
fn unknown_generation_fails_closed() {
    let manager = manager_with_initial();
    let mut c1 = encrypt(&manager, b"msg").unwrap();
    c1.generation_id = 9;
    assert_eq!(
        decrypt(&manager, &c1).unwrap_err(),
        CryptoError::UnknownKeyGeneration
    );
}

#[test]
fn revoked_generation_fails_closed() {
    let mut manager = manager_with_initial();
    let c1 = encrypt(&manager, b"msg").unwrap();
    let params = DerivationParams::default();
    rotate_key(&mut manager, "pw-b", &[0u8; 16], &params).unwrap();
    assert_eq!(decrypt(&manager, &c1).unwrap(), b"msg");
    manager.revoke_generation(1).unwrap();
    assert_eq!(
        decrypt(&manager, &c1).unwrap_err(),
        CryptoError::RevokedKeyGeneration
    );
}

#[test]
fn the_active_generation_cannot_be_revoked() {
    let mut manager = manager_with_initial();
    assert_eq!(
        manager.revoke_generation(1).unwrap_err(),
        CryptoError::CannotRevokeActive
    );
    assert_eq!(
        manager.revoke_generation(5).unwrap_err(),
        CryptoError::UnknownKeyGeneration
    );
}

#[test]
fn operations_before_initialization_fail() {
    let mut manager = KeyRotationManager::new();
    assert_eq!(
        encrypt(&manager, b"msg").unwrap_err(),
        CryptoError::NotInitialized
    );
    let params = DerivationParams::default();
    assert_eq!(
        rotate_key(&mut manager, "pw", &[0u8; 16], &params).unwrap_err(),
        CryptoError::NotInitialized
    );
}

#[test]
fn only_one_initial_generation() {
    let mut manager = manager_with_initial();
    let params = DerivationParams::default();
    assert_eq!(
        manager.create_initial("pw-b", &[0u8; 16], &params).unwrap_err(),
        CryptoError::AlreadyInitialized
    );
}

#[test]
fn generations_record_their_derivation() {
    let manager = manager_with_initial();
    let generation = manager.get_generation(1).unwrap();
    assert_eq!(generation.generation_id, 1);
    assert_eq!(generation.params.salt, vec![0u8; 16]);
    assert_eq!(generation.params.output_length, 32);
    assert_eq!(generation.key_bytes.len(), 32);
    assert_eq!(manager.generation_count(), 1);
    assert_eq!(manager.active_generation().unwrap().generation_id, 1);
}

#[test]
fn rotated_keys_are_independent() {
    let mut manager = manager_with_initial();
    let k1 = manager.get_generation(1).unwrap().key_bytes.clone();
    let params = DerivationParams::default();
    rotate_key(&mut manager, "pw-b", &[0u8; 16], &params).unwrap();
    let k1_after = manager.get_generation(1).unwrap().key_bytes.clone();
    let k2 = manager.get_generation(2).unwrap().key_bytes.clone();
    assert_eq!(k1, k1_after);
    assert_ne!(k1, k2);
}
