use deconet::aes_cbc::{decrypt_data, encrypt_data, generate_key};

#[test]
fn test_encrypt_decrypt() {
    let key = generate_key();
    let plaintext = b"Testing encryption and decryption";
    let ciphertext = encrypt_data(plaintext, &key);
    let decrypted = decrypt_data(&ciphertext, &key);
    assert_eq!(decrypted, plaintext);
}

#[test]
fn test_generate_key() {
    let key1 = generate_key();
    let key2 = generate_key();
    assert_ne!(key1, key2);
}

#[test]
fn ciphertext_differs_from_plaintext() {
    let key = generate_key();
    let plaintext = b"sixteen byte msg";
    let ciphertext = encrypt_data(plaintext, &key);
    assert_eq!(ciphertext.len(), 32);
    assert_ne!(&ciphertext[..16], &plaintext[..]);
}

#[test]
fn checked_decrypt_rejects_garbage() {
    let key = generate_key();
    let garbage = vec![0u8; 15];
    assert!(deconet::aes_cbc::decrypt_data_checked(&garbage, &key).is_err());
}

#[test]
fn checked_decrypt_accepts_ciphertext() {
    let key = generate_key();
    let plaintext = b"hello";
    let ciphertext = encrypt_data(plaintext, &key);
    let decrypted = deconet::aes_cbc::decrypt_data_checked(&ciphertext, &key).unwrap();
    assert_eq!(decrypted, plaintext);
}
