use deconet::encoding::{decode_base64, encode_base64, pad_message};
use deconet::hashing::{constant_time_eq, hash_message};
use deconet::keygen::{generate_hex_key, generate_key, to_hex};
use deconet::errors::CryptoError;

#[test]
fn sha256_known_vectors() {
    let empty = hash_message(b"");
    assert_eq!(
        to_hex(&empty),
        "E3B0C44298FC1C149AFBF4C8996FB92427AE41E4649B934CA495991B7852B855"
    );
    let abc = hash_message(b"abc");
    assert_eq!(
        to_hex(&abc),
        "BA7816BF8F01CFEA414140DE5DAE2223B00361A396177A9CB410FF61F20015AD"
    );
}

#[test]
fn hex_rendering() {
    assert_eq!(to_hex(&[]), "");
    assert_eq!(to_hex(&[0x00, 0xFF, 0x1A]), "00FF1A");
}

#[test]
fn hex_keys_have_twice_the_digits() {
    let hex = generate_hex_key(16).unwrap();
    assert_eq!(hex.len(), 32);
    assert!(hex.chars().all(|c| c.is_ascii_hexdigit()));
    assert_eq!(
        generate_hex_key(15).unwrap_err(),
        CryptoError::InvalidKeyLength
    );
}

#[test]
fn chacha_keys_are_fresh() {
    let k1 = generate_key(32).unwrap();
    let k2 = generate_key(32).unwrap();
    assert_eq!(k1.len(), 32);
    assert_ne!(k1, k2);
    assert_eq!(generate_key(9).unwrap_err(), CryptoError::InvalidKeyLength);
}

#[test]
fn base64_round_trip_and_vector() {
    assert_eq!(encode_base64(b"hello"), "aGVsbG8=");
    assert_eq!(encode_base64(b""), "");
    let decoded = decode_base64("aGVsbG8=").unwrap();
    assert_eq!(decoded, b"hello");
    assert!(decode_base64("not base64!!").is_err());
}

#[test]
fn padding_fills_whole_blocks() {
    let padded = pad_message(b"abc");
    assert_eq!(padded.len(), 16);
    assert_eq!(&padded[..3], b"abc");
    assert!(padded[3..].iter().all(|&b| b == 13));

    let exact = pad_message(&[7u8; 16]);
    assert_eq!(exact.len(), 32);
    assert!(exact[16..].iter().all(|&b| b == 16));
}

#[test]
fn constant_time_comparison() {
    assert!(constant_time_eq(b"same", b"same"));
    assert!(!constant_time_eq(b"same", b"diff"));
    assert!(!constant_time_eq(b"same", b"longer"));
    assert!(constant_time_eq(b"", b""));
}

#[test]
fn random_ivs_and_keys_have_fixed_sizes() {
    let key = deconet::rng::generate_aes_key();
    let iv = deconet::rng::generate_iv();
    assert_eq!(key.len(), 32);
    assert_eq!(iv.len(), 16);
    assert_ne!(deconet::rng::generate_iv(), iv);
}
