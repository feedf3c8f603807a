//! AES-128 block encryption in CBC mode with PKCS7 padding and a fixed
//! all-zero initialization vector, over randomly generated 128-bit keys.
//!
//! The cipher itself is not written out: contracts name its output, name
//! what its decryption accepts, and state that decryption of a genuine
//! ciphertext returns exactly the encrypted message. Nothing stronger is
//! claimed of other inputs: the padding scheme also accepts some byte
//! strings that no encryption produced.

use vstd::prelude::*;
use crate::errors::CryptoError;

verus! {

/// What AES-128 in CBC mode with PKCS7 padding and an all-zero IV produces
/// for a key and a message. A fixed function of the two arguments alone;
/// contracts speak of it only through this name.
pub uninterp spec fn aes128_cbc_enc(key: Seq<u8>, data: Seq<u8>) -> Seq<u8>;

/// What the matching decryption returns for a key and a byte string: the
/// recovered message, or nothing when the input is rejected. A fixed
/// function of the two arguments alone.
pub uninterp spec fn aes128_cbc_dec(key: Seq<u8>, data: Seq<u8>) -> Option<Seq<u8>>;

/// Relies on block-modes' Cbc<Aes128, Pkcs7>::encrypt_vec with a zero IV:
/// total for a 16-byte key, and the output is the padded input length.
#[verifier::external_body]
fn aes128_encrypt(data: &[u8], key: &[u8]) -> (r: Vec<u8>)
    requires
        key@.len() == 16,
        data@.len() + 16 <= usize::MAX,
    ensures
        r@ == aes128_cbc_enc(key@, data@),
        r@.len() == data@.len() + (16 - data@.len() % 16),
{
    let iv = [0u8; 16];
    let cipher: block_modes::Cbc<aes::Aes128, block_modes::block_padding::Pkcs7> =
        block_modes::BlockMode::new_from_slices(key, &iv).expect("16-byte key and IV");
    block_modes::BlockMode::encrypt_vec(cipher, data)
}

/// Relies on block-modes' Cbc<Aes128, Pkcs7>::decrypt_vec with a zero IV:
/// it inverts encrypt_vec, so everything encrypt_vec produced is accepted
/// and maps back to the one message it encrypts. Other inputs may also be
/// accepted — an unpadded tail can imitate padding — so nothing is claimed
/// of them beyond the name.
#[verifier::external_body]
fn aes128_decrypt(data: &[u8], key: &[u8]) -> (r: Option<Vec<u8>>)
    requires
        key@.len() == 16,
    ensures
        r matches Some(v) ==> aes128_cbc_dec(key@, data@) == Some(v@),
        r is None ==> aes128_cbc_dec(key@, data@) is None,
        r matches Some(v) ==> forall|p: Seq<u8>|
            data@ == #[trigger] aes128_cbc_enc(key@, p) ==> p == v@,
        r is None ==> forall|p: Seq<u8>| data@ != #[trigger] aes128_cbc_enc(key@, p),
{
    let iv = [0u8; 16];
    let cipher: block_modes::Cbc<aes::Aes128, block_modes::block_padding::Pkcs7> =
        block_modes::BlockMode::new_from_slices(key, &iv).expect("16-byte key and IV");
    match block_modes::BlockMode::decrypt_vec(cipher, data) {
        Ok(v) => Some(v),
        Err(_) => None,
    }
}

/// Generates a random 128-bit key.
pub fn generate_key() -> (r: Vec<u8>)
    ensures
        r@.len() == 16,
{
    crate::rng::random_bytes(16)
}

/// Encrypts data under a 128-bit key.
pub fn encrypt_data(data: &[u8], key: &[u8]) -> (r: Vec<u8>)
    requires
        key@.len() == 16,
        data@.len() + 16 <= usize::MAX,
    ensures
        r@ == aes128_cbc_enc(key@, data@),
        r@.len() == data@.len() + (16 - data@.len() % 16),
{
    aes128_encrypt(data, key)
}

/// Decrypts a byte string that the cipher accepts under this key. When the
/// input was produced by `encrypt_data`, the result is exactly the message
/// that was encrypted.
pub fn decrypt_data(data: &[u8], key: &[u8]) -> (r: Vec<u8>)
    requires
        key@.len() == 16,
        aes128_cbc_dec(key@, data@) is Some,
    ensures
        aes128_cbc_dec(key@, data@) == Some(r@),
        forall|p: Seq<u8>| data@ == #[trigger] aes128_cbc_enc(key@, p) ==> r@ == p,
{
    match aes128_decrypt(data, key) {
        Some(v) => v,
        None => {
            proof {
                assert(false);
            }
            Vec::new()
        },
    }
}

/// Decrypts data under a 128-bit key, reporting failure instead of assuming
/// the data is accepted. Every byte string `encrypt_data` can produce under
/// this key is accepted and maps back to its message; rejected inputs are
/// the encryption of nothing.
pub fn decrypt_data_checked(data: &[u8], key: &[u8]) -> (r: Result<Vec<u8>, CryptoError>)
    requires
        key@.len() == 16,
    ensures
        r is Ok <==> aes128_cbc_dec(key@, data@) is Some,
        forall|p: Seq<u8>|
            data@ == #[trigger] aes128_cbc_enc(key@, p) ==> (r matches Ok(v) && v@ == p),
        r is Err ==> forall|p: Seq<u8>| data@ != #[trigger] aes128_cbc_enc(key@, p),
        r is Err ==> r == Result::<Vec<u8>, CryptoError>::Err(CryptoError::InvalidEncoding),
{
    match aes128_decrypt(data, key) {
        Some(v) => {
            proof {
                assert(aes128_cbc_dec(key@, data@) == Some(v@));
            }
            Ok(decrypt_data(data, key))
        },
        None => Err(CryptoError::InvalidEncoding),
    }
}

} // verus!
