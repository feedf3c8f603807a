//! Authenticated encryption keyed by a key generation.
//!
//! Every ciphertext carries the id of the generation it was produced under,
//! a fresh random nonce, and an authentication tag over the payload.
//! Decryption resolves the generation by that id, recomputes the tag, and
//! fails closed: a Revoked or unknown generation, a mismatched tag, or an
//! undecodable payload all yield an error and never partial plaintext.

use vstd::prelude::*;
use crate::errors::CryptoError;
use crate::hashing::{sha256, sha256_of, constant_time_eq};
use crate::kdf::stretch_spec;
use crate::kdf::stretch_key;
use crate::rotation::{KeyGeneration, KeyRotationManager, GenerationStatus};

verus! {

/// What AES-256 in CBC mode with PKCS7 padding produces for a key, an IV
/// and a message. A fixed function of the three arguments alone; contracts
/// speak of it only through this name.
pub uninterp spec fn aes256_cbc_enc(key: Seq<u8>, iv: Seq<u8>, data: Seq<u8>) -> Seq<u8>;

/// What the matching decryption returns for a key, an IV and a byte
/// string: the recovered message, or nothing when the input is rejected.
/// A fixed function of the three arguments alone.
pub uninterp spec fn aes256_cbc_dec(key: Seq<u8>, iv: Seq<u8>, data: Seq<u8>) -> Option<Seq<u8>>;

/// Relies on block-modes' Cbc<Aes256, Pkcs7>::encrypt_vec: total for a
/// 32-byte key and 16-byte IV, and the output is the padded input length.
#[verifier::external_body]
fn aes256_encrypt(data: &[u8], key: &[u8], iv: &[u8]) -> (r: Vec<u8>)
    requires
        key@.len() == 32,
        iv@.len() == 16,
        data@.len() + 16 <= usize::MAX,
    ensures
        r@ == aes256_cbc_enc(key@, iv@, data@),
        r@.len() == data@.len() + (16 - data@.len() % 16),
{
    let cipher: block_modes::Cbc<aes::Aes256, block_modes::block_padding::Pkcs7> =
        block_modes::BlockMode::new_from_slices(key, iv).expect("32-byte key and 16-byte IV");
    block_modes::BlockMode::encrypt_vec(cipher, data)
}

/// Relies on block-modes' Cbc<Aes256, Pkcs7>::decrypt_vec: it inverts
/// encrypt_vec, so everything encrypt_vec produced is accepted and maps
/// back to the one message it encrypts. Other inputs may also be accepted
/// — an unpadded tail can imitate padding — so nothing is claimed of them
/// beyond the name. A wrong key or IV length is answered with None rather
/// than a panic.
#[verifier::external_body]
fn aes256_decrypt(data: &[u8], key: &[u8], iv: &[u8]) -> (r: Option<Vec<u8>>)
    ensures
        r matches Some(v) ==> key@.len() == 32 && iv@.len() == 16 && aes256_cbc_dec(
            key@,
            iv@,
            data@,
        ) == Some(v@),
        r is None ==> !(key@.len() == 32 && iv@.len() == 16) || aes256_cbc_dec(
            key@,
            iv@,
            data@,
        ) is None,
        r matches Some(v) ==> forall|p: Seq<u8>|
            data@ == #[trigger] aes256_cbc_enc(key@, iv@, p) ==> p == v@,
        r is None ==> !(key@.len() == 32 && iv@.len() == 16) || forall|p: Seq<u8>|
            data@ != #[trigger] aes256_cbc_enc(key@, iv@, p),
{
    let cipher: block_modes::Cbc<aes::Aes256, block_modes::block_padding::Pkcs7> =
        match block_modes::BlockMode::new_from_slices(key, iv) {
            Ok(c) => c,
            Err(_) => {
                return None;
            },
        };
    match block_modes::BlockMode::decrypt_vec(cipher, data) {
        Ok(v) => Some(v),
        Err(_) => None,
    }
}

/// A self-describing encrypted payload: the generation it was produced
/// under, the nonce, the encrypted bytes, and the authentication tag.
#[derive(Clone, Debug)]
pub struct Ciphertext {
    /// The generation whose key encrypted the payload.
    pub generation_id: u64,
    /// The fresh random nonce of this one encryption.
    pub nonce: Vec<u8>,
    /// The encrypted bytes.
    pub payload: Vec<u8>,
    /// The tag that decryption recomputes and compares.
    pub authentication_tag: Vec<u8>,
}

/// The encryption key of a generation: its derived key bytes stretched to
/// the 32 bytes AES-256 takes.
pub open spec fn cipher_key(g: KeyGeneration) -> Seq<u8> {
    stretch_spec(g.key_bytes@, 32)
}

/// The authentication tag over a payload: the digest of key, nonce and
/// payload together.
pub open spec fn tag_of(key: Seq<u8>, nonce: Seq<u8>, payload: Seq<u8>) -> Seq<u8> {
    sha256_of(key + nonce + payload)
}

/// A ciphertext as encryption under generation `g` produces it for
/// plaintext `m`: tagged with the generation's id, a 16-byte nonce, the
/// payload encrypted under the generation's cipher key, and a matching tag.
pub open spec fn sealed_under(c: Ciphertext, g: KeyGeneration, m: Seq<u8>) -> bool {
    &&& c.generation_id == g.generation_id
    &&& c.nonce@.len() == 16
    &&& c.payload@ == aes256_cbc_enc(cipher_key(g), c.nonce@, m)
    &&& c.authentication_tag@ == tag_of(cipher_key(g), c.nonce@, c.payload@)
}

/// When decryption returns some plaintext at all: the generation id
/// resolves, that generation is not Revoked, the stored tag is the one its
/// key recomputes, and the cipher accepts the payload. Acceptance by the
/// cipher is wider than the image of encryption: a holder of the
/// generation's key could craft an accepted payload that no message seals
/// to.
pub open spec fn decrypt_admits(mgr: KeyRotationManager, c: Ciphertext) -> bool {
    &&& 1 <= c.generation_id <= mgr.gens().len()
    &&& !(mgr.gens()[c.generation_id - 1].status is Revoked)
    &&& c.nonce@.len() == 16
    &&& c.authentication_tag@ == tag_of(
        cipher_key(mgr.gens()[c.generation_id - 1]),
        c.nonce@,
        c.payload@,
    )
    &&& aes256_cbc_dec(cipher_key(mgr.gens()[c.generation_id - 1]), c.nonce@, c.payload@) is Some
}

/// When decryption of a ciphertext is owed exactly plaintext `p`: the
/// generation id resolves, that generation is not Revoked, the stored tag
/// is the one its key recomputes, and the payload is the encryption of `p`.
pub open spec fn decrypt_accepts(mgr: KeyRotationManager, c: Ciphertext, p: Seq<u8>) -> bool {
    &&& 1 <= c.generation_id <= mgr.gens().len()
    &&& !(mgr.gens()[c.generation_id - 1].status is Revoked)
    &&& c.nonce@.len() == 16
    &&& c.payload@ == aes256_cbc_enc(cipher_key(mgr.gens()[c.generation_id - 1]), c.nonce@, p)
    &&& c.authentication_tag@ == tag_of(
        cipher_key(mgr.gens()[c.generation_id - 1]),
        c.nonce@,
        c.payload@,
    )
}

/// Encrypts a plaintext under the current Active generation with a fresh
/// random nonce. Fails only when no generation exists yet.
pub fn encrypt(manager: &KeyRotationManager, plaintext: &[u8]) -> (r: Result<
    Ciphertext,
    CryptoError,
>)
    requires
        manager.inv(),
        plaintext@.len() + 64 <= usize::MAX,
    ensures
        r is Ok <==> manager.gens().len() > 0,
        r matches Ok(c) ==> {
            &&& sealed_under(c, manager.gens().last(), plaintext@)
            &&& c.generation_id == manager.gens().len()
            &&& c.payload@.len() == plaintext@.len() + (16 - plaintext@.len() % 16)
            &&& c.authentication_tag@.len() == 32
        },
        r is Err ==> r == Result::<Ciphertext, CryptoError>::Err(CryptoError::NotInitialized),
{
    let active = match manager.active_generation() {
        Some(g) => g,
        None => {
            return Err(CryptoError::NotInitialized);
        },
    };
    let key = stretch_key(active.key_bytes.as_slice(), 32);
    let nonce = crate::rng::random_bytes(16);
    let payload = aes256_encrypt(plaintext, key.as_slice(), nonce.as_slice());
    let mut tag_input = key;
    crate::bytes::append_bytes(&mut tag_input, nonce.as_slice());
    crate::bytes::append_bytes(&mut tag_input, payload.as_slice());
    let tag = sha256(tag_input.as_slice());
    proof {
        assert(tag_input@ == cipher_key(manager.gens().last()) + nonce@ + payload@);
    }
    Ok(
        Ciphertext {
            generation_id: active.generation_id,
            nonce,
            payload,
            authentication_tag: tag,
        },
    )
}

/// Decrypts a ciphertext by the generation id it carries. Fails closed:
/// unknown ids, Revoked generations, a tag that the generation's key does
/// not recompute, and payloads the cipher rejects all yield an error, and
/// everything sealed by `encrypt` decrypts back to exactly its plaintext.
pub fn decrypt(manager: &KeyRotationManager, ciphertext: &Ciphertext) -> (r: Result<
    Vec<u8>,
    CryptoError,
>)
    requires
        manager.inv(),
        ciphertext.payload@.len() + 48 <= usize::MAX,
    ensures
        r is Ok <==> decrypt_admits(*manager, *ciphertext),
        r matches Ok(p) ==> aes256_cbc_dec(
            cipher_key(manager.gens()[ciphertext.generation_id - 1]),
            ciphertext.nonce@,
            ciphertext.payload@,
        ) == Some(p@),
        forall|q: Seq<u8>|
            #[trigger] decrypt_accepts(*manager, *ciphertext, q) ==> (r matches Ok(p) && p@ == q),
        r == Result::<Vec<u8>, CryptoError>::Err(CryptoError::UnknownKeyGeneration) <==> (
        ciphertext.generation_id == 0 || ciphertext.generation_id > manager.gens().len()),
        r == Result::<Vec<u8>, CryptoError>::Err(CryptoError::RevokedKeyGeneration) <==> (1
            <= ciphertext.generation_id <= manager.gens().len() && manager.gens()[
            ciphertext.generation_id - 1
        ].status is Revoked),
        r is Err ==> (r == Result::<Vec<u8>, CryptoError>::Err(CryptoError::UnknownKeyGeneration)
            || r == Result::<Vec<u8>, CryptoError>::Err(CryptoError::RevokedKeyGeneration) || r
            == Result::<Vec<u8>, CryptoError>::Err(CryptoError::AuthenticationTagMismatch)),
{
    let generation = match manager.get_generation(ciphertext.generation_id) {
        Some(g) => g,
        None => {
            return Err(CryptoError::UnknownKeyGeneration);
        },
    };
    match generation.status {
        GenerationStatus::Revoked => {
            return Err(CryptoError::RevokedKeyGeneration);
        },
        _ => {},
    }
    let key = stretch_key(generation.key_bytes.as_slice(), 32);
    let mut tag_input = key;
    crate::bytes::append_bytes(&mut tag_input, ciphertext.nonce.as_slice());
    crate::bytes::append_bytes(&mut tag_input, ciphertext.payload.as_slice());
    let expected_tag = sha256(tag_input.as_slice());
    let ghost g = manager.gens()[ciphertext.generation_id - 1];
    proof {
        assert(tag_input@ == cipher_key(g) + ciphertext.nonce@ + ciphertext.payload@);
    }
    if !constant_time_eq(ciphertext.authentication_tag.as_slice(), expected_tag.as_slice()) {
        proof {
            assert(forall|q: Seq<u8>| !decrypt_accepts(*manager, *ciphertext, q));
            assert(!decrypt_admits(*manager, *ciphertext));
        }
        return Err(CryptoError::AuthenticationTagMismatch);
    }
    let key2 = stretch_key(generation.key_bytes.as_slice(), 32);
    match aes256_decrypt(ciphertext.payload.as_slice(), key2.as_slice(), ciphertext.nonce.as_slice(
    )) {
        Some(p) => {
            proof {
                assert(decrypt_admits(*manager, *ciphertext));
            }
            Ok(p)
        },
        None => {
            proof {
                assert(!decrypt_admits(*manager, *ciphertext));
                assert forall|q: Seq<u8>| !decrypt_accepts(*manager, *ciphertext, q) by {
                    if decrypt_accepts(*manager, *ciphertext, q) {
                    }
                }
            }
            Err(CryptoError::AuthenticationTagMismatch)
        },
    }
}

/// Round trip: a ciphertext sealed under the Active generation is accepted
/// by decryption, and decryption of it yields exactly the sealed plaintext.
pub proof fn lemma_encrypt_then_decrypt(mgr: KeyRotationManager, c: Ciphertext, m: Seq<u8>)
    requires
        mgr.inv(),
        mgr.gens().len() > 0,
        sealed_under(c, mgr.gens().last(), m),
    ensures
        decrypt_accepts(mgr, c, m),
{
    assert(mgr.gens()[mgr.gens().len() - 1].generation_id == mgr.gens().len());
    assert(mgr.gens().last().status is Active);
}

/// Rotation safety: a ciphertext that decrypted before a rotation still
/// decrypts to the same plaintext afterwards, while its generation remains
/// Retiring rather than Revoked.
pub proof fn lemma_rotation_preserves_decrypt(
    prev: KeyRotationManager,
    cur: KeyRotationManager,
    c: Ciphertext,
    m: Seq<u8>,
)
    requires
        prev.inv(),
        cur.inv(),
        crate::rotation::rotated_from(cur, prev),
        decrypt_accepts(prev, c, m),
    ensures
        decrypt_accepts(cur, c, m),
{
    let i = c.generation_id - 1;
    if i < prev.gens().len() - 1 {
        assert(cur.gens()[i] == prev.gens()[i]);
    } else {
        assert(i == prev.gens().len() - 1);
        assert(cur.gens()[i].key_bytes == prev.gens()[i].key_bytes);
        assert(cur.gens()[i].status is Retiring);
    }
}

/// Fail-closed tagging: no plaintext is ever accepted from a ciphertext
/// whose stored tag is not the one the resolving generation's key
/// recomputes over the stored nonce and payload.
pub proof fn lemma_mismatched_tag_never_accepted(mgr: KeyRotationManager, c: Ciphertext)
    requires
        1 <= c.generation_id <= mgr.gens().len(),
        c.authentication_tag@ != tag_of(
            cipher_key(mgr.gens()[c.generation_id - 1]),
            c.nonce@,
            c.payload@,
        ),
    ensures
        forall|q: Seq<u8>| !decrypt_accepts(mgr, c, q),
{
}

} // verus!
