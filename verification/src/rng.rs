//! Sources of randomness, and the random keys and nonces built from them.
//!
//! Nothing is assumed of the values that come back beyond their length: a
//! random byte string is a random byte string, and no two calls are related.

use vstd::prelude::*;

verus! {

/// Relies on rand's thread_rng and Rng::fill: fills the buffer completely,
/// so the result has exactly the requested length.
#[verifier::external_body]
pub(crate) fn random_bytes(n: usize) -> (r: Vec<u8>)
    ensures
        r@.len() == n,
{
    let mut buf = vec![0u8; n];
    rand::Rng::fill(&mut rand::thread_rng(), buf.as_mut_slice());
    buf
}

/// Relies on rand_chacha's ChaCha20Rng seeded from system entropy, drawing
/// one byte per position: the result has exactly the requested length.
#[verifier::external_body]
pub(crate) fn chacha_random_bytes(n: usize) -> (r: Vec<u8>)
    ensures
        r@.len() == n,
{
    let mut rng: rand_chacha::ChaCha20Rng = rand::SeedableRng::from_entropy();
    (0..n).map(|_| rand::Rng::gen::<u8>(&mut rng)).collect()
}

/// Generates a random AES-256 key.
pub fn generate_aes_key() -> (r: Vec<u8>)
    ensures
        r@.len() == 32,
{
    random_bytes(32)
}

/// Generates a random initialization vector for AES encryption.
pub fn generate_iv() -> (r: Vec<u8>)
    ensures
        r@.len() == 16,
{
    random_bytes(16)
}

} // verus!
