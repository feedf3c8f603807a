//! A single-byte XOR stream: the lightest data scrambler in the toolbox.
//!
//! Every byte is combined with the first key byte, so applying the same
//! operation twice restores the input.

use vstd::prelude::*;

verus! {

/// Each byte combined with the first key byte.
pub open spec fn xor_with_first(data: Seq<u8>, key: Seq<u8>) -> Seq<u8> {
    Seq::new(data.len(), |i: int| data[i] ^ key[0])
}

/// Encrypts data using a symmetric key: every byte is combined with the
/// first key byte.
pub fn encrypt_data(data: &[u8], key: &[u8]) -> (r: Vec<u8>)
    requires
        key@.len() > 0,
    ensures
        r@ == xor_with_first(data@, key@),
{
    let k = key[0];
    let n = data.len();
    let mut out: Vec<u8> = Vec::new();
    let mut i: usize = 0;
    while i < n
        invariant
            n == data@.len(),
            0 <= i <= n,
            key@.len() > 0,
            k == key@[0],
            out@.len() == i,
            forall|j: int| 0 <= j < i ==> out@[j] == (data@[j] ^ key@[0]),
        decreases n - i,
    {
        out.push(data[i] ^ k);
        i = i + 1;
    }
    proof {
        assert(out@ =~= xor_with_first(data@, key@));
    }
    out
}

/// Decrypts data using a symmetric key: the inverse of `encrypt_data`
/// under the same key.
pub fn decrypt_data(data: &[u8], key: &[u8]) -> (r: Vec<u8>)
    requires
        key@.len() > 0,
    ensures
        r@ == xor_with_first(data@, key@),
{
    encrypt_data(data, key)
}

/// Applying the scrambler twice under one key restores the input exactly.
pub proof fn lemma_xor_round_trip(data: Seq<u8>, key: Seq<u8>)
    requires
        key.len() > 0,
    ensures
        xor_with_first(xor_with_first(data, key), key) == data,
{
    let once = xor_with_first(data, key);
    let twice = xor_with_first(once, key);
    assert forall|i: int| 0 <= i < data.len() implies twice[i] == data[i] by {
        let d = data[i];
        let k = key[0];
        assert((d ^ k) ^ k == d) by (bit_vector);
    }
    assert(twice =~= data);
}

/// Generates the fixed demonstration key.
pub fn generate_key() -> (r: Vec<u8>)
    ensures
        r@ =~= seq![1u8, 2u8, 3u8, 4u8, 5u8],
{
    let out: Vec<u8> = vec![0x01, 0x02, 0x03, 0x04, 0x05];
    proof {
        assert(out@ =~= seq![1u8, 2u8, 3u8, 4u8, 5u8]);
    }
    out
}

} // verus!
