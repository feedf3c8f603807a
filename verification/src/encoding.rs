//! Base64 text encoding of byte strings, and block padding for messages.

use vstd::prelude::*;
use crate::errors::CryptoError;

verus! {

/// What base64's standard encoding with padding produces for a byte
/// sequence. A fixed function of the input alone; contracts speak of it
/// only through this name.
pub uninterp spec fn base64_of(data: Seq<u8>) -> Seq<char>;

/// Encodes a message to Base64.
///
/// Relies on base64's encode with the standard alphabet and padding: the
/// result depends on the input bytes alone, and an empty input encodes to
/// the empty string.
#[verifier::external_body]
pub fn encode_base64(message: &[u8]) -> (r: String)
    ensures
        r@ == base64_of(message@),
        message@.len() == 0 ==> r@.len() == 0,
{
    base64::encode(message)
}

/// Decodes a Base64-encoded message.
///
/// Relies on base64's decode with the standard alphabet and padding: it
/// inverts encode, so whatever encode produced decodes back to the original
/// bytes, and text it cannot decode is reported as an error.
#[verifier::external_body]
pub fn decode_base64(encoded_message: &str) -> (r: Result<Vec<u8>, CryptoError>)
    ensures
        r matches Ok(v) ==> forall|p: Seq<u8>|
            encoded_message@ == #[trigger] base64_of(p) ==> p == v@,
        r is Err ==> forall|p: Seq<u8>| encoded_message@ != #[trigger] base64_of(p),
{
    match base64::decode(encoded_message) {
        Ok(v) => Ok(v),
        Err(_) => Err(CryptoError::InvalidEncoding),
    }
}

/// Pads a message to a whole number of 16-byte blocks: between 1 and 16
/// bytes are appended, each holding the number of bytes appended.
pub fn pad_message(message: &[u8]) -> (r: Vec<u8>)
    requires
        message@.len() + 16 <= usize::MAX,
    ensures
        r@.len() == message@.len() + (16 - message@.len() % 16),
        r@.len() % 16 == 0,
        r@.subrange(0, message@.len() as int) == message@,
        forall|i: int|
            message@.len() <= i < r@.len() ==> r@[i] == (16 - message@.len() % 16) as u8,
{
    let mut padded = crate::bytes::bytes_to_vec(message);
    let padding_len: usize = 16 - (message.len() % 16);
    let pad_byte: u8 = padding_len as u8;
    let target = message.len() + padding_len;
    while padded.len() < target
        invariant
            message@.len() <= padded@.len() <= target,
            target == message@.len() + padding_len,
            padding_len == 16 - message@.len() % 16,
            pad_byte == padding_len as u8,
            padded@.subrange(0, message@.len() as int) =~= message@,
            forall|i: int| message@.len() <= i < padded@.len() ==> padded@[i] == pad_byte,
        decreases target - padded.len(),
    {
        padded.push(pad_byte);
        proof {
            assert(padded@.subrange(0, message@.len() as int) =~= message@);
        }
    }
    proof {
        assert(padded@.len() % 16 == 0) by {
            assert(padded@.len() == message@.len() + (16 - message@.len() % 16));
        }
    }
    padded
}

} // verus!
