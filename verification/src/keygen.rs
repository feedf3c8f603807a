//! Random key generation with a seeded stream cipher, and the hexadecimal
//! rendering of keys.

use vstd::prelude::*;
use vstd::string::StringExecFns;
use crate::errors::CryptoError;

verus! {

/// The sixteen digits of uppercase hexadecimal.
pub const HEX_DIGITS: [char; 16] = [
    '0',
    '1',
    '2',
    '3',
    '4',
    '5',
    '6',
    '7',
    '8',
    '9',
    'A',
    'B',
    'C',
    'D',
    'E',
    'F',
];

/// The uppercase hexadecimal rendering of a byte sequence: two digits per
/// byte, high nibble first.
pub open spec fn hex_of(data: Seq<u8>) -> Seq<char>
    decreases data.len(),
{
    if data.len() == 0 {
        Seq::empty()
    } else {
        hex_of(data.drop_last()) + seq![
            HEX_DIGITS@[(data.last() >> 4) as int],
            HEX_DIGITS@[(data.last() & 0x0F) as int],
        ]
    }
}

/// The one-character string for a single hexadecimal digit.
fn hex_digit_str(n: u8) -> (r: &'static str)
    requires
        n < 16,
    ensures
        r@ =~= seq![HEX_DIGITS@[n as int]],
{
    proof {
        reveal_strlit("0");
        reveal_strlit("1");
        reveal_strlit("2");
        reveal_strlit("3");
        reveal_strlit("4");
        reveal_strlit("5");
        reveal_strlit("6");
        reveal_strlit("7");
        reveal_strlit("8");
        reveal_strlit("9");
        reveal_strlit("A");
        reveal_strlit("B");
        reveal_strlit("C");
        reveal_strlit("D");
        reveal_strlit("E");
        reveal_strlit("F");
    }
    match n {
        0 => "0",
        1 => "1",
        2 => "2",
        3 => "3",
        4 => "4",
        5 => "5",
        6 => "6",
        7 => "7",
        8 => "8",
        9 => "9",
        10 => "A",
        11 => "B",
        12 => "C",
        13 => "D",
        14 => "E",
        _ => "F",
    }
}

/// Renders bytes as uppercase hexadecimal, two digits per byte.
pub fn to_hex(data: &[u8]) -> (r: String)
    ensures
        r@ == hex_of(data@),
        r@.len() == 2 * data@.len(),
{
    let mut out = String::new();
    let n = data.len();
    let mut i: usize = 0;
    proof {
        assert(data@.take(0) =~= Seq::<u8>::empty());
    }
    while i < n
        invariant
            n == data@.len(),
            0 <= i <= n,
            out@ == hex_of(data@.take(i as int)),
            out@.len() == 2 * i,
        decreases n - i,
    {
        let b = data[i];
        let hi = b >> 4;
        let lo = b & 0x0F;
        proof {
            assert(hi < 16 && lo < 16) by (bit_vector)
                requires
                    hi == b >> 4,
                    lo == b & 0x0F,
            ;
        }
        out.append(hex_digit_str(hi));
        out.append(hex_digit_str(lo));
        proof {
            let taken = data@.take(i + 1 as int);
            assert(taken.drop_last() =~= data@.take(i as int));
            assert(taken.last() == b);
            assert(out@ =~= hex_of(data@.take(i + 1 as int)));
        }
        i = i + 1;
    }
    proof {
        assert(data@.take(n as int) =~= data@);
    }
    out
}

/// Generates a symmetric key using a ChaCha20 random stream. The length must
/// name a whole number of 64-bit words, and the key has exactly that many
/// bytes.
pub fn generate_key(key_length: usize) -> (r: Result<Vec<u8>, CryptoError>)
    ensures
        r is Ok <==> key_length % 8 == 0,
        r matches Ok(k) ==> k@.len() == key_length,
        r is Err ==> r == Result::<Vec<u8>, CryptoError>::Err(CryptoError::InvalidKeyLength),
{
    if key_length % 8 != 0 {
        return Err(CryptoError::InvalidKeyLength);
    }
    Ok(crate::rng::chacha_random_bytes(key_length))
}

/// Generates a hexadecimal representation of a fresh key: two digits for
/// each key byte.
pub fn generate_hex_key(key_length: usize) -> (r: Result<String, CryptoError>)
    ensures
        r is Ok <==> key_length % 8 == 0,
        r matches Ok(s) ==> s@.len() == 2 * key_length,
        r is Err ==> r == Result::<String, CryptoError>::Err(CryptoError::InvalidKeyLength),
{
    match generate_key(key_length) {
        Ok(key) => Ok(to_hex(key.as_slice())),
        Err(e) => Err(e),
    }
}

} // verus!
