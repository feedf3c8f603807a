//! The SHA-256 digest, named for use in contracts, and the byte comparisons
//! built on top of it.

use vstd::prelude::*;

verus! {

/// What sha2's SHA-256 returns for a byte sequence. The algorithm itself is
/// not written out here: the digest is a fixed function of the input alone,
/// and contracts speak of it only through this name.
pub uninterp spec fn sha256_of(data: Seq<u8>) -> Seq<u8>;

/// Relies on sha2's Sha256: the digest is 32 bytes and depends on the input
/// bytes alone.
#[verifier::external_body]
pub(crate) fn sha256(data: &[u8]) -> (r: Vec<u8>)
    ensures
        r@ == sha256_of(data@),
        r@.len() == 32,
{
    let mut hasher: sha2::Sha256 = sha2::Digest::new();
    sha2::Digest::update(&mut hasher, data);
    sha2::Digest::finalize(hasher).to_vec()
}

/// Computes the SHA-256 hash of a message.
pub fn hash_message(message: &[u8]) -> (r: Vec<u8>)
    ensures
        r@ == sha256_of(message@),
        r@.len() == 32,
{
    sha256(message)
}

/// Compares two byte strings without an early exit: the difference of every
/// pair of bytes is folded into one accumulator, which is zero exactly when
/// the strings are equal.
pub fn constant_time_eq(a: &[u8], b: &[u8]) -> (r: bool)
    ensures
        r == (a@ == b@),
{
    if a.len() != b.len() {
        proof {
            assert(a@.len() != b@.len());
        }
        return false;
    }
    let n = a.len();
    let mut diff: u8 = 0;
    let mut i: usize = 0;
    while i < n
        invariant
            n == a@.len(),
            n == b@.len(),
            0 <= i <= n,
            (diff == 0) <==> (a@.subrange(0, i as int) =~= b@.subrange(0, i as int)),
        decreases n - i,
    {
        let ai = a[i];
        let bi = b[i];
        let d = ai ^ bi;
        proof {
            assert((d == 0) == (ai == bi)) by (bit_vector)
                requires
                    d == ai ^ bi,
            ;
        }
        let old_diff = diff;
        diff = diff | d;
        proof {
            assert((diff == 0) == (old_diff == 0 && d == 0)) by (bit_vector)
                requires
                    diff == old_diff | d,
            ;
            if diff == 0 {
                assert(a@.subrange(0, i + 1 as int) =~= b@.subrange(0, i + 1 as int));
            } else {
                if old_diff == 0 {
                    assert(a@.subrange(0, i + 1 as int)[i as int] == ai);
                    assert(b@.subrange(0, i + 1 as int)[i as int] == bi);
                } else {
                    if a@.subrange(0, i + 1 as int) =~= b@.subrange(0, i + 1 as int) {
                        assert(forall|j: int|
                            0 <= j < i ==> a@.subrange(0, i + 1 as int)[j] == a@.subrange(
                                0,
                                i as int,
                            )[j]);
                        assert(a@.subrange(0, i as int) =~= b@.subrange(0, i as int));
                    }
                }
            }
        }
        i = i + 1;
    }
    proof {
        if diff == 0 {
            assert(a@.subrange(0, n as int) =~= a@);
            assert(b@.subrange(0, n as int) =~= b@);
        } else {
            if a@ == b@ {
                assert(a@.subrange(0, n as int) =~= b@.subrange(0, n as int));
            }
        }
    }
    diff == 0
}

} // verus!
