//! Small verified helpers on byte vectors.

use vstd::prelude::*;

verus! {

/// Appends a byte slice to a byte vector. Wraps the std call, whose contract
/// speaks of cloned elements, behind plain sequence concatenation.
pub fn append_bytes(dst: &mut Vec<u8>, src: &[u8])
    ensures
        final(dst)@ == old(dst)@ + src@,
{
    let ghost pre = dst@;
    dst.extend_from_slice(src);
    proof {
        assert forall|i: int| 0 <= i < dst@.len() implies dst@[i] == (pre + src@)[i] by {
            if i >= pre.len() {
                assert(cloned::<u8>(src@[i - pre.len() as int], dst@[i]));
            }
        }
        assert(dst@ =~= pre + src@);
    }
}

/// Copies a byte slice into a fresh vector.
pub fn bytes_to_vec(src: &[u8]) -> (r: Vec<u8>)
    ensures
        r@ == src@,
{
    let mut v: Vec<u8> = Vec::new();
    append_bytes(&mut v, src);
    proof {
        assert(v@ =~= src@);
    }
    v
}

/// Copies a byte vector. Wraps the std clone, whose contract speaks of
/// cloned elements, behind plain view equality.
pub fn clone_bytes(src: &Vec<u8>) -> (r: Vec<u8>)
    ensures
        r@ == src@,
{
    let r = src.clone();
    proof {
        assert forall|i: int| 0 <= i < r@.len() implies r@[i] == src@[i] by {
            assert(cloned::<u8>(src@[i], r@[i]));
        }
        assert(r@ =~= src@);
    }
    r
}

/// Copies a vector of strings, keeping every element equal.
pub fn clone_strings(src: &Vec<String>) -> (r: Vec<String>)
    ensures
        r@ == src@,
{
    let r = src.clone();
    proof {
        assert forall|i: int| 0 <= i < r@.len() implies r@[i] == src@[i] by {
            assert(cloned::<String>(src@[i], r@[i]));
            if r@[i] != src@[i] {
                assert(vstd::pervasive::strictly_cloned::<String>(src@[i], r@[i]));
            }
        }
        assert(r@ =~= src@);
    }
    r
}

} // verus!
