//! Password-based key derivation and deterministic key stretching.
//!
//! Derivation is memory-hard and deliberately expensive: identical inputs
//! always give identical key bytes, and the cost parameters are part of the
//! inputs. Stretching extends a key to a requested length by repeatedly
//! hashing a growing buffer; it is deterministic as well.

use vstd::prelude::*;
use vstd::string::StringSliceAdditionalSpecFns;
use crate::errors::CryptoError;
use crate::hashing::{sha256, sha256_of};

verus! {

/// How a key was derived: the salt and cost parameters that, together with
/// the password, fix the derived bytes completely.
#[derive(Clone, Debug)]
pub struct DerivationParams {
    /// The salt the key was derived with.
    pub salt: Vec<u8>,
    /// Memory cost in kibibytes.
    pub memory_cost: u32,
    /// Number of passes over the memory.
    pub time_cost: u32,
    /// Number of lanes.
    pub parallelism: u32,
    /// Length of the derived key in bytes.
    pub output_length: u32,
}

impl Default for DerivationParams {
    /// Moderate default costs and a 256-bit key.
    fn default() -> (r: DerivationParams)
        ensures
            r.salt@.len() == 0,
            r.memory_cost == 4096,
            r.time_cost == 3,
            r.parallelism == 1,
            r.output_length == 32,
    {
        DerivationParams {
            salt: Vec::new(),
            memory_cost: 4096,
            time_cost: 3,
            parallelism: 1,
            output_length: 32,
        }
    }
}

/// The bounds under which derivation succeeds: every cost must be positive,
/// as the design demands, and the password, salt and output length must lie
/// inside what the Argon2 implementation accepts.
pub open spec fn derivation_accepted(
    password_len: int,
    salt_len: int,
    memory_cost: u32,
    time_cost: u32,
    parallelism: u32,
    output_length: u32,
) -> bool {
    &&& 1 <= parallelism <= 0xFF_FFFF
    &&& memory_cost >= 8
    &&& memory_cost >= 8 * parallelism
    &&& time_cost >= 1
    &&& output_length >= 4
    &&& 8 <= salt_len <= u32::MAX
    &&& password_len <= u32::MAX
}

/// What rust-argon2's hash_raw returns for an Argon2id, version 0x13
/// derivation. The result is a fixed function of these arguments alone;
/// contracts speak of it only through this name.
pub uninterp spec fn argon2id_of(
    password: Seq<u8>,
    salt: Seq<u8>,
    memory_cost: u32,
    time_cost: u32,
    parallelism: u32,
    output_length: u32,
) -> Seq<u8>;

/// Relies on rust-argon2's hash_raw with the Argon2id variant, version 0x13,
/// no secret and no associated data: under the accepted bounds it validates,
/// runs, and returns a hash of exactly the requested length. The accepted
/// bounds assume a 64-bit address space, where the implementation caps the
/// memory cost only at the integer's range; a 32-bit build caps it far
/// lower, at two gibibytes.
#[verifier::external_body]
fn argon2id_hash(
    password: &[u8],
    salt: &[u8],
    memory_cost: u32,
    time_cost: u32,
    parallelism: u32,
    output_length: u32,
) -> (r: Vec<u8>)
    requires
        derivation_accepted(
            password@.len() as int,
            salt@.len() as int,
            memory_cost,
            time_cost,
            parallelism,
            output_length,
        ),
    ensures
        r@ == argon2id_of(password@, salt@, memory_cost, time_cost, parallelism, output_length),
        r@.len() == output_length,
{
    let config = argon2::Config {
        ad: &[],
        hash_length: output_length,
        lanes: parallelism,
        mem_cost: memory_cost,
        secret: &[],
        time_cost,
        variant: argon2::Variant::Argon2id,
        version: argon2::Version::Version13,
    };
    argon2::hash_raw(password, salt, &config).expect("validated parameters")
}

/// Derives a symmetric key from a password, a salt and cost parameters.
///
/// Deterministic: identical inputs always give identical bytes. Fails with
/// `InvalidKdfParams` exactly when a cost parameter or length falls outside
/// the accepted bounds; the salt carried inside `params` is ignored in
/// favour of the explicit argument.
pub fn derive_key_from_password(password: &str, salt: &[u8], params: &DerivationParams) -> (r:
    Result<Vec<u8>, CryptoError>)
    ensures
        r is Ok <==> derivation_accepted(
            password.spec_bytes().len() as int,
            salt@.len() as int,
            params.memory_cost,
            params.time_cost,
            params.parallelism,
            params.output_length,
        ),
        r matches Ok(k) ==> {
            &&& k@ == argon2id_of(
                password.spec_bytes(),
                salt@,
                params.memory_cost,
                params.time_cost,
                params.parallelism,
                params.output_length,
            )
            &&& k@.len() == params.output_length
        },
        r is Err ==> r == Result::<Vec<u8>, CryptoError>::Err(CryptoError::InvalidKdfParams),
{
    let pw = password.as_bytes();
    if params.parallelism < 1 || params.parallelism > 0xFF_FFFF {
        return Err(CryptoError::InvalidKdfParams);
    }
    if params.memory_cost < 8 || params.memory_cost < 8 * params.parallelism {
        return Err(CryptoError::InvalidKdfParams);
    }
    if params.time_cost < 1 {
        return Err(CryptoError::InvalidKdfParams);
    }
    if params.output_length < 4 {
        return Err(CryptoError::InvalidKdfParams);
    }
    if salt.len() < 8 || salt.len() > u32::MAX as usize {
        return Err(CryptoError::InvalidKdfParams);
    }
    if pw.len() > u32::MAX as usize {
        return Err(CryptoError::InvalidKdfParams);
    }
    Ok(
        argon2id_hash(
            pw,
            salt,
            params.memory_cost,
            params.time_cost,
            params.parallelism,
            params.output_length,
        ),
    )
}

/// Key derivation is deterministic: two results that both satisfy the
/// contract of `derive_key_from_password` for the same password, salt and
/// parameters are byte-identical.
pub proof fn lemma_derivation_deterministic(
    password: Seq<u8>,
    salt: Seq<u8>,
    params_m: u32,
    params_t: u32,
    params_p: u32,
    params_l: u32,
    k1: Seq<u8>,
    k2: Seq<u8>,
)
    requires
        k1 == argon2id_of(password, salt, params_m, params_t, params_p, params_l),
        k2 == argon2id_of(password, salt, params_m, params_t, params_p, params_l),
    ensures
        k1 == k2,
{
}

/// The buffer after `i` rounds of stretching: each round appends the digest
/// of everything accumulated so far.
pub open spec fn stretch_accum(key: Seq<u8>, i: nat) -> Seq<u8>
    decreases i,
{
    if i == 0 {
        key
    } else {
        let prev = stretch_accum(key, (i - 1) as nat);
        prev + sha256_of(prev)
    }
}

/// How many 32-byte digest rounds are needed to grow a key of length
/// `key_len` to at least `target` bytes.
pub open spec fn stretch_rounds(key_len: int, target: int) -> int {
    if target <= key_len {
        0
    } else {
        (target - key_len + 31) / 32
    }
}

/// What stretching a key to `target` bytes returns: the accumulated buffer
/// after exactly the needed number of rounds, cut to the target length.
pub open spec fn stretch_spec(key: Seq<u8>, target: int) -> Seq<u8> {
    stretch_accum(key, stretch_rounds(key.len() as int, target) as nat).take(target)
}

/// Stretches a key to exactly `target_length` bytes by hashing the growing
/// buffer and appending the digest until the buffer is long enough, then
/// truncating. Deterministic, and never a byte short or over.
pub fn stretch_key(key: &[u8], target_length: usize) -> (r: Vec<u8>)
    ensures
        r@.len() == target_length,
        r@ == stretch_spec(key@, target_length as int),
{
    let mut buf: Vec<u8> = crate::bytes::bytes_to_vec(key);
    let mut rounds: usize = 0;
    while buf.len() < target_length
        invariant
            buf@ == stretch_accum(key@, rounds as nat),
            buf@.len() == key@.len() + 32 * rounds,
            rounds > 0 ==> key@.len() + 32 * (rounds - 1) < target_length,
        decreases target_length + 32 - buf.len(),
    {
        let digest = sha256(buf.as_slice());
        crate::bytes::append_bytes(&mut buf, digest.as_slice());
        rounds = rounds + 1;
    }
    proof {
        lemma_stretch_rounds_exact(key@.len() as int, target_length as int, rounds as int);
    }
    buf.truncate(target_length);
    buf
}

/// The loop in `stretch_key` stops after exactly the number of rounds that
/// `stretch_rounds` names.
proof fn lemma_stretch_rounds_exact(key_len: int, target: int, rounds: int)
    requires
        key_len >= 0,
        rounds >= 0,
        key_len + 32 * rounds >= target,
        rounds > 0 ==> key_len + 32 * (rounds - 1) < target,
    ensures
        rounds == stretch_rounds(key_len, target),
{
    if rounds == 0 {
    } else {
        let d = target - key_len;
        assert(32 * (rounds - 1) < d <= 32 * rounds);
        assert((d + 31) / 32 == rounds) by (nonlinear_arith)
            requires
                32 * (rounds - 1) < d <= 32 * rounds,
                rounds >= 1,
        ;
    }
}

/// Stretching is deterministic: two results that both satisfy the contract
/// of `stretch_key` for the same key and target length are byte-identical,
/// and both have exactly the target length.
pub proof fn lemma_stretch_deterministic(key: Seq<u8>, target: int, r1: Seq<u8>, r2: Seq<u8>)
    requires
        target >= 0,
        r1 == stretch_spec(key, target),
        r2 == stretch_spec(key, target),
    ensures
        r1 == r2,
{
}

/// Generates a new symmetric key of the requested length.
pub fn generate_key(key_length: usize) -> (r: Result<Vec<u8>, CryptoError>)
    ensures
        r matches Ok(k) && k@.len() == key_length,
{
    Ok(crate::rng::random_bytes(key_length))
}

} // verus!
