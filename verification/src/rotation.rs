//! Key generations and their lifecycle.
//!
//! A generation is a versioned key epoch: exactly one is Active once any key
//! exists, older ones are kept Retiring so legacy ciphertext still decrypts,
//! and Revoked generations refuse all operations. Generation ids are
//! allocated consecutively from one, so the id also names the position.

use vstd::prelude::*;
use vstd::string::StringSliceAdditionalSpecFns;
use crate::errors::CryptoError;
use crate::kdf::{DerivationParams, derive_key_from_password, derivation_accepted, argon2id_of};

verus! {

/// Where a generation stands in its lifecycle.
#[derive(Clone, Copy, Debug, PartialEq, Eq, Structural)]
pub enum GenerationStatus {
    /// The one generation new ciphertext is produced under.
    Active,
    /// Kept only to decrypt ciphertext produced earlier.
    Retiring,
    /// Refuses all operations.
    Revoked,
}

/// One key epoch: its id, its key bytes, how they were derived, and where
/// the generation stands in its lifecycle. The creation stamp is the
/// generation's position in the order of creation.
#[derive(Debug)]
pub struct KeyGeneration {
    /// Consecutive from one; doubles as the position in the store.
    pub generation_id: u64,
    /// The derived key bytes.
    pub key_bytes: Vec<u8>,
    /// Exactly how the key bytes were produced.
    pub params: DerivationParams,
    /// Lifecycle state.
    pub status: GenerationStatus,
    /// Logical creation stamp: the number of generations that existed when
    /// this one was created, plus one.
    pub created_at: u64,
}

/// A generation holding a key freshly derived from the given password and
/// salt under the given costs.
pub open spec fn is_derived_generation(
    g: KeyGeneration,
    gid: u64,
    password: Seq<u8>,
    salt: Seq<u8>,
    memory_cost: u32,
    time_cost: u32,
    parallelism: u32,
    output_length: u32,
    status: GenerationStatus,
) -> bool {
    &&& g.generation_id == gid
    &&& g.created_at == gid
    &&& g.status == status
    &&& g.key_bytes@ == argon2id_of(
        password,
        salt,
        memory_cost,
        time_cost,
        parallelism,
        output_length,
    )
    &&& g.key_bytes@.len() == output_length
    &&& g.params.salt@ == salt
    &&& g.params.memory_cost == memory_cost
    &&& g.params.time_cost == time_cost
    &&& g.params.parallelism == parallelism
    &&& g.params.output_length == output_length
}

/// The ordered store of key generations.
pub struct KeyRotationManager {
    generations: Vec<KeyGeneration>,
}

impl KeyRotationManager {
    /// The generations in creation order.
    pub closed spec fn gens(&self) -> Seq<KeyGeneration> {
        self.generations@
    }

    /// Well-formedness: ids are consecutive from one, every generation but
    /// the newest has left the Active state, and the newest is Active.
    pub open spec fn inv(&self) -> bool {
        &&& forall|i: int|
            0 <= i < self.gens().len() ==> (#[trigger] self.gens()[i]).generation_id == i + 1
        &&& forall|i: int|
            0 <= i < self.gens().len() ==> (#[trigger] self.gens()[i]).created_at == i + 1
        &&& forall|i: int|
            0 <= i < self.gens().len() - 1 ==> ((#[trigger] self.gens()[i]).status
                is Retiring || self.gens()[i].status is Revoked)
        &&& self.gens().len() > 0 ==> self.gens().last().status is Active
    }

    /// An empty store: no generation exists yet.
    pub fn new() -> (r: KeyRotationManager)
        ensures
            r.gens().len() == 0,
            r.inv(),
    {
        KeyRotationManager { generations: Vec::new() }
    }

    /// How many generations exist.
    pub fn generation_count(&self) -> (r: usize)
        ensures
            r == self.gens().len(),
    {
        self.generations.len()
    }

    /// The generation a ciphertext's id resolves to, if the id was ever
    /// allocated.
    pub fn get_generation(&self, generation_id: u64) -> (r: Option<&KeyGeneration>)
        requires
            self.inv(),
        ensures
            match r {
                Some(g) => 1 <= generation_id <= self.gens().len() && *g == self.gens()[
                    generation_id - 1
                ],
                None => generation_id == 0 || generation_id > self.gens().len(),
            },
    {
        if generation_id == 0 || generation_id > self.generations.len() as u64 {
            return None;
        }
        let idx = (generation_id - 1) as usize;
        Some(&self.generations[idx])
    }

    /// The Active generation, present as soon as any key was created.
    pub fn active_generation(&self) -> (r: Option<&KeyGeneration>)
        requires
            self.inv(),
        ensures
            match r {
                Some(g) => self.gens().len() > 0 && *g == self.gens().last() && g.status
                    is Active,
                None => self.gens().len() == 0,
            },
    {
        if self.generations.len() == 0 {
            None
        } else {
            Some(&self.generations[self.generations.len() - 1])
        }
    }

    /// Derives the first Active generation. Fails if one already exists, or
    /// if the derivation parameters are rejected; on success the store holds
    /// exactly generation one, Active.
    pub fn create_initial(&mut self, password: &str, salt: &[u8], params: &DerivationParams) -> (r:
        Result<u64, CryptoError>)
        requires
            old(self).inv(),
        ensures
            final(self).inv(),
            r is Ok <==> old(self).gens().len() == 0 && derivation_accepted(
                password.spec_bytes().len() as int,
                salt@.len() as int,
                params.memory_cost,
                params.time_cost,
                params.parallelism,
                params.output_length,
            ),
            r matches Ok(gid) ==> {
                &&& gid == 1
                &&& final(self).gens().len() == 1
                &&& is_derived_generation(
                    final(self).gens()[0],
                    1,
                    password.spec_bytes(),
                    salt@,
                    params.memory_cost,
                    params.time_cost,
                    params.parallelism,
                    params.output_length,
                    GenerationStatus::Active,
                )
            },
            r is Err ==> final(self).gens() == old(self).gens(),
            old(self).gens().len() > 0 ==> r == Result::<u64, CryptoError>::Err(
                CryptoError::AlreadyInitialized,
            ),
            old(self).gens().len() == 0 && r is Err ==> r == Result::<u64, CryptoError>::Err(
                CryptoError::InvalidKdfParams,
            ),
    {
        if self.generations.len() > 0 {
            return Err(CryptoError::AlreadyInitialized);
        }
        let key = match derive_key_from_password(password, salt, params) {
            Ok(k) => k,
            Err(e) => {
                return Err(e);
            },
        };
        let generation = KeyGeneration {
            generation_id: 1,
            key_bytes: key,
            params: DerivationParams {
                salt: crate::bytes::bytes_to_vec(salt),
                memory_cost: params.memory_cost,
                time_cost: params.time_cost,
                parallelism: params.parallelism,
                output_length: params.output_length,
            },
            status: GenerationStatus::Active,
            created_at: 1,
        };
        self.generations.push(generation);
        Ok(1)
    }

    /// Marks a Retiring generation Revoked; afterwards ciphertext under it
    /// is refused. Unknown ids fail, the Active generation cannot be
    /// revoked, and revoking an already Revoked generation is a no-op.
    pub fn revoke_generation(&mut self, generation_id: u64) -> (r: Result<(), CryptoError>)
        requires
            old(self).inv(),
        ensures
            final(self).inv(),
            r is Ok <==> 1 <= generation_id < old(self).gens().len(),
            generation_id == 0 || generation_id > old(self).gens().len() ==> r == Result::<
                (),
                CryptoError,
            >::Err(CryptoError::UnknownKeyGeneration),
            generation_id == old(self).gens().len() && generation_id >= 1 ==> r == Result::<
                (),
                CryptoError,
            >::Err(CryptoError::CannotRevokeActive),
            r is Err ==> final(self).gens() == old(self).gens(),
            r is Ok ==> {
                &&& final(self).gens().len() == old(self).gens().len()
                &&& forall|i: int|
                    0 <= i < old(self).gens().len() && i != generation_id - 1 ==> final(self).gens()[
                        i
                    ] == #[trigger] old(self).gens()[i]
                &&& final(self).gens()[generation_id - 1].status is Revoked
                &&& final(self).gens()[generation_id - 1].generation_id == old(self).gens()[
                    generation_id - 1
                ].generation_id
                &&& final(self).gens()[generation_id - 1].created_at == old(self).gens()[
                    generation_id - 1
                ].created_at
                &&& final(self).gens()[generation_id - 1].key_bytes == old(self).gens()[
                    generation_id - 1
                ].key_bytes
                &&& final(self).gens()[generation_id - 1].params == old(self).gens()[generation_id
                    - 1].params
            },
    {
        if generation_id == 0 || generation_id > self.generations.len() as u64 {
            return Err(CryptoError::UnknownKeyGeneration);
        }
        if generation_id == self.generations.len() as u64 {
            return Err(CryptoError::CannotRevokeActive);
        }
        let idx = (generation_id - 1) as usize;
        let mut g = self.generations.remove(idx);
        g.status = GenerationStatus::Revoked;
        self.generations.insert(idx, g);
        proof {
            assert forall|i: int|
                0 <= i < old(self).gens().len() && i != generation_id - 1 implies self.gens()[i]
                == #[trigger] old(self).gens()[i] by {
                if i < generation_id - 1 {
                } else {
                }
            }
        }
        Ok(())
    }
}

/// Everything the rotation of one store into another leaves in place: one
/// new generation is appended as Active, the previously Active generation
/// is now Retiring with the same id and key, and every other generation is
/// untouched.
pub open spec fn rotated_from(cur: KeyRotationManager, prev: KeyRotationManager) -> bool {
    &&& cur.gens().len() == prev.gens().len() + 1
    &&& forall|i: int|
        0 <= i < prev.gens().len() - 1 ==> #[trigger] cur.gens()[i] == prev.gens()[i]
    &&& prev.gens().len() > 0 ==> {
        let moved = cur.gens()[prev.gens().len() - 1];
        let was = prev.gens().last();
        &&& moved.generation_id == was.generation_id
        &&& moved.created_at == was.created_at
        &&& moved.key_bytes == was.key_bytes
        &&& moved.params == was.params
        &&& moved.status is Retiring
    }
}

/// Derives a new generation from a new password, retires the previously
/// Active generation, and installs the new one as Active. The old and new
/// key bytes are never combined: each generation's key stands alone.
pub fn rotate_key(
    manager: &mut KeyRotationManager,
    new_password: &str,
    salt: &[u8],
    params: &DerivationParams,
) -> (r: Result<u64, CryptoError>)
    requires
        old(manager).inv(),
        old(manager).gens().len() < u64::MAX,
    ensures
        final(manager).inv(),
        r is Ok <==> old(manager).gens().len() > 0 && derivation_accepted(
            new_password.spec_bytes().len() as int,
            salt@.len() as int,
            params.memory_cost,
            params.time_cost,
            params.parallelism,
            params.output_length,
        ),
        r matches Ok(gid) ==> {
            &&& gid == old(manager).gens().len() + 1
            &&& rotated_from(*final(manager), *old(manager))
            &&& is_derived_generation(
                final(manager).gens().last(),
                gid,
                new_password.spec_bytes(),
                salt@,
                params.memory_cost,
                params.time_cost,
                params.parallelism,
                params.output_length,
                GenerationStatus::Active,
            )
        },
        r is Err ==> final(manager).gens() == old(manager).gens(),
        old(manager).gens().len() == 0 ==> r == Result::<u64, CryptoError>::Err(
            CryptoError::NotInitialized,
        ),
        old(manager).gens().len() > 0 && r is Err ==> r == Result::<u64, CryptoError>::Err(
            CryptoError::InvalidKdfParams,
        ),
{
    if manager.generations.len() == 0 {
        return Err(CryptoError::NotInitialized);
    }
    let key = match derive_key_from_password(new_password, salt, params) {
        Ok(k) => k,
        Err(e) => {
            return Err(e);
        },
    };
    let new_id = manager.generations.len() as u64 + 1;
    let mut last = match manager.generations.pop() {
        Some(g) => g,
        None => {
            proof {
                assert(false);
            }
            return Err(CryptoError::NotInitialized);
        },
    };
    last.status = GenerationStatus::Retiring;
    manager.generations.push(last);
    let generation = KeyGeneration {
        generation_id: new_id,
        key_bytes: key,
        params: DerivationParams {
            salt: crate::bytes::bytes_to_vec(salt),
            memory_cost: params.memory_cost,
            time_cost: params.time_cost,
            parallelism: params.parallelism,
            output_length: params.output_length,
        },
        status: GenerationStatus::Active,
        created_at: new_id,
    };
    manager.generations.push(generation);
    Ok(new_id)
}

} // verus!
