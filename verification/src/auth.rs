//! Credential storage and bearer tokens.
//!
//! Identities are stored with a salted hash of their password, never the
//! password itself, and authentication recomputes the hash and compares it
//! without an early exit. A successful authentication mints an opaque,
//! high-entropy token; validation maps a presented token back to its
//! identity, and revocation removes the mapping and is idempotent.

use vstd::prelude::*;
use vstd::string::StringSliceAdditionalSpecFns;
use crate::errors::CryptoError;
use crate::hashing::{sha256, sha256_of, constant_time_eq};

verus! {

/// A registered identity: a unique username, the salted hash standing in
/// for the password, and the identity's roles.
#[derive(Debug)]
pub struct Identity {
    /// Position in the store plus one; never reused.
    pub id: u64,
    /// Unique among all identities.
    pub username: String,
    /// The random salt the verifier was computed with.
    pub salt: Vec<u8>,
    /// The salted hash of the password; the password itself is never kept.
    pub password_verifier: Vec<u8>,
    /// The identity's roles.
    pub roles: Vec<String>,
}

/// Field-for-field agreement of two identity records.
pub open spec fn same_identity(a: Identity, b: Identity) -> bool {
    &&& a.id == b.id
    &&& a.username@ == b.username@
    &&& a.salt@ == b.salt@
    &&& a.password_verifier@ == b.password_verifier@
    &&& a.roles@ == b.roles@
}

/// An opaque bearer token: a high-entropy value bound to one identity.
#[derive(Debug)]
pub struct AuthToken {
    /// Sixty-four hexadecimal digits drawn from 256 random bits; never
    /// derived from any identity attribute.
    pub value: String,
    /// The identity the token stands for.
    pub identity_id: u64,
    /// Logical stamp: how many tokens were live when this one was minted.
    pub issued_at: u64,
}

/// The verifier an identity stores for a password: the digest of its salt
/// followed by the password bytes.
pub open spec fn verifier_of(salt: Seq<u8>, password: Seq<u8>) -> Seq<u8> {
    sha256_of(salt + password)
}

/// The first identity carrying a username, scanning from the front.
pub open spec fn find_user(ids: Seq<Identity>, name: Seq<char>) -> Option<Identity>
    decreases ids.len(),
{
    if ids.len() == 0 {
        None
    } else if ids[0].username@ == name {
        Some(ids[0])
    } else {
        find_user(ids.drop_first(), name)
    }
}

/// Whether a username/password pair authenticates against a store: the
/// username resolves, and the stored verifier is the one the password
/// recomputes with the stored salt.
pub open spec fn auth_check(ids: Seq<Identity>, name: Seq<char>, password: Seq<u8>) -> bool {
    match find_user(ids, name) {
        Some(ident) => ident.password_verifier@ == verifier_of(ident.salt@, password),
        None => false,
    }
}

/// The token entry a presented value resolves to: the most recently issued
/// entry carrying that value.
pub open spec fn token_lookup(toks: Seq<AuthToken>, value: Seq<char>) -> Option<AuthToken>
    decreases toks.len(),
{
    if toks.len() == 0 {
        None
    } else if toks.last().value@ == value {
        Some(toks.last())
    } else {
        token_lookup(toks.drop_last(), value)
    }
}

/// The token store with every entry carrying a value removed.
pub open spec fn remove_token(toks: Seq<AuthToken>, value: Seq<char>) -> Seq<AuthToken>
    decreases toks.len(),
{
    if toks.len() == 0 {
        Seq::empty()
    } else if toks.last().value@ == value {
        remove_token(toks.drop_last(), value)
    } else {
        remove_token(toks.drop_last(), value).push(toks.last())
    }
}

/// Owns the identities and the live token mappings.
pub struct AuthManager {
    identities: Vec<Identity>,
    tokens: Vec<AuthToken>,
}

impl AuthManager {
    /// The registered identities, in registration order.
    pub closed spec fn identities(&self) -> Seq<Identity> {
        self.identities@
    }

    /// The live tokens, in issue order.
    pub closed spec fn tokens(&self) -> Seq<AuthToken> {
        self.tokens@
    }

    /// Well-formedness: identity ids are consecutive from one, usernames
    /// are unique, and every live token points at a registered identity.
    pub open spec fn inv(&self) -> bool {
        &&& forall|i: int|
            0 <= i < self.identities().len() ==> (#[trigger] self.identities()[i]).id == i + 1
        &&& forall|i: int, j: int|
            0 <= i < j < self.identities().len() ==> (#[trigger] self.identities()[i]).username@
                != (#[trigger] self.identities()[j]).username@
        &&& forall|k: int|
            0 <= k < self.tokens().len() ==> 1 <= (#[trigger] self.tokens()[k]).identity_id
                <= self.identities().len()
    }

    /// An empty store: no identities, no tokens.
    pub fn new() -> (r: AuthManager)
        ensures
            r.identities().len() == 0,
            r.tokens().len() == 0,
            r.inv(),
    {
        AuthManager { identities: Vec::new(), tokens: Vec::new() }
    }

    /// The index of the identity carrying a username, if any, agreeing with
    /// the spec-level scan.
    fn find_index(&self, username: &String) -> (r: Option<usize>)
        ensures
            match r {
                Some(i) => i < self.identities().len() && find_user(
                    self.identities(),
                    username@,
                ) == Some(self.identities()[i as int]) && self.identities()[
                    i as int
                ].username@ == username@,
                None => find_user(self.identities(), username@) is None,
            },
    {
        let n = self.identities.len();
        let mut i: usize = 0;
        proof {
            assert(self.identities().skip(0) =~= self.identities());
        }
        while i < n
            invariant
                n == self.identities().len(),
                0 <= i <= n,
                find_user(self.identities(), username@) == find_user(
                    self.identities().skip(i as int),
                    username@,
                ),
            decreases n - i,
        {
            if self.identities[i].username.eq(username) {
                proof {
                    assert(self.identities().skip(i as int)[0] == self.identities()[i as int]);
                }
                return Some(i);
            }
            proof {
                assert(self.identities().skip(i as int).drop_first() =~= self.identities().skip(
                    i + 1,
                ));
            }
            i = i + 1;
        }
        proof {
            assert(self.identities().skip(n as int) =~= Seq::<Identity>::empty());
        }
        None
    }

    /// Registers a new identity under a fresh salted hash of the password.
    /// Fails exactly when the username is already taken; the password is
    /// never stored.
    pub fn register_user(&mut self, username: &str, password: &str) -> (r: Result<
        (),
        CryptoError,
    >)
        requires
            old(self).inv(),
            old(self).identities().len() < u64::MAX,
        ensures
            final(self).inv(),
            r is Ok <==> find_user(old(self).identities(), username@) is None,
            r is Err ==> r == Result::<(), CryptoError>::Err(CryptoError::DuplicateUser)
                && final(self).identities() == old(self).identities(),
            r is Ok ==> {
                let ident = final(self).identities().last();
                &&& final(self).identities().len() == old(self).identities().len() + 1
                &&& final(self).identities() == old(self).identities().push(ident)
                &&& ident.username@ == username@
                &&& ident.id == old(self).identities().len() + 1
                &&& ident.salt@.len() == 16
                &&& ident.password_verifier@ == verifier_of(ident.salt@, password.spec_bytes())
                &&& ident.roles@.len() == 0
            },
            final(self).tokens() == old(self).tokens(),
    {
        let uname = username.to_owned();
        if let Some(_) = self.find_index(&uname) {
            return Err(CryptoError::DuplicateUser);
        }
        proof {
            lemma_find_user_none(self.identities(), uname@);
        }
        let salt = crate::rng::random_bytes(16);
        let mut hash_input = crate::bytes::clone_bytes(&salt);
        crate::bytes::append_bytes(&mut hash_input, password.as_bytes());
        let verifier = sha256(hash_input.as_slice());
        let ident = Identity {
            id: self.identities.len() as u64 + 1,
            username: uname,
            salt,
            password_verifier: verifier,
            roles: Vec::new(),
        };
        self.identities.push(ident);
        proof {
            let ids = self.identities();
            let n = ids.len() - 1;
            assert forall|i: int, j: int| 0 <= i < j < ids.len() implies (#[trigger] ids[i]).username@
                != (#[trigger] ids[j]).username@ by {
                if j == n {
                    assert(ids[i] == old(self).identities()[i]);
                } else {
                    assert(ids[i] == old(self).identities()[i]);
                    assert(ids[j] == old(self).identities()[j]);
                }
            }
            assert forall|i: int| 0 <= i < ids.len() implies (#[trigger] ids[i]).id == i + 1 by {
                if i < n {
                    assert(ids[i] == old(self).identities()[i]);
                }
            }
            assert forall|k: int| 0 <= k < self.tokens().len() implies 1 <= (#[trigger] self.tokens()[k]).identity_id
                <= ids.len() by {
                assert(1 <= old(self).tokens()[k].identity_id <= old(self).identities().len());
            }
        }
        Ok(())
    }

    /// Mints a fresh opaque token bound to a registered identity: 256
    /// random bits, never derived from any identity attribute. The only
    /// state change is the new token mapping.
    pub fn issue_token(&mut self, identity_id: u64) -> (r: Result<AuthToken, CryptoError>)
        requires
            old(self).inv(),
        ensures
            final(self).inv(),
            final(self).identities() == old(self).identities(),
            r is Ok <==> 1 <= identity_id <= old(self).identities().len(),
            r is Err ==> r == Result::<AuthToken, CryptoError>::Err(CryptoError::UnknownIdentity)
                && final(self).tokens() == old(self).tokens(),
            r matches Ok(t) ==> {
                &&& t.identity_id == identity_id
                &&& t.value@.len() == 64
                &&& t.issued_at == old(self).tokens().len()
                &&& final(self).tokens() == old(self).tokens().push(t)
            },
    {
        if identity_id == 0 || identity_id > self.identities.len() as u64 {
            return Err(CryptoError::UnknownIdentity);
        }
        let raw = crate::rng::random_bytes(32);
        let value = crate::keygen::to_hex(raw.as_slice());
        let issued_at = self.tokens.len() as u64;
        let stored = AuthToken { value: value.clone(), identity_id, issued_at };
        let returned = AuthToken { value, identity_id, issued_at };
        proof {
            assert(stored == returned);
        }
        self.tokens.push(stored);
        proof {
            let toks = self.tokens();
            assert forall|k: int| 0 <= k < toks.len() implies 1 <= (#[trigger] toks[k]).identity_id
                <= self.identities().len() by {
                if k < toks.len() - 1 {
                    assert(toks[k] == old(self).tokens()[k]);
                }
            }
        }
        Ok(returned)
    }

    /// Authenticates a username/password pair and, on success, mints and
    /// records a fresh token for the identity. Every failure is the same
    /// `InvalidCredentials`, whether the username was unknown or the
    /// password wrong, and leaves the store unchanged.
    pub fn authenticate_user(&mut self, username: &str, password: &str) -> (r: Result<
        AuthToken,
        CryptoError,
    >)
        requires
            old(self).inv(),
        ensures
            final(self).inv(),
            final(self).identities() == old(self).identities(),
            r is Ok <==> auth_check(old(self).identities(), username@, password.spec_bytes()),
            r is Err ==> r == Result::<AuthToken, CryptoError>::Err(CryptoError::InvalidCredentials)
                && final(self).tokens() == old(self).tokens(),
            r matches Ok(t) ==> {
                &&& find_user(old(self).identities(), username@) matches Some(ident)
                    && t.identity_id == ident.id
                &&& t.value@.len() == 64
                &&& final(self).tokens() == old(self).tokens().push(t)
            },
    {
        let uname = username.to_owned();
        let idx = match self.find_index(&uname) {
            Some(i) => i,
            None => {
                return Err(CryptoError::InvalidCredentials);
            },
        };
        let mut hash_input = crate::bytes::clone_bytes(&self.identities[idx].salt);
        crate::bytes::append_bytes(&mut hash_input, password.as_bytes());
        let candidate = sha256(hash_input.as_slice());
        if !constant_time_eq(candidate.as_slice(), self.identities[idx].password_verifier.as_slice())
        {
            return Err(CryptoError::InvalidCredentials);
        }
        proof {
            assert(auth_check(old(self).identities(), username@, password.spec_bytes()));
        }
        let identity_id = self.identities[idx].id;
        match self.issue_token(identity_id) {
            Ok(t) => Ok(t),
            Err(_) => {
                proof {
                    assert(false);
                }
                Err(CryptoError::InvalidCredentials)
            },
        }
    }

    /// Resolves a presented token to its identity in one scan; unknown and
    /// revoked tokens yield nothing, and the store is untouched.
    pub fn validate_token(&self, token: &str) -> (r: Option<Identity>)
        requires
            self.inv(),
        ensures
            r is Some <==> token_lookup(self.tokens(), token@) is Some,
            r matches Some(ident) ==> token_lookup(self.tokens(), token@) matches Some(t)
                && same_identity(ident, self.identities()[t.identity_id - 1]),
    {
        let tok = token.to_owned();
        let n = self.tokens.len();
        let mut i: usize = n;
        proof {
            assert(self.tokens().take(n as int) =~= self.tokens());
        }
        while i > 0
            invariant
                self.inv(),
                n == self.tokens().len(),
                0 <= i <= n,
                token_lookup(self.tokens(), token@) == token_lookup(
                    self.tokens().take(i as int),
                    token@,
                ),
                tok@ == token@,
            decreases i,
        {
            proof {
                assert(self.tokens().take(i as int).last() == self.tokens()[i - 1]);
                assert(self.tokens().take(i as int).drop_last() =~= self.tokens().take(i - 1));
            }
            if self.tokens[i - 1].value.eq(&tok) {
                let entry_id = self.tokens[i - 1].identity_id;
                proof {
                    assert(self.tokens().take(i as int).last().value@ == token@);
                    assert(token_lookup(self.tokens().take(i as int), token@) == Some(
                        self.tokens()[i - 1],
                    ));
                    assert(1 <= self.tokens()[i - 1].identity_id <= self.identities().len());
                }
                let id_count = self.identities.len();
                proof {
                    assert(entry_id - 1 < id_count);
                }
                let idx = (entry_id - 1) as usize;
                let ident = &self.identities[idx];
                return Some(
                    Identity {
                        id: ident.id,
                        username: ident.username.clone(),
                        salt: crate::bytes::clone_bytes(&ident.salt),
                        password_verifier: crate::bytes::clone_bytes(&ident.password_verifier),
                        roles: crate::bytes::clone_strings(&ident.roles),
                    },
                );
            }
            i = i - 1;
        }
        proof {
            assert(self.tokens().take(0) =~= Seq::<AuthToken>::empty());
        }
        None
    }

    /// Removes every mapping for a presented token value. Idempotent:
    /// revoking an already revoked or unknown token changes nothing and is
    /// not an error.
    pub fn revoke_token(&mut self, token: &str)
        requires
            old(self).inv(),
        ensures
            final(self).inv(),
            final(self).identities() == old(self).identities(),
            final(self).tokens() == remove_token(old(self).tokens(), token@),
    {
        let tok = token.to_owned();
        let mut rest: Vec<AuthToken> = Vec::new();
        core::mem::swap(&mut self.tokens, &mut rest);
        let ghost orig = rest@;
        let n = rest.len();
        let mut done: usize = 0;
        while rest.len() > 0
            invariant
                orig == old(self).tokens(),
                n == orig.len(),
                done == n - rest.len(),
                0 <= done <= n,
                rest@ =~= orig.skip(done as int),
                self.tokens@ == remove_token(orig.take(done as int), token@),
                self.identities@ == old(self).identities@,
                tok@ == token@,
                old(self).inv(),
                forall|k: int|
                    0 <= k < self.tokens@.len() ==> 1 <= (#[trigger] self.tokens@[k]).identity_id
                        <= self.identities@.len(),
            decreases rest.len(),
        {
            let t = rest.remove(0);
            proof {
                assert(t == orig[done as int]);
                assert(orig.take(done + 1 as int).drop_last() =~= orig.take(done as int));
                assert(orig.take(done + 1 as int).last() == orig[done as int]);
                assert(rest@ =~= orig.skip(done + 1 as int));
            }
            if !t.value.eq(&tok) {
                proof {
                    assert(1 <= old(self).tokens()[done as int].identity_id <= old(
                        self,
                    ).identities().len());
                }
                self.tokens.push(t);
            }
            done = done + 1;
        }
        proof {
            assert(orig.take(n as int) =~= orig);
        }
    }

    /// Replaces an identity's verifier after the old password re-proves
    /// itself; a fresh salt is drawn for the new verifier. Every failure is
    /// the same `InvalidCredentials`.
    pub fn change_password(
        &mut self,
        identity_id: u64,
        old_password: &str,
        new_password: &str,
    ) -> (r: Result<(), CryptoError>)
        requires
            old(self).inv(),
        ensures
            final(self).inv(),
            final(self).tokens() == old(self).tokens(),
            r is Ok <==> (1 <= identity_id <= old(self).identities().len() && {
                let ident = old(self).identities()[identity_id - 1];
                ident.password_verifier@ == verifier_of(ident.salt@, old_password.spec_bytes())
            }),
            r is Err ==> r == Result::<(), CryptoError>::Err(CryptoError::InvalidCredentials)
                && final(self).identities() == old(self).identities(),
            r is Ok ==> {
                let before = old(self).identities()[identity_id - 1];
                let after = final(self).identities()[identity_id - 1];
                &&& final(self).identities().len() == old(self).identities().len()
                &&& forall|i: int|
                    0 <= i < old(self).identities().len() && i != identity_id - 1
                        ==> final(self).identities()[i] == #[trigger] old(self).identities()[i]
                &&& after.id == before.id
                &&& after.username@ == before.username@
                &&& after.roles@ == before.roles@
                &&& after.salt@.len() == 16
                &&& after.password_verifier@ == verifier_of(
                    after.salt@,
                    new_password.spec_bytes(),
                )
            },
    {
        if identity_id == 0 || identity_id > self.identities.len() as u64 {
            return Err(CryptoError::InvalidCredentials);
        }
        let idx = (identity_id - 1) as usize;
        let mut hash_input = crate::bytes::clone_bytes(&self.identities[idx].salt);
        crate::bytes::append_bytes(&mut hash_input, old_password.as_bytes());
        let candidate = sha256(hash_input.as_slice());
        if !constant_time_eq(candidate.as_slice(), self.identities[idx].password_verifier.as_slice())
        {
            return Err(CryptoError::InvalidCredentials);
        }
        let new_salt = crate::rng::random_bytes(16);
        let mut new_input = crate::bytes::clone_bytes(&new_salt);
        crate::bytes::append_bytes(&mut new_input, new_password.as_bytes());
        let new_verifier = sha256(new_input.as_slice());
        let mut ident = self.identities.remove(idx);
        ident.salt = new_salt;
        ident.password_verifier = new_verifier;
        self.identities.insert(idx, ident);
        proof {
            assert forall|i: int|
                0 <= i < old(self).identities().len() && i != identity_id - 1 implies
            self.identities()[i] == #[trigger] old(self).identities()[i] by {
                if i < identity_id - 1 {
                } else {
                }
            }
            let ids = self.identities();
            assert(ids[identity_id - 1].username@ == old(self).identities()[
                identity_id - 1
            ].username@);
            assert(ids[identity_id - 1].id == old(self).identities()[identity_id - 1].id);
            assert forall|i: int| 0 <= i < ids.len() implies (#[trigger] ids[i]).id == i + 1 by {
                assert(old(self).identities()[i].id == i + 1);
            }
            assert forall|i: int, j: int| 0 <= i < j < ids.len() implies (#[trigger] ids[i]).username@
                != (#[trigger] ids[j]).username@ by {
                assert(old(self).identities()[i].username@ != old(self).identities()[j].username@);
                assert(ids[i].username@ == old(self).identities()[i].username@);
                assert(ids[j].username@ == old(self).identities()[j].username@);
            }
            assert forall|k: int| 0 <= k < self.tokens().len() implies 1 <= (#[trigger] self.tokens()[k]).identity_id
                <= ids.len() by {
                assert(1 <= old(self).tokens()[k].identity_id <= old(self).identities().len());
            }
        }
        Ok(())
    }
}

/// Registration establishes authentication: a freshly registered identity
/// authenticates with its password, and any password whose salted hash
/// differs from the registered one is rejected.
pub proof fn lemma_register_then_authenticate(
    ids: Seq<Identity>,
    ident: Identity,
    password: Seq<u8>,
    other: Seq<u8>,
)
    requires
        forall|j: int| 0 <= j < ids.len() ==> (#[trigger] ids[j]).username@ != ident.username@,
        ident.password_verifier@ == verifier_of(ident.salt@, password),
    ensures
        auth_check(ids.push(ident), ident.username@, password),
        verifier_of(ident.salt@, other) != verifier_of(ident.salt@, password) ==> !auth_check(
            ids.push(ident),
            ident.username@,
            other,
        ),
    decreases ids.len(),
{
    lemma_find_user_push_fresh(ids, ident);
}

/// Scanning for a username that no existing identity carries finds exactly
/// the newly appended identity.
pub proof fn lemma_find_user_push_fresh(ids: Seq<Identity>, ident: Identity)
    requires
        forall|j: int| 0 <= j < ids.len() ==> (#[trigger] ids[j]).username@ != ident.username@,
    ensures
        find_user(ids.push(ident), ident.username@) == Some(ident),
    decreases ids.len(),
{
    if ids.len() == 0 {
        assert(ids.push(ident)[0] == ident);
    } else {
        assert(ids.push(ident)[0] == ids[0]);
        assert(ids.push(ident).drop_first() =~= ids.drop_first().push(ident));
        lemma_find_user_push_fresh(ids.drop_first(), ident);
    }
}

/// A username the scan does not find is carried by no identity at all.
pub proof fn lemma_find_user_none(ids: Seq<Identity>, name: Seq<char>)
    requires
        find_user(ids, name) is None,
    ensures
        forall|j: int| 0 <= j < ids.len() ==> (#[trigger] ids[j]).username@ != name,
    decreases ids.len(),
{
    if ids.len() > 0 {
        lemma_find_user_none(ids.drop_first(), name);
        assert forall|j: int| 0 <= j < ids.len() implies (#[trigger] ids[j]).username@ != name by {
            if j > 0 {
                assert(ids[j] == ids.drop_first()[j - 1]);
            }
        }
    }
}

/// Whatever the username scan returns is an element of the store.
pub proof fn lemma_find_user_is_element(ids: Seq<Identity>, name: Seq<char>)
    requires
        find_user(ids, name) is Some,
    ensures
        exists|k: int|
            0 <= k < ids.len() && ids[k] == find_user(ids, name).unwrap() && (#[trigger] ids[k]).username@
                == name,
    decreases ids.len(),
{
    if ids.len() > 0 {
        if ids[0].username@ == name {
            assert(ids[0] == find_user(ids, name).unwrap());
        } else {
            lemma_find_user_is_element(ids.drop_first(), name);
            let k = choose|k: int|
                0 <= k < ids.drop_first().len() && ids.drop_first()[k] == find_user(
                    ids.drop_first(),
                    name,
                ).unwrap() && (#[trigger] ids.drop_first()[k]).username@ == name;
            assert(ids[k + 1] == ids.drop_first()[k]);
        }
    }
}

/// A token just issued validates: looking its value up in the extended
/// store yields exactly the new entry.
pub proof fn lemma_issued_token_validates(toks: Seq<AuthToken>, t: AuthToken)
    ensures
        token_lookup(toks.push(t), t.value@) == Some(t),
{
    assert(toks.push(t).last() == t);
}

/// Authenticate, issue, validate: after a successful authentication pushed
/// token `t` for the identity that a username resolves to, validating `t`
/// resolves to that same identity.
pub proof fn lemma_token_round_trip(
    m: AuthManager,
    name: Seq<char>,
    ident: Identity,
    t: AuthToken,
)
    requires
        m.inv(),
        find_user(m.identities(), name) == Some(ident),
        t.identity_id == ident.id,
        m.tokens().len() > 0,
        m.tokens().last() == t,
    ensures
        token_lookup(m.tokens(), t.value@) == Some(t),
        1 <= t.identity_id <= m.identities().len(),
        m.identities()[t.identity_id - 1] == ident,
{
    assert(token_lookup(m.tokens(), t.value@) == Some(t));
    lemma_find_user_is_element(m.identities(), name);
    let k = choose|k: int|
        0 <= k < m.identities().len() && m.identities()[k] == find_user(
            m.identities(),
            name,
        ).unwrap() && (#[trigger] m.identities()[k]).username@ == name;
    assert(m.identities()[k].id == k + 1);
}

/// A revoked token no longer validates: after every entry carrying a value
/// is removed, looking that value up yields nothing.
pub proof fn lemma_revoked_token_invalid(toks: Seq<AuthToken>, value: Seq<char>)
    ensures
        token_lookup(remove_token(toks, value), value) is None,
    decreases toks.len(),
{
    if toks.len() > 0 {
        lemma_revoked_token_invalid(toks.drop_last(), value);
        if toks.last().value@ != value {
            let kept = remove_token(toks.drop_last(), value).push(toks.last());
            assert(kept.last() == toks.last());
            assert(kept.drop_last() =~= remove_token(toks.drop_last(), value));
        }
    }
}

} // verus!
