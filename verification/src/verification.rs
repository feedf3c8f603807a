//! Account verification by emailed token.

use vstd::prelude::*;
use vstd::string::StringSliceAdditionalSpecFns;
use crate::auth::verifier_of;
use crate::hashing::sha256;

verus! {

/// A user whose account awaits verification. The password is kept only as
/// a salted hash.
#[derive(Debug)]
pub struct User {
    username: String,
    email: String,
    salt: Vec<u8>,
    password_verifier: Vec<u8>,
    verified: bool,
}

impl User {
    /// The user's username.
    pub closed spec fn spec_username(&self) -> Seq<char> {
        self.username@
    }

    /// The user's email address.
    pub closed spec fn spec_email(&self) -> Seq<char> {
        self.email@
    }

    /// Whether the account has been verified.
    pub closed spec fn spec_verified(&self) -> bool {
        self.verified
    }

    /// The salt of the stored verifier.
    pub closed spec fn spec_salt(&self) -> Seq<u8> {
        self.salt@
    }

    /// The stored salted hash of the password.
    pub closed spec fn spec_password_verifier(&self) -> Seq<u8> {
        self.password_verifier@
    }

    /// Creates a new, unverified user, hashing the password under a fresh
    /// salt.
    pub fn new(username: &str, email: &str, password: &str) -> (r: User)
        ensures
            r.spec_username() == username@,
            r.spec_email() == email@,
            !r.spec_verified(),
            r.spec_salt().len() == 16,
            r.spec_password_verifier() == verifier_of(r.spec_salt(), password.spec_bytes()),
    {
        let salt = crate::rng::random_bytes(16);
        let mut input = crate::bytes::clone_bytes(&salt);
        crate::bytes::append_bytes(&mut input, password.as_bytes());
        let verifier = sha256(input.as_slice());
        User {
            username: username.to_owned(),
            email: email.to_owned(),
            salt,
            password_verifier: verifier,
            verified: false,
        }
    }

    /// Gets the username of the user.
    pub fn get_username(&self) -> (r: &str)
        ensures
            r@ == self.spec_username(),
    {
        self.username.as_str()
    }

    /// Gets the verification status of the user.
    pub fn is_verified(&self) -> (r: bool)
        ensures
            r == self.spec_verified(),
    {
        self.verified
    }

    /// Sets the verification status of the user.
    pub fn set_verified(&mut self, verified: bool)
        ensures
            final(self).spec_verified() == verified,
            final(self).spec_username() == old(self).spec_username(),
            final(self).spec_email() == old(self).spec_email(),
            final(self).spec_salt() == old(self).spec_salt(),
            final(self).spec_password_verifier() == old(self).spec_password_verifier(),
    {
        self.verified = verified;
    }

    /// Verifies the user's account; the token is accepted as delivered.
    pub fn verify_account(&mut self, token: &str) -> (r: Result<(), String>)
        ensures
            r is Ok,
            final(self).spec_verified(),
            final(self).spec_username() == old(self).spec_username(),
            final(self).spec_email() == old(self).spec_email(),
            final(self).spec_salt() == old(self).spec_salt(),
            final(self).spec_password_verifier() == old(self).spec_password_verifier(),
    {
        let _ = token;
        self.set_verified(true);
        Ok(())
    }
}

} // verus!
