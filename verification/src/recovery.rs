//! Password reset with reset tokens.

use vstd::prelude::*;
use vstd::string::StringExecFns;
use vstd::string::StringSliceAdditionalSpecFns;
use crate::auth::verifier_of;
use crate::hashing::sha256;

verus! {

/// A user whose password can be reset. The password is kept only as a
/// salted hash.
#[derive(Debug)]
pub struct User {
    username: String,
    email: String,
    salt: Vec<u8>,
    password_verifier: Vec<u8>,
}

impl User {
    /// The user's username.
    pub closed spec fn spec_username(&self) -> Seq<char> {
        self.username@
    }

    /// The user's email address.
    pub closed spec fn spec_email(&self) -> Seq<char> {
        self.email@
    }

    /// The salt of the stored verifier.
    pub closed spec fn spec_salt(&self) -> Seq<u8> {
        self.salt@
    }

    /// The stored salted hash of the password.
    pub closed spec fn spec_verifier(&self) -> Seq<u8> {
        self.password_verifier@
    }

    /// Creates a new user, hashing the password under a fresh salt.
    pub fn new(username: &str, email: &str, password: &str) -> (r: User)
        ensures
            r.spec_username() == username@,
            r.spec_email() == email@,
            r.spec_salt().len() == 16,
            r.spec_verifier() == verifier_of(r.spec_salt(), password.spec_bytes()),
    {
        let salt = crate::rng::random_bytes(16);
        let mut input = crate::bytes::clone_bytes(&salt);
        crate::bytes::append_bytes(&mut input, password.as_bytes());
        let verifier = sha256(input.as_slice());
        User {
            username: username.to_owned(),
            email: email.to_owned(),
            salt,
            password_verifier: verifier,
        }
    }

    /// Gets the username of the user.
    pub fn get_username(&self) -> (r: &str)
        ensures
            r@ == self.spec_username(),
    {
        self.username.as_str()
    }

    /// Resets the user's password, drawing a fresh salt.
    pub fn reset_password(&mut self, new_password: &str)
        ensures
            final(self).spec_username() == old(self).spec_username(),
            final(self).spec_email() == old(self).spec_email(),
            final(self).spec_salt().len() == 16,
            final(self).spec_verifier() == verifier_of(
                final(self).spec_salt(),
                new_password.spec_bytes(),
            ),
    {
        let salt = crate::rng::random_bytes(16);
        let mut input = crate::bytes::clone_bytes(&salt);
        crate::bytes::append_bytes(&mut input, new_password.as_bytes());
        let verifier = sha256(input.as_slice());
        self.salt = salt;
        self.password_verifier = verifier;
    }

    /// Validates the password reset token: it must be at least ten bytes.
    pub fn validate_reset_token(&self, token: &str) -> (r: bool)
        ensures
            r == (token.spec_bytes().len() >= 10),
    {
        token.as_bytes().len() >= 10
    }

    /// Performs the password reset when the token is valid; an invalid
    /// token changes nothing.
    pub fn reset_password_with_token(&mut self, token: &str, new_password: &str) -> (r: Result<
        (),
        String,
    >)
        ensures
            r is Ok <==> token.spec_bytes().len() >= 10,
            r matches Err(m) ==> m@ == "Invalid reset token"@ && *final(self) == *old(self),
            r is Ok ==> {
                &&& final(self).spec_username() == old(self).spec_username()
                &&& final(self).spec_email() == old(self).spec_email()
                &&& final(self).spec_salt().len() == 16
                &&& final(self).spec_verifier() == verifier_of(
                    final(self).spec_salt(),
                    new_password.spec_bytes(),
                )
            },
    {
        if self.validate_reset_token(token) {
            self.reset_password(new_password);
            Ok(())
        } else {
            Err(String::from_str("Invalid reset token"))
        }
    }
}

} // verus!
