//! User registration: password strength and email checks.

use vstd::prelude::*;
use vstd::string::StringExecFns;
use vstd::string::StringSliceAdditionalSpecFns;
use crate::auth::verifier_of;
use crate::hashing::sha256;

verus! {

/// A registering user. The password is kept only as a salted hash together
/// with its length, which the strength check needs.
#[derive(Debug)]
pub struct User {
    username: String,
    email: String,
    salt: Vec<u8>,
    password_verifier: Vec<u8>,
    password_length: usize,
}

impl User {
    /// The user's username.
    pub closed spec fn spec_username(&self) -> Seq<char> {
        self.username@
    }

    /// The user's email address.
    pub closed spec fn spec_email(&self) -> Seq<char> {
        self.email@
    }

    /// The salt of the stored verifier.
    pub closed spec fn spec_salt(&self) -> Seq<u8> {
        self.salt@
    }

    /// The stored salted hash of the password.
    pub closed spec fn spec_verifier(&self) -> Seq<u8> {
        self.password_verifier@
    }

    /// The length in bytes of the password behind the verifier.
    pub closed spec fn spec_password_length(&self) -> int {
        self.password_length as int
    }

    /// Creates a new user, hashing the password under a fresh salt.
    pub fn new(username: &str, email: &str, password: &str) -> (r: User)
        ensures
            r.spec_username() == username@,
            r.spec_email() == email@,
            r.spec_salt().len() == 16,
            r.spec_verifier() == verifier_of(r.spec_salt(), password.spec_bytes()),
            r.spec_password_length() == password.spec_bytes().len(),
    {
        let salt = crate::rng::random_bytes(16);
        let mut input = crate::bytes::clone_bytes(&salt);
        crate::bytes::append_bytes(&mut input, password.as_bytes());
        let verifier = sha256(input.as_slice());
        User {
            username: username.to_owned(),
            email: email.to_owned(),
            salt,
            password_verifier: verifier,
            password_length: password.as_bytes().len(),
        }
    }

    /// Gets the username of the user.
    pub fn get_username(&self) -> (r: &str)
        ensures
            r@ == self.spec_username(),
    {
        self.username.as_str()
    }

    /// Gets the email of the user.
    pub fn get_email(&self) -> (r: &str)
        ensures
            r@ == self.spec_email(),
    {
        self.email.as_str()
    }

    /// Sets the email of the user.
    pub fn set_email(&mut self, email: &str)
        ensures
            final(self).spec_email() == email@,
            final(self).spec_username() == old(self).spec_username(),
            final(self).spec_salt() == old(self).spec_salt(),
            final(self).spec_verifier() == old(self).spec_verifier(),
            final(self).spec_password_length() == old(self).spec_password_length(),
    {
        self.email = email.to_owned();
    }

    /// Checks if the password meets the required criteria: at least eight
    /// bytes long.
    pub fn is_password_valid(&self) -> (r: bool)
        ensures
            r == (self.spec_password_length() >= 8),
    {
        self.password_length >= 8
    }

    /// Registers the user: succeeds exactly when the password is valid.
    pub fn register(&self) -> (r: Result<(), String>)
        ensures
            r is Ok <==> self.spec_password_length() >= 8,
            r matches Err(m) ==> m@ == "Password is too short"@,
    {
        if self.is_password_valid() {
            Ok(())
        } else {
            Err(String::from_str("Password is too short"))
        }
    }

    /// Updates the username of the user.
    pub fn update_username(&mut self, new_username: &str)
        ensures
            final(self).spec_username() == new_username@,
            final(self).spec_email() == old(self).spec_email(),
            final(self).spec_salt() == old(self).spec_salt(),
            final(self).spec_verifier() == old(self).spec_verifier(),
            final(self).spec_password_length() == old(self).spec_password_length(),
    {
        self.username = new_username.to_owned();
    }

    /// Checks if the user's email is valid: it must contain an at sign.
    pub fn is_email_valid(&self) -> (r: bool)
        ensures
            r == exists|i: int| 0 <= i < self.spec_email().len() && self.spec_email()[i] == '@',
    {
        let email = self.email.as_str();
        let n = email.unicode_len();
        let mut i: usize = 0;
        while i < n
            invariant
                n == self.spec_email().len(),
                email@ == self.spec_email(),
                0 <= i <= n,
                forall|j: int| 0 <= j < i ==> self.spec_email()[j] != '@',
            decreases n - i,
        {
            if email.get_char(i) == '@' {
                return true;
            }
            i = i + 1;
        }
        false
    }

    /// Updates the user's password, drawing a fresh salt.
    pub fn update_password(&mut self, new_password: &str)
        ensures
            final(self).spec_username() == old(self).spec_username(),
            final(self).spec_email() == old(self).spec_email(),
            final(self).spec_salt().len() == 16,
            final(self).spec_verifier() == verifier_of(
                final(self).spec_salt(),
                new_password.spec_bytes(),
            ),
            final(self).spec_password_length() == new_password.spec_bytes().len(),
    {
        let salt = crate::rng::random_bytes(16);
        let mut input = crate::bytes::clone_bytes(&salt);
        crate::bytes::append_bytes(&mut input, new_password.as_bytes());
        let verifier = sha256(input.as_slice());
        self.salt = salt;
        self.password_verifier = verifier;
        self.password_length = new_password.as_bytes().len();
    }

    /// Sets the user's email to a new value; the confirmation mail itself
    /// is sent by the caller's mail layer.
    pub fn set_email_with_confirmation(&mut self, new_email: &str)
        ensures
            final(self).spec_email() == new_email@,
            final(self).spec_username() == old(self).spec_username(),
            final(self).spec_salt() == old(self).spec_salt(),
            final(self).spec_verifier() == old(self).spec_verifier(),
            final(self).spec_password_length() == old(self).spec_password_length(),
    {
        self.set_email(new_email);
    }

    /// Builds the stand-in user record a username resolves to while no
    /// backing store is attached.
    pub fn find_user_by_username(username: &str) -> (r: Option<User>)
        ensures
            r matches Some(u) && u.spec_username() == username@ && u.spec_email()
                == "user@example.com"@,
    {
        Some(User::new(username, "user@example.com", "password123"))
    }
}

} // verus!
