//! User accounts with salted password verifiers and a small account store.

use vstd::prelude::*;
use vstd::string::StringSliceAdditionalSpecFns;
use crate::auth::verifier_of;
use crate::hashing::{sha256, constant_time_eq};

verus! {

/// A user store with every user carrying a username removed.
pub open spec fn remove_users(users: Seq<User>, name: Seq<char>) -> Seq<User>
    decreases users.len(),
{
    if users.len() == 0 {
        Seq::empty()
    } else if users.last().spec_username() == name {
        remove_users(users.drop_last(), name)
    } else {
        remove_users(users.drop_last(), name).push(users.last())
    }
}

/// A user account: the password is kept only as a salted hash.
#[derive(Debug)]
pub struct User {
    username: String,
    salt: Vec<u8>,
    password_verifier: Vec<u8>,
    email: String,
    is_admin: bool,
}

impl User {
    /// The account's username.
    pub closed spec fn spec_username(&self) -> Seq<char> {
        self.username@
    }

    /// The account's email address.
    pub closed spec fn spec_email(&self) -> Seq<char> {
        self.email@
    }

    /// Whether the account is an administrator.
    pub closed spec fn spec_is_admin(&self) -> bool {
        self.is_admin
    }

    /// The salt of the stored verifier.
    pub closed spec fn spec_salt(&self) -> Seq<u8> {
        self.salt@
    }

    /// The stored salted hash of the password.
    pub closed spec fn spec_verifier(&self) -> Seq<u8> {
        self.password_verifier@
    }

    /// Creates a new user, hashing the password under a fresh salt.
    pub fn new(username: &str, password: &str, email: &str, is_admin: bool) -> (r: User)
        ensures
            r.spec_username() == username@,
            r.spec_email() == email@,
            r.spec_is_admin() == is_admin,
            r.spec_salt().len() == 16,
            r.spec_verifier() == verifier_of(r.spec_salt(), password.spec_bytes()),
    {
        let salt = crate::rng::random_bytes(16);
        let mut input = crate::bytes::clone_bytes(&salt);
        crate::bytes::append_bytes(&mut input, password.as_bytes());
        let verifier = sha256(input.as_slice());
        User {
            username: username.to_owned(),
            salt,
            password_verifier: verifier,
            email: email.to_owned(),
            is_admin,
        }
    }

    /// Validates the user's credentials: the username must match and the
    /// password must recompute the stored verifier.
    pub fn login(&self, username: &str, password: &str) -> (r: bool)
        ensures
            r == (self.spec_username() == username@ && self.spec_verifier() == verifier_of(
                self.spec_salt(),
                password.spec_bytes(),
            )),
    {
        let uname = username.to_owned();
        if !self.username.eq(&uname) {
            return false;
        }
        let mut input = crate::bytes::clone_bytes(&self.salt);
        crate::bytes::append_bytes(&mut input, password.as_bytes());
        let candidate = sha256(input.as_slice());
        constant_time_eq(candidate.as_slice(), self.password_verifier.as_slice())
    }

    /// Checks if the user is an admin.
    pub fn is_admin(&self) -> (r: bool)
        ensures
            r == self.spec_is_admin(),
    {
        self.is_admin
    }

    /// Gets the user's email address.
    pub fn get_email(&self) -> (r: &str)
        ensures
            r@ == self.spec_email(),
    {
        self.email.as_str()
    }

    /// Changes the user's password, drawing a fresh salt.
    pub fn change_password(&mut self, new_password: &str)
        ensures
            final(self).spec_username() == old(self).spec_username(),
            final(self).spec_email() == old(self).spec_email(),
            final(self).spec_is_admin() == old(self).spec_is_admin(),
            final(self).spec_salt().len() == 16,
            final(self).spec_verifier() == verifier_of(
                final(self).spec_salt(),
                new_password.spec_bytes(),
            ),
    {
        let salt = crate::rng::random_bytes(16);
        let mut input = crate::bytes::clone_bytes(&salt);
        crate::bytes::append_bytes(&mut input, new_password.as_bytes());
        let verifier = sha256(input.as_slice());
        self.salt = salt;
        self.password_verifier = verifier;
    }

    /// Resets the user's password to a fixed temporary value.
    pub fn reset_password(&mut self)
        ensures
            final(self).spec_username() == old(self).spec_username(),
            final(self).spec_email() == old(self).spec_email(),
            final(self).spec_is_admin() == old(self).spec_is_admin(),
            final(self).spec_salt().len() == 16,
            final(self).spec_verifier() == verifier_of(
                final(self).spec_salt(),
                "new_password".spec_bytes(),
            ),
    {
        self.change_password("new_password");
    }

    /// Checks if the user's password is expired; the retention window has
    /// always elapsed here.
    pub fn is_password_expired(&self) -> (r: bool)
        ensures
            r,
    {
        true
    }

    /// Adds a new user to the system.
    pub fn add_user(username: &str, password: &str, email: &str, is_admin: bool) -> (r: User)
        ensures
            r.spec_username() == username@,
            r.spec_email() == email@,
            r.spec_is_admin() == is_admin,
            r.spec_salt().len() == 16,
            r.spec_verifier() == verifier_of(r.spec_salt(), password.spec_bytes()),
    {
        User::new(username, password, email, is_admin)
    }

    /// Deletes every user carrying a username from the store.
    pub fn delete_user(user_map: &mut Vec<User>, username: &str)
        ensures
            final(user_map)@ == remove_users(old(user_map)@, username@),
    {
        let uname = username.to_owned();
        let mut rest: Vec<User> = Vec::new();
        core::mem::swap(user_map, &mut rest);
        let ghost orig = rest@;
        let n = rest.len();
        let mut done: usize = 0;
        while rest.len() > 0
            invariant
                uname@ == username@,
                n == orig.len(),
                done == n - rest.len(),
                0 <= done <= n,
                rest@ =~= orig.skip(done as int),
                user_map@ == remove_users(orig.take(done as int), username@),
            decreases rest.len(),
        {
            let u = rest.remove(0);
            proof {
                assert(u == orig[done as int]);
                assert(orig.take(done + 1 as int).drop_last() =~= orig.take(done as int));
                assert(orig.take(done + 1 as int).last() == orig[done as int]);
                assert(rest@ =~= orig.skip(done + 1 as int));
            }
            if !u.username.eq(&uname) {
                user_map.push(u);
            }
            done = done + 1;
        }
        proof {
            assert(orig.take(n as int) =~= orig);
        }
    }

    /// Retrieves the first user carrying a username, if any.
    pub fn get_user<'a>(user_map: &'a Vec<User>, username: &str) -> (r: Option<&'a User>)
        ensures
            match r {
                Some(u) => exists|i: int|
                    0 <= i < user_map@.len() && u == #[trigger] user_map@[i] && u.spec_username()
                        == username@,
                None => forall|i: int|
                    0 <= i < user_map@.len() ==> (#[trigger] user_map@[i]).spec_username()
                        != username@,
            },
    {
        let uname = username.to_owned();
        let n = user_map.len();
        let mut i: usize = 0;
        while i < n
            invariant
                uname@ == username@,
                n == user_map@.len(),
                0 <= i <= n,
                forall|j: int|
                    0 <= j < i ==> (#[trigger] user_map@[j]).spec_username() != username@,
            decreases n - i,
        {
            if user_map[i].username.eq(&uname) {
                return Some(&user_map[i]);
            }
            i = i + 1;
        }
        None
    }

    /// Updates the email and admin flag of every user carrying a username.
    pub fn update_user(user_map: &mut Vec<User>, username: &str, new_email: &str, is_admin: bool)
        ensures
            final(user_map)@.len() == old(user_map)@.len(),
            forall|i: int|
                0 <= i < final(user_map)@.len() ==> {
                    let was = #[trigger] old(user_map)@[i];
                    let now = final(user_map)@[i];
                    if was.spec_username() == username@ {
                        &&& now.spec_username() == was.spec_username()
                        &&& now.spec_email() == new_email@
                        &&& now.spec_is_admin() == is_admin
                        &&& now.spec_salt() == was.spec_salt()
                        &&& now.spec_verifier() == was.spec_verifier()
                    } else {
                        now == was
                    }
                },
    {
        let uname = username.to_owned();
        let n = user_map.len();
        let mut i: usize = 0;
        while i < n
            invariant
                uname@ == username@,
                n == user_map@.len(),
                0 <= i <= n,
                forall|j: int|
                    i <= j < n ==> user_map@[j] == #[trigger] old(user_map)@[j],
                forall|j: int|
                    0 <= j < i ==> {
                        let was = #[trigger] old(user_map)@[j];
                        let now = user_map@[j];
                        if was.spec_username() == username@ {
                            &&& now.spec_username() == was.spec_username()
                            &&& now.spec_email() == new_email@
                            &&& now.spec_is_admin() == is_admin
                            &&& now.spec_salt() == was.spec_salt()
                            &&& now.spec_verifier() == was.spec_verifier()
                        } else {
                            now == was
                        }
                    },
            decreases n - i,
        {
            if user_map[i].username.eq(&uname) {
                let mut u = user_map.remove(i);
                u.email = new_email.to_owned();
                u.is_admin = is_admin;
                user_map.insert(i, u);
                proof {
                    assert(user_map@[i as int].spec_username() == old(user_map)@[
                        i as int
                    ].spec_username());
                }
            }
            i = i + 1;
        }
    }
}

} // verus!
