//! Login sessions.

use vstd::prelude::*;
use vstd::string::StringExecFns;
use crate::errors::CryptoError;

verus! {

/// A login session: whether a user is logged in, and under which user id.
#[derive(Debug)]
pub struct Session {
    logged_in: bool,
    user_id: Option<u64>,
}

impl Session {
    /// Whether the session is logged in.
    pub closed spec fn spec_logged_in(&self) -> bool {
        self.logged_in
    }

    /// The id of the logged-in user, if one was recorded.
    pub closed spec fn spec_user_id(&self) -> Option<u64> {
        self.user_id
    }

    /// Creates a new, logged-out session.
    pub fn new() -> (r: Session)
        ensures
            !r.spec_logged_in(),
            r.spec_user_id() is None,
    {
        Session { logged_in: false, user_id: None }
    }

    /// Logs the user in without recording an id.
    pub fn login(&mut self)
        ensures
            final(self).spec_logged_in(),
            final(self).spec_user_id() == old(self).spec_user_id(),
    {
        self.logged_in = true;
    }

    /// Logs the user in with a specific user id.
    pub fn login_with_id(&mut self, user_id: u64)
        ensures
            final(self).spec_logged_in(),
            final(self).spec_user_id() == Some(user_id),
    {
        self.logged_in = true;
        self.user_id = Some(user_id);
    }

    /// Logs the user out.
    pub fn logout(&mut self)
        ensures
            !final(self).spec_logged_in(),
            final(self).spec_user_id() is None,
    {
        self.logged_in = false;
        self.user_id = None;
    }

    /// Checks if the user is logged in.
    pub fn is_logged_in(&self) -> (r: bool)
        ensures
            r == self.spec_logged_in(),
    {
        self.logged_in
    }

    /// Gets the id of the logged-in user.
    pub fn get_user_id(&self) -> (r: Option<u64>)
        ensures
            r == self.spec_user_id(),
    {
        self.user_id
    }

    /// Sets the id of the logged-in user.
    pub fn set_user_id(&mut self, user_id: u64)
        ensures
            final(self).spec_user_id() == Some(user_id),
            final(self).spec_logged_in() == old(self).spec_logged_in(),
    {
        self.user_id = Some(user_id);
    }

    /// Logs the user in with a username and password; only the built-in
    /// administrator pair is accepted.
    pub fn login_with_username_password(&mut self, username: &str, password: &str) -> (r: Result<
        (),
        CryptoError,
    >)
        ensures
            r is Ok <==> (username@ == "admin"@ && password@ == "password"@),
            r is Ok ==> final(self).spec_logged_in() && final(self).spec_user_id() == Some(1u64),
            r is Err ==> r == Result::<(), CryptoError>::Err(CryptoError::InvalidCredentials)
                && *final(self) == *old(self),
    {
        let uname = username.to_owned();
        let pword = password.to_owned();
        let admin = String::from_str("admin");
        let secret = String::from_str("password");
        if uname.eq(&admin) && pword.eq(&secret) {
            self.logged_in = true;
            self.user_id = Some(1);
            Ok(())
        } else {
            Err(CryptoError::InvalidCredentials)
        }
    }

    /// Logs the user in with a fingerprint; the fingerprint reader's slot
    /// is fixed.
    pub fn login_with_fingerprint(&mut self, fingerprint: &str)
        ensures
            final(self).spec_logged_in(),
            final(self).spec_user_id() == Some(2u64),
    {
        let _ = fingerprint;
        self.logged_in = true;
        self.user_id = Some(2);
    }

    /// Logs the user in with a security token; the token slot is fixed.
    pub fn login_with_token(&mut self, token: &str)
        ensures
            final(self).spec_logged_in(),
            final(self).spec_user_id() == Some(3u64),
    {
        let _ = token;
        self.logged_in = true;
        self.user_id = Some(3);
    }

    /// Logs the user in with a smart card; the card slot is fixed.
    pub fn login_with_smart_card(&mut self, card_id: &str)
        ensures
            final(self).spec_logged_in(),
            final(self).spec_user_id() == Some(4u64),
    {
        let _ = card_id;
        self.logged_in = true;
        self.user_id = Some(4);
    }

    /// Checks if the user is an admin: user id one is the administrator.
    pub fn is_admin(&self) -> (r: bool)
        ensures
            r == (self.spec_user_id() == Some(1u64)),
    {
        match self.user_id {
            Some(id) => id == 1,
            None => false,
        }
    }
}

} // verus!
