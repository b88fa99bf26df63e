use vstd::prelude::*;

verus! {

/// A registered account.
#[derive(Debug, PartialEq, Eq)]
pub struct User {
    pub id: u128,
    pub isadmin: bool,
    pub email: String,
    pub username: String,
    /// The argon2 encoding of the password.
    pub hash: String,
    /// Seconds since the Unix epoch.
    pub created_at: i64,
}

impl Clone for User {
    fn clone(&self) -> (r: Self)
        ensures
            r == *self,
    {
        User {
            id: self.id,
            isadmin: self.isadmin,
            email: self.email.clone(),
            username: self.username.clone(),
            hash: self.hash.clone(),
            created_at: self.created_at,
        }
    }
}

/// An active session: proof of a successful login, keyed by its token.
///
/// The email and the admin flag are snapshots taken at login, so that
/// resolving an identity costs one lookup.
#[derive(Debug, PartialEq, Eq)]
pub struct Session {
    pub session_id: u128,
    pub user_id: u128,
    pub email: String,
    /// Seconds since the Unix epoch; the session is valid strictly before.
    pub expire_at: i64,
    pub isadmin: bool,
}

impl Clone for Session {
    fn clone(&self) -> (r: Self)
        ensures
            r == *self,
    {
        Session {
            session_id: self.session_id,
            user_id: self.user_id,
            email: self.email.clone(),
            expire_at: self.expire_at,
            isadmin: self.isadmin,
        }
    }
}

/// The identity resolved from a valid session, for one request.
#[derive(Debug, PartialEq, Eq)]
pub struct LoggedUser {
    pub id: u128,
    pub email: String,
    pub isadmin: bool,
}

impl Clone for LoggedUser {
    fn clone(&self) -> (r: Self)
        ensures
            r == *self,
    {
        LoggedUser { id: self.id, email: self.email.clone(), isadmin: self.isadmin }
    }
}

impl LoggedUser {
    pub open spec fn spec_from_session(s: Session) -> LoggedUser {
        LoggedUser { id: s.user_id, email: s.email, isadmin: s.isadmin }
    }

    /// The identity that a session carries.
    pub fn from_session(s: &Session) -> (r: LoggedUser)
        ensures
            r == Self::spec_from_session(*s),
    {
        LoggedUser { id: s.user_id, email: s.email.clone(), isadmin: s.isadmin }
    }
}

} // verus!
