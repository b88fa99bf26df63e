use vstd::prelude::*;

verus! {

/// How long invitations, reset requests and sessions stay valid: 24 hours.
pub const TOKEN_TTL_SECONDS: i64 = 86400;

/// The latest creation time whose expiry still fits in an `i64`.
pub const LATEST_TIMESTAMP: i64 = 9223372036854689407;

/// An invitation to register, valid until `expires_at`.
#[derive(Debug, PartialEq, Eq)]
pub struct Invitation {
    pub id: u128,
    pub email: String,
    pub username: String,
    /// The argon2 encoding of a password chosen at invitation time, if any.
    pub password_plain: Option<String>,
    pub expires_at: i64,
    pub reset_request_id: Option<u128>,
    pub updated_by: String,
}

/// A request to reset the password of the account with `email`.
#[derive(Debug, PartialEq, Eq)]
pub struct ResetPasswordRequest {
    pub id: u128,
    pub email: String,
    pub expires_at: i64,
}

pub fn clone_opt_string(s: &Option<String>) -> (r: Option<String>)
    ensures
        r == *s,
{
    match s {
        Some(v) => Some(v.clone()),
        None => None,
    }
}

impl Clone for Invitation {
    fn clone(&self) -> (r: Self)
        ensures
            r == *self,
    {
        Invitation {
            id: self.id,
            email: self.email.clone(),
            username: self.username.clone(),
            password_plain: clone_opt_string(&self.password_plain),
            expires_at: self.expires_at,
            reset_request_id: self.reset_request_id,
            updated_by: self.updated_by.clone(),
        }
    }
}

impl Clone for ResetPasswordRequest {
    fn clone(&self) -> (r: Self)
        ensures
            r == *self,
    {
        ResetPasswordRequest {
            id: self.id,
            email: self.email.clone(),
            expires_at: self.expires_at,
        }
    }
}

impl Invitation {
    /// A fresh invitation created at `now`, recorded as made by `email`.
    pub fn from_details(
        id: u128,
        email: &String,
        username: String,
        password_plain: Option<String>,
        reset_request_id: Option<u128>,
        now: i64,
    ) -> (r: Invitation)
        requires
            now <= LATEST_TIMESTAMP,
        ensures
            r.id == id,
            r.email == *email,
            r.username == username,
            r.password_plain == password_plain,
            r.expires_at == now + TOKEN_TTL_SECONDS,
            r.reset_request_id == reset_request_id,
            r.updated_by == *email,
    {
        Invitation {
            id,
            email: email.clone(),
            username,
            password_plain,
            expires_at: now + TOKEN_TTL_SECONDS,
            reset_request_id,
            updated_by: email.clone(),
        }
    }
}

impl ResetPasswordRequest {
    /// A fresh reset request for `email`, created at `now`.
    pub fn from_details(id: u128, email: &String, now: i64) -> (r: ResetPasswordRequest)
        requires
            now <= LATEST_TIMESTAMP,
        ensures
            r.id == id,
            r.email == *email,
            r.expires_at == now + TOKEN_TTL_SECONDS,
    {
        ResetPasswordRequest { id, email: email.clone(), expires_at: now + TOKEN_TTL_SECONDS }
    }
}

} // verus!
