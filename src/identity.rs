//! The identity extractor and the authorization gate.
use vstd::prelude::*;

use crate::errors::ServiceError;
use crate::ids::{now_timestamp, parse_id, parsed_uuid};
use crate::models::users::{LoggedUser, Session};
use crate::storage::{keys_unique, Row, Store};

verus! {

/// Whether `logged_user` may act on a resource owned by `owner_id`.
pub open spec fn spec_allow(logged_user: LoggedUser, owner_id: u128) -> bool {
    logged_user.isadmin || logged_user.id == owner_id
}

/// The authorization decision: administrators may act on everything, other
/// users on what they own.
pub fn allow(logged_user: &LoggedUser, owner_id: u128) -> (r: bool)
    ensures
        r == spec_allow(*logged_user, owner_id),
{
    logged_user.isadmin || logged_user.id == owner_id
}

/// The authorization gate: `AdminRequired` exactly where [`allow`] refuses.
pub fn authorize(logged_user: &LoggedUser, owner_id: u128) -> (r: Result<(), ServiceError>)
    ensures
        r is Ok <==> spec_allow(*logged_user, owner_id),
        r is Err ==> r == Err::<(), ServiceError>(ServiceError::AdminRequired),
{
    if allow(logged_user, owner_id) {
        Ok(())
    } else {
        Err(ServiceError::AdminRequired)
    }
}

/// Lets administrators through and refuses everyone else.
pub fn require_admin(logged_user: &LoggedUser) -> (r: Result<(), ServiceError>)
    ensures
        r is Ok <==> logged_user.isadmin,
        r is Err ==> r == Err::<(), ServiceError>(ServiceError::AdminRequired),
{
    if logged_user.isadmin {
        Ok(())
    } else {
        Err(ServiceError::AdminRequired)
    }
}

/// Whether a session with this token exists and is still valid at `now`.
pub open spec fn live_session(sessions: Seq<Session>, token: u128, now: i64) -> bool {
    exists|i: int|
        0 <= i < sessions.len() && (#[trigger] sessions[i]).session_id == token && now
            < sessions[i].expire_at
}

/// What presenting `token` at `now` yields: the identity of its session, or
/// `Unauthorized` where there is no such session or it has expired.
pub open spec fn spec_resolve(sessions: Seq<Session>, token: u128, now: i64) -> Result<LoggedUser, ServiceError> {
    if live_session(sessions, token, now) {
        let i = choose|i: int|
            0 <= i < sessions.len() && (#[trigger] sessions[i]).session_id == token && now
                < sessions[i].expire_at;
        Ok(LoggedUser::spec_from_session(sessions[i]))
    } else {
        Err(ServiceError::Unauthorized)
    }
}

/// What presenting the text `token` (if any) at `now` yields.
pub open spec fn spec_resolve_text(sessions: Seq<Session>, token: Option<Seq<char>>, now: i64) -> Result<LoggedUser, ServiceError> {
    match token {
        Some(t) => match parsed_uuid(t) {
            Some(k) => spec_resolve(sessions, k, now),
            None => Err(ServiceError::Unauthorized),
        },
        None => Err(ServiceError::Unauthorized),
    }
}

/// The characters of an optional text.
pub open spec fn text_view(t: Option<&str>) -> Option<Seq<char>> {
    match t {
        Some(t) => Some(t@),
        None => None,
    }
}

/// The identity that `token` carries at `now`; `Unauthorized` where no session
/// has that token or it has expired. Expired sessions stay in the store.
pub fn resolve_session(token: u128, now: i64, store: &Store) -> (r: Result<LoggedUser, ServiceError>)
    requires
        keys_unique(store@.sessions),
    ensures
        r == spec_resolve(store@.sessions, token, now),
{
    let ghost sessions = store@.sessions;
    match crate::storage::sessions_storage::get_session(token, store) {
        Ok(s) => {
            let ghost k = choose|k: int| 0 <= k < sessions.len() && sessions[k] == s;
            if now < s.expire_at {
                proof {
                    let i = choose|i: int|
                        0 <= i < sessions.len() && (#[trigger] sessions[i]).session_id == token && now
                            < sessions[i].expire_at;
                    assert(sessions[k].session_id == token);
                    if i != k {
                        assert(sessions[i].spec_key() != sessions[k].spec_key());
                    }
                }
                Ok(LoggedUser::from_session(&s))
            } else {
                proof {
                    if live_session(sessions, token, now) {
                        let i = choose|i: int|
                            0 <= i < sessions.len() && (#[trigger] sessions[i]).session_id == token
                                && now < sessions[i].expire_at;
                        assert(sessions[k].session_id == token);
                        assert(sessions[i].spec_key() == sessions[k].spec_key());
                    }
                }
                Err(ServiceError::Unauthorized)
            }
        },
        Err(_) => {
            proof {
                if live_session(sessions, token, now) {
                    let i = choose|i: int|
                        0 <= i < sessions.len() && (#[trigger] sessions[i]).session_id == token
                            && now < sessions[i].expire_at;
                    assert(sessions[i].spec_key() == token);
                }
            }
            Err(ServiceError::Unauthorized)
        },
    }
}

/// The identity that a request's session token carries at `now`.
pub fn resolve_identity(token: Option<&str>, now: i64, store: &Store) -> (r: Result<LoggedUser, ServiceError>)
    requires
        keys_unique(store@.sessions),
    ensures
        r == spec_resolve_text(store@.sessions, text_view(token), now),
{
    match token {
        Some(t) => match parse_id(t) {
            Ok(k) => resolve_session(k, now, store),
            Err(_) => Err(ServiceError::Unauthorized),
        },
        None => Err(ServiceError::Unauthorized),
    }
}

/// The identity that a request's session token carries now, by the clock.
pub fn identify(token: Option<&str>, store: &Store) -> (r: Result<LoggedUser, ServiceError>)
    requires
        keys_unique(store@.sessions),
    ensures
        exists|now: i64| r == #[trigger] spec_resolve_text(store@.sessions, text_view(token), now),
{
    let now = now_timestamp();
    resolve_identity(token, now, store)
}

} // verus!
