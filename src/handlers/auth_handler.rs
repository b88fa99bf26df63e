use vstd::prelude::*;

use crate::errors::ServiceError;
use crate::identity::{live_session, spec_resolve};
use crate::ids::{new_id, now_timestamp};
use crate::models::invitations::{LATEST_TIMESTAMP, TOKEN_TTL_SECONDS};
use crate::models::users::{LoggedUser, Session, User};
use crate::storage::sessions_storage::{create_session, delete_session, with_sessions};
use crate::storage::users_storage::get_by_email;
use crate::storage::{
    has_key, keys_unique, lemma_filter_len, not_belongs_to, outside_group, Row, Store, StoreView,
};
use crate::utils::{argon2_verdict, verify};

verus! {

/// The credentials of a login.
pub struct AuthData {
    pub email: String,
    pub password: String,
}

/// Whether some user has this email and a hash that this password matches.
pub open spec fn credentials_match(users: Seq<User>, email: Seq<char>, password: Seq<char>) -> bool {
    exists|i: int|
        0 <= i < users.len() && (#[trigger] users[i]).email@ == email && argon2_verdict(
            users[i].hash@,
            password,
        ) == Some(true)
}

/// How a login with `email` and `password` at `now`, handing out `token`,
/// takes the store from `before` to `after` with result `r`: on matching
/// credentials and a fresh token one session is added for that user; on any
/// failure nothing changes and the error is `Unauthorized`, so that a missing
/// account and a wrong password look alike.
pub open spec fn login_post(
    before: StoreView,
    after: StoreView,
    email: Seq<char>,
    password: Seq<char>,
    token: u128,
    now: i64,
    r: Result<Session, ServiceError>,
) -> bool {
    &&& r is Ok <==> credentials_match(before.users, email, password) && !has_key(before.sessions, token)
    &&& match r {
        Ok(s) => exists|i: int|
            0 <= i < before.users.len() && (#[trigger] before.users[i]).email@ == email && s
                == (Session {
                session_id: token,
                user_id: before.users[i].id,
                email: before.users[i].email,
                expire_at: (now + TOKEN_TTL_SECONDS) as i64,
                isadmin: before.users[i].isadmin,
            }) && after == with_sessions(before, before.sessions.push(s)),
        Err(e) => e == ServiceError::Unauthorized && after == before,
    }
}

/// Checks the credentials and opens a session with token `token` at `now`.
pub fn query(auth_data: &AuthData, token: u128, now: i64, store: &mut Store) -> (r: Result<Session, ServiceError>)
    requires
        old(store)@.wf(),
        now <= LATEST_TIMESTAMP,
    ensures
        final(store)@.wf(),
        login_post(old(store)@, final(store)@, auth_data.email@, auth_data.password@, token, now, r),
{
    let ghost users = store@.users;
    let user = match get_by_email(&auth_data.email, store) {
        Ok(u) => u,
        Err(_) => return Err(ServiceError::Unauthorized),
    };
    let ghost k = choose|k: int| 0 <= k < users.len() && users[k] == user;
    proof {
        assert forall|j: int| 0 <= j < users.len() && (#[trigger] users[j]).email@ == auth_data.email@ implies j == k by {
            if j != k {
                assert(users[j].email@ != users[k].email@);
            }
        }
    }
    match verify(user.hash.as_str(), auth_data.password.as_str()) {
        Ok(true) => {},
        _ => return Err(ServiceError::Unauthorized),
    }
    let ghost sessions = store@.sessions;
    match create_session(token, user.id, &user.email, user.isadmin, now, store) {
        Ok(s) => {
            assert(s == (Session {
                session_id: token,
                user_id: users[k].id,
                email: users[k].email,
                expire_at: (now + TOKEN_TTL_SECONDS) as i64,
                isadmin: users[k].isadmin,
            }));
            Ok(s)
        },
        Err(_) => Err(ServiceError::Unauthorized),
    }
}

/// Logs in: checks the credentials and opens a session with a fresh random
/// token, valid for 24 hours from now by the clock.
pub fn login(auth_data: &AuthData, store: &mut Store) -> (r: Result<Session, ServiceError>)
    requires
        old(store)@.wf(),
    ensures
        final(store)@.wf(),
        exists|token: u128, now: i64|
            now <= LATEST_TIMESTAMP && #[trigger] login_post(
                old(store)@,
                final(store)@,
                auth_data.email@,
                auth_data.password@,
                token,
                now,
                r,
            ),
{
    let token = new_id();
    let now = now_timestamp();
    query(auth_data, token, now, store)
}

/// Logs out: ends every session of the user. Finding none is no error, so a
/// repeated logout succeeds as the first did.
pub fn logout(logged_user: &LoggedUser, store: &mut Store) -> (r: Result<(), ServiceError>)
    requires
        old(store)@.wf(),
    ensures
        final(store)@.wf(),
        r is Ok,
        final(store)@ == with_sessions(old(store)@, outside_group(old(store)@.sessions, logged_user.id)),
{
    match delete_session(logged_user.id, store) {
        Ok(_) => Ok(()),
        Err(_) => Ok(()),
    }
}

/// The id of the logged-in user.
pub fn get_me(logged_user: &LoggedUser) -> (r: u128)
    ensures
        r == logged_user.id,
{
    logged_user.id
}

/// A login with matching credentials and a fresh token succeeds, and until
/// the session expires, presenting its token yields the identity of the user
/// with that email.
pub proof fn lemma_login_then_resolve(
    before: StoreView,
    after: StoreView,
    email: Seq<char>,
    password: Seq<char>,
    token: u128,
    now: i64,
    later: i64,
    r: Result<Session, ServiceError>,
)
    requires
        before.wf(),
        now <= LATEST_TIMESTAMP,
        login_post(before, after, email, password, token, now, r),
        credentials_match(before.users, email, password),
        !has_key(before.sessions, token),
        later < now + TOKEN_TTL_SECONDS,
    ensures
        r is Ok,
        exists|i: int|
            0 <= i < before.users.len() && (#[trigger] before.users[i]).email@ == email
                && spec_resolve(after.sessions, token, later) == Ok::<LoggedUser, ServiceError>(
                LoggedUser {
                    id: before.users[i].id,
                    email: before.users[i].email,
                    isadmin: before.users[i].isadmin,
                },
            ),
{
    let s = r->Ok_0;
    let i = choose|i: int|
        0 <= i < before.users.len() && (#[trigger] before.users[i]).email@ == email && s == (Session {
            session_id: token,
            user_id: before.users[i].id,
            email: before.users[i].email,
            expire_at: (now + TOKEN_TTL_SECONDS) as i64,
            isadmin: before.users[i].isadmin,
        }) && after == with_sessions(before, before.sessions.push(s));
    let sessions = after.sessions;
    let last = before.sessions.len() as int;
    assert(sessions[last] == s);
    assert(live_session(sessions, token, later));
    let j = choose|j: int|
        0 <= j < sessions.len() && (#[trigger] sessions[j]).session_id == token && later
            < sessions[j].expire_at;
    if j != last {
        assert(sessions[j] == before.sessions[j]);
        assert(before.sessions[j].spec_key() == token);
    }
}

/// A token that no session has, or whose session has expired, resolves to
/// `Unauthorized`.
pub proof fn lemma_dead_token_unauthorized(sessions: Seq<Session>, token: u128, now: i64)
    requires
        keys_unique(sessions),
        !has_key(sessions, token) || exists|i: int|
            0 <= i < sessions.len() && (#[trigger] sessions[i]).session_id == token
                && sessions[i].expire_at <= now,
    ensures
        spec_resolve(sessions, token, now) == Err::<LoggedUser, ServiceError>(ServiceError::Unauthorized),
{
    if live_session(sessions, token, now) {
        let i = choose|i: int|
            0 <= i < sessions.len() && (#[trigger] sessions[i]).session_id == token && now
                < sessions[i].expire_at;
        assert(sessions[i].spec_key() == token);
        if has_key(sessions, token) {
            let j = choose|j: int|
                0 <= j < sessions.len() && (#[trigger] sessions[j]).session_id == token
                    && sessions[j].expire_at <= now;
            assert(sessions[j].spec_key() == sessions[i].spec_key());
        }
    }
}

/// Logging out a second time changes nothing (and both calls succeed, as
/// [`logout`] always does); afterwards no token resolves to that user.
pub proof fn lemma_logout_idempotent(s0: StoreView, s1: StoreView, s2: StoreView, user_id: u128)
    requires
        s1 == with_sessions(s0, outside_group(s0.sessions, user_id)),
        s2 == with_sessions(s1, outside_group(s1.sessions, user_id)),
    ensures
        s2 == s1,
        forall|token: u128, now: i64| #[trigger] spec_resolve(s1.sessions, token, now) is Ok
            ==> spec_resolve(s1.sessions, token, now)->Ok_0.id != user_id,
{
    let p = not_belongs_to::<Session>(user_id);
    broadcast use vstd::seq_lib::group_filter_ensures;
    lemma_filter_len(s1.sessions, p);
    assert forall|i: int| 0 <= i < s1.sessions.len() implies #[trigger] p(s1.sessions[i]) by {
    }
    assert(s2.sessions == s1.sessions);
    assert forall|token: u128, now: i64| #[trigger] spec_resolve(s1.sessions, token, now) is Ok
        implies spec_resolve(s1.sessions, token, now)->Ok_0.id != user_id by {
        let sessions = s1.sessions;
        let i = choose|i: int|
            0 <= i < sessions.len() && (#[trigger] sessions[i]).session_id == token && now
                < sessions[i].expire_at;
        assert(p(sessions[i]));
    }
}

} // verus!
