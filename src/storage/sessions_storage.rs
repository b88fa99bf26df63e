use vstd::prelude::*;

use crate::errors::ServiceError;
use crate::models::invitations::{LATEST_TIMESTAMP, TOKEN_TTL_SECONDS};
use crate::models::users::Session;
use crate::storage::{find_key, has_key, outside_group, push_row, remove_group, Store, StoreView};

verus! {

/// `s` with its sessions replaced by `sessions`.
pub open spec fn with_sessions(s: StoreView, sessions: Seq<Session>) -> StoreView {
    StoreView { sessions, ..s }
}

/// Whether some session belongs to the user.
pub open spec fn has_session_of(sessions: Seq<Session>, user_id: u128) -> bool {
    exists|i: int| 0 <= i < sessions.len() && (#[trigger] sessions[i]).user_id == user_id
}

/// Opens a session with token `q_session_id` for the user, valid for 24 hours
/// from `now`. A token already in use is refused with `InternalServerError`:
/// tokens are drawn by the server, so a clash is the server's failure.
pub fn create_session(
    q_session_id: u128,
    q_user_id: u128,
    q_email: &String,
    q_isadmin: bool,
    now: i64,
    store: &mut Store,
) -> (r: Result<Session, ServiceError>)
    requires
        old(store)@.wf(),
        now <= LATEST_TIMESTAMP,
    ensures
        final(store)@.wf(),
        r is Ok <==> !has_key(old(store)@.sessions, q_session_id),
        match r {
            Ok(s) => {
                &&& s.session_id == q_session_id && s.user_id == q_user_id && s.email == *q_email
                &&& s.expire_at == now + TOKEN_TTL_SECONDS && s.isadmin == q_isadmin
                &&& final(store)@ == with_sessions(old(store)@, old(store)@.sessions.push(s))
            },
            Err(e) => e == ServiceError::InternalServerError && final(store)@ == old(store)@,
        },
{
    if find_key(&store.sessions, q_session_id).is_some() {
        return Err(ServiceError::InternalServerError);
    }
    let session = Session {
        session_id: q_session_id,
        user_id: q_user_id,
        email: q_email.clone(),
        expire_at: now + TOKEN_TTL_SECONDS,
        isadmin: q_isadmin,
    };
    push_row(&mut store.sessions, session.clone());
    assert(store@ == with_sessions(old(store)@, old(store)@.sessions.push(session)));
    Ok(session)
}

/// The session with this token, expired or not.
pub fn get_session(q_session_id: u128, store: &Store) -> (r: Result<Session, ServiceError>)
    ensures
        match r {
            Ok(s) => store@.sessions.contains(s) && s.session_id == q_session_id,
            Err(e) => e == ServiceError::NotFound && !has_key(store@.sessions, q_session_id),
        },
{
    match find_key(&store.sessions, q_session_id) {
        Some(i) => Ok(store.sessions[i].clone()),
        None => Err(ServiceError::NotFound),
    }
}

/// Ends every session of the user; `NotFound` where there was none.
pub fn delete_session(q_user_id: u128, store: &mut Store) -> (r: Result<(), ServiceError>)
    requires
        old(store)@.wf(),
    ensures
        final(store)@.wf(),
        final(store)@ == with_sessions(old(store)@, outside_group(old(store)@.sessions, q_user_id)),
        r is Ok <==> has_session_of(old(store)@.sessions, q_user_id),
        r is Err ==> r == Err::<(), ServiceError>(ServiceError::NotFound),
{
    let n = remove_group(&mut store.sessions, q_user_id);
    assert(store@ == with_sessions(old(store)@, outside_group(old(store)@.sessions, q_user_id)));
    if n > 0 {
        Ok(())
    } else {
        Err(ServiceError::NotFound)
    }
}

} // verus!
