use vstd::prelude::*;

use crate::errors::ServiceError;
use crate::models::invitations::{LATEST_TIMESTAMP, ResetPasswordRequest, TOKEN_TTL_SECONDS};
use crate::storage::{find_key, has_key, push_row, remove_row, Store, StoreView};

verus! {

/// `s` with its reset requests replaced by `reset_requests`.
pub open spec fn with_reset_requests(s: StoreView, reset_requests: Seq<ResetPasswordRequest>) -> StoreView {
    StoreView { reset_requests, ..s }
}

/// Records a password reset request for `eml`, valid for 24 hours from
/// `now`. An id already in use is refused with `InternalServerError`: ids
/// are drawn by the server, so a clash is the server's failure.
pub fn create_reset_request(q_id: u128, eml: &String, now: i64, store: &mut Store) -> (r: Result<ResetPasswordRequest, ServiceError>)
    requires
        old(store)@.wf(),
        now <= LATEST_TIMESTAMP,
    ensures
        final(store)@.wf(),
        r is Ok <==> !has_key(old(store)@.reset_requests, q_id),
        match r {
            Ok(req) => {
                &&& req.id == q_id && req.email == *eml && req.expires_at == now + TOKEN_TTL_SECONDS
                &&& final(store)@ == with_reset_requests(old(store)@, old(store)@.reset_requests.push(req))
            },
            Err(e) => e == ServiceError::InternalServerError && final(store)@ == old(store)@,
        },
{
    if find_key(&store.reset_requests, q_id).is_some() {
        return Err(ServiceError::InternalServerError);
    }
    let request = ResetPasswordRequest::from_details(q_id, eml, now);
    push_row(&mut store.reset_requests, request.clone());
    assert(store@ == with_reset_requests(old(store)@, old(store)@.reset_requests.push(request)));
    Ok(request)
}

/// The reset request with this id, expired or not.
pub fn get_by_reset_request(q_id: u128, store: &Store) -> (r: Result<ResetPasswordRequest, ServiceError>)
    ensures
        match r {
            Ok(req) => store@.reset_requests.contains(req) && req.id == q_id,
            Err(e) => e == ServiceError::NotFound && !has_key(store@.reset_requests, q_id),
        },
{
    match find_key(&store.reset_requests, q_id) {
        Some(i) => Ok(store.reset_requests[i].clone()),
        None => Err(ServiceError::NotFound),
    }
}

/// Removes the reset request with this id.
pub fn delete_reset_request(q_id: u128, store: &mut Store) -> (r: Result<(), ServiceError>)
    requires
        old(store)@.wf(),
    ensures
        final(store)@.wf(),
        r is Ok <==> has_key(old(store)@.reset_requests, q_id),
        r is Ok ==> exists|i: int|
            0 <= i < old(store)@.reset_requests.len() && (#[trigger] old(store)@.reset_requests[i]).id
                == q_id && final(store)@ == with_reset_requests(old(store)@, old(store)@.reset_requests.remove(i)),
        r is Err ==> r == Err::<(), ServiceError>(ServiceError::NotFound) && final(store)@ == old(store)@,
{
    match find_key(&store.reset_requests, q_id) {
        Some(i) => {
            remove_row(&mut store.reset_requests, i);
            assert(store@ == with_reset_requests(old(store)@, old(store)@.reset_requests.remove(i as int)));
            Ok(())
        },
        None => Err(ServiceError::NotFound),
    }
}

} // verus!
