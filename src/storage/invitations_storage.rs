use vstd::prelude::*;

use crate::errors::ServiceError;
use crate::models::invitations::{Invitation, LATEST_TIMESTAMP, TOKEN_TTL_SECONDS};
use crate::storage::{find_key, has_key, push_row, remove_row, Store, StoreView};

verus! {

/// `s` with its invitations replaced by `invitations`.
pub open spec fn with_invitations(s: StoreView, invitations: Seq<Invitation>) -> StoreView {
    StoreView { invitations, ..s }
}

/// Records an invitation for `eml`, valid for 24 hours from `now`. An id
/// already in use is refused with `InternalServerError`: ids are drawn by
/// the server, so a clash is the server's failure.
pub fn create_invitation(
    q_id: u128,
    eml: &String,
    username: String,
    password_hashed: Option<String>,
    reset_request_id: Option<u128>,
    now: i64,
    store: &mut Store,
) -> (r: Result<Invitation, ServiceError>)
    requires
        old(store)@.wf(),
        now <= LATEST_TIMESTAMP,
    ensures
        final(store)@.wf(),
        r is Ok <==> !has_key(old(store)@.invitations, q_id),
        match r {
            Ok(inv) => {
                &&& inv.id == q_id && inv.email == *eml && inv.username == username
                &&& inv.password_plain == password_hashed && inv.reset_request_id == reset_request_id
                &&& inv.expires_at == now + TOKEN_TTL_SECONDS && inv.updated_by == *eml
                &&& final(store)@ == with_invitations(old(store)@, old(store)@.invitations.push(inv))
            },
            Err(e) => e == ServiceError::InternalServerError && final(store)@ == old(store)@,
        },
{
    if find_key(&store.invitations, q_id).is_some() {
        return Err(ServiceError::InternalServerError);
    }
    let invitation = Invitation::from_details(q_id, eml, username, password_hashed, reset_request_id, now);
    push_row(&mut store.invitations, invitation.clone());
    assert(store@ == with_invitations(old(store)@, old(store)@.invitations.push(invitation)));
    Ok(invitation)
}

/// The invitation with this id, expired or not.
pub fn get_invitation(q_id: u128, store: &Store) -> (r: Result<Invitation, ServiceError>)
    ensures
        match r {
            Ok(inv) => store@.invitations.contains(inv) && inv.id == q_id,
            Err(e) => e == ServiceError::NotFound && !has_key(store@.invitations, q_id),
        },
{
    match find_key(&store.invitations, q_id) {
        Some(i) => Ok(store.invitations[i].clone()),
        None => Err(ServiceError::NotFound),
    }
}

/// Removes the invitation with this id.
pub fn delete_invitation(q_id: u128, store: &mut Store) -> (r: Result<(), ServiceError>)
    requires
        old(store)@.wf(),
    ensures
        final(store)@.wf(),
        r is Ok <==> has_key(old(store)@.invitations, q_id),
        r is Ok ==> exists|i: int|
            0 <= i < old(store)@.invitations.len() && (#[trigger] old(store)@.invitations[i]).id == q_id
                && final(store)@ == with_invitations(old(store)@, old(store)@.invitations.remove(i)),
        r is Err ==> r == Err::<(), ServiceError>(ServiceError::NotFound) && final(store)@ == old(store)@,
{
    match find_key(&store.invitations, q_id) {
        Some(i) => {
            remove_row(&mut store.invitations, i);
            assert(store@ == with_invitations(old(store)@, old(store)@.invitations.remove(i as int)));
            Ok(())
        },
        None => Err(ServiceError::NotFound),
    }
}

} // verus!
