use vstd::prelude::*;

use crate::errors::ServiceError;
use crate::ids::{new_id, now_timestamp, parse_id, parsed_uuid};
use crate::models::invitations::{Invitation, LATEST_TIMESTAMP, ResetPasswordRequest, TOKEN_TTL_SECONDS};
use crate::models::users::User;
use crate::storage::invitations_storage::{create_invitation, delete_invitation, get_invitation, with_invitations};
use crate::storage::reset_requests_storage::{create_reset_request, with_reset_requests};
use crate::storage::users_storage::{create, email_taken, get_by_email, get_by_username, user_conflict, username_taken};
use crate::storage::{has_key, Row, Store, StoreView};
use crate::utils::{argon2_encoding, argon2_verdict, hash_password};
use crate::handlers::users_handler::NewUserData;

verus! {

/// An invitation request: who is invited, under which username, and
/// optionally with which password.
pub struct InvitationData {
    pub email: String,
    pub password_plain: Option<String>,
    pub username: String,
}

/// A password reset request.
pub struct ResetRequestData {
    pub email: String,
}

/// Whether `h` is the hashed form, under `salt`, of the optional password.
pub open spec fn hashed_as(psw: Option<String>, salt: u128, h: Option<String>) -> bool {
    match psw {
        None => h is None,
        Some(p) => h is Some && argon2_encoding(p@, salt) == Some(h->Some_0@) && argon2_verdict(h->Some_0@, p@)
            == Some(true),
    }
}

/// Whether the optional password can be hashed under `salt`.
pub open spec fn hashable(psw: Option<String>, salt: u128) -> bool {
    match psw {
        None => true,
        Some(p) => argon2_encoding(p@, salt) is Some,
    }
}

/// How creating an invitation for `eml` and `username` (password `psw`, id
/// `id`, hashing salt `salt`, at `now`) takes the store from `before` to
/// `after` with result `r`. An email or username that an account already has
/// is refused with `Unauthorized`, so that the refusal does not tell which.
pub open spec fn invitation_post(
    before: StoreView,
    after: StoreView,
    eml: String,
    username: String,
    psw: Option<String>,
    id: u128,
    salt: u128,
    now: i64,
    r: Result<Invitation, ServiceError>,
) -> bool {
    let taken = email_taken(before.users, eml@) || username_taken(before.users, username@);
    &&& taken ==> r == Err::<Invitation, ServiceError>(ServiceError::Unauthorized)
    &&& !taken && now > LATEST_TIMESTAMP ==> r == Err::<Invitation, ServiceError>(ServiceError::InternalServerError)
    &&& !taken && now <= LATEST_TIMESTAMP && !hashable(psw, salt) ==> r == Err::<Invitation, ServiceError>(
        ServiceError::InternalServerError,
    )
    &&& !taken && now <= LATEST_TIMESTAMP && hashable(psw, salt) && has_key(before.invitations, id) ==> r
        == Err::<Invitation, ServiceError>(ServiceError::InternalServerError)
    &&& r is Ok <==> !taken && now <= LATEST_TIMESTAMP && hashable(psw, salt) && !has_key(before.invitations, id)
    &&& match r {
        Ok(inv) => {
            &&& inv.id == id && inv.email == eml && inv.username == username
            &&& hashed_as(psw, salt, inv.password_plain) && inv.reset_request_id is None
            &&& inv.expires_at == now + TOKEN_TTL_SECONDS && inv.updated_by == eml
            &&& after == with_invitations(before, before.invitations.push(inv))
        },
        Err(_) => after == before,
    }
}

/// Creates an invitation with id `q_id` at `now`, hashing a chosen password
/// with `salt`.
pub fn query_invitation(
    eml: &String,
    username: &String,
    psw: &Option<String>,
    q_id: u128,
    salt: u128,
    now: i64,
    store: &mut Store,
) -> (r: Result<Invitation, ServiceError>)
    requires
        old(store)@.wf(),
    ensures
        final(store)@.wf(),
        email_taken(old(store)@.users, eml@) ==> r == Err::<Invitation, ServiceError>(
            ServiceError::Unauthorized,
        ) && final(store)@ == old(store)@,
        invitation_post(old(store)@, final(store)@, *eml, *username, *psw, q_id, salt, now, r),
{
    let res_email = get_by_email(eml, store);
    let res_username = get_by_username(username, store);
    if res_email.is_ok() || res_username.is_ok() {
        return Err(ServiceError::Unauthorized);
    }
    if now > LATEST_TIMESTAMP {
        return Err(ServiceError::InternalServerError);
    }
    let password_hashed = match psw {
        Some(p) => Some(hash_password(p.as_str(), salt)?),
        None => None,
    };
    create_invitation(q_id, eml, username.clone(), password_hashed, None, now, store)
}

/// Invites someone: creates an invitation with a fresh random id, valid for
/// 24 hours from now by the clock. The caller delivers it.
pub fn post_invitation(invitation_data: &InvitationData, store: &mut Store) -> (r: Result<Invitation, ServiceError>)
    requires
        old(store)@.wf(),
    ensures
        final(store)@.wf(),
        email_taken(old(store)@.users, invitation_data.email@) ==> r == Err::<Invitation, ServiceError>(
            ServiceError::Unauthorized,
        ) && final(store)@ == old(store)@,
        exists|id: u128, salt: u128, now: i64|
            now <= LATEST_TIMESTAMP && #[trigger] invitation_post(
                old(store)@,
                final(store)@,
                invitation_data.email,
                invitation_data.username,
                invitation_data.password_plain,
                id,
                salt,
                now,
                r,
            ),
{
    let id = new_id();
    let salt = new_id();
    let now = now_timestamp();
    query_invitation(
        &invitation_data.email,
        &invitation_data.username,
        &invitation_data.password_plain,
        id,
        salt,
        now,
        store,
    )
}

/// How requesting a password reset for `eml` (request id `id`, at `now`)
/// takes the store from `before` to `after` with result `r`: `Unauthorized`
/// where no account has the email; otherwise one request is added, unless
/// the time is out of range or the id is in use (both the server's
/// failures).
pub open spec fn reset_request_post(
    before: StoreView,
    after: StoreView,
    eml: String,
    id: u128,
    now: i64,
    r: Result<ResetPasswordRequest, ServiceError>,
) -> bool {
    let known = email_taken(before.users, eml@);
    &&& !known ==> r == Err::<ResetPasswordRequest, ServiceError>(ServiceError::Unauthorized)
    &&& known && now > LATEST_TIMESTAMP ==> r == Err::<ResetPasswordRequest, ServiceError>(
        ServiceError::InternalServerError,
    )
    &&& known && now <= LATEST_TIMESTAMP && has_key(before.reset_requests, id) ==> r == Err::<
        ResetPasswordRequest,
        ServiceError,
    >(ServiceError::InternalServerError)
    &&& r is Ok <==> known && now <= LATEST_TIMESTAMP && !has_key(before.reset_requests, id)
    &&& match r {
        Ok(req) => {
            &&& req.id == id && req.email == eml && req.expires_at == now + TOKEN_TTL_SECONDS
            &&& after == with_reset_requests(before, before.reset_requests.push(req))
        },
        Err(_) => after == before,
    }
}

/// Creates a reset request with id `q_id` at `now` for the account with this
/// email; `Unauthorized` where there is no such account.
pub fn query_reset_request(eml: &String, q_id: u128, now: i64, store: &mut Store) -> (r: Result<ResetPasswordRequest, ServiceError>)
    requires
        old(store)@.wf(),
    ensures
        final(store)@.wf(),
        reset_request_post(old(store)@, final(store)@, *eml, q_id, now, r),
{
    match get_by_email(eml, store) {
        Ok(_) => {
            if now > LATEST_TIMESTAMP {
                return Err(ServiceError::InternalServerError);
            }
            create_reset_request(q_id, eml, now, store)
        },
        Err(_) => Err(ServiceError::Unauthorized),
    }
}

/// Requests a password reset: creates a reset request with a fresh random id,
/// valid for 24 hours from now by the clock. The caller delivers it.
pub fn post_reset_request(reset_request_data: &ResetRequestData, store: &mut Store) -> (r: Result<ResetPasswordRequest, ServiceError>)
    requires
        old(store)@.wf(),
    ensures
        final(store)@.wf(),
        exists|id: u128, now: i64|
            now <= LATEST_TIMESTAMP && #[trigger] reset_request_post(
                old(store)@,
                final(store)@,
                reset_request_data.email,
                id,
                now,
                r,
            ),
{
    let id = new_id();
    let now = now_timestamp();
    query_reset_request(&reset_request_data.email, id, now, store)
}

/// Whether an invitation with this id, for this email, is valid at `now`.
pub open spec fn invitation_live(invitations: Seq<Invitation>, id: u128, email: Seq<char>, now: i64) -> bool {
    exists|i: int|
        0 <= i < invitations.len() && (#[trigger] invitations[i]).id == id && invitations[i].email@ == email
            && now < invitations[i].expires_at
}

/// How registering `email`, `username` and `password` against invitation
/// `invitation_id` (new user
/// id `user_id`, hashing salt `salt`, at `now`) takes the store from `before`
/// to `after` with result `r`: the invitation must be valid and made out to
/// the same email; it is consumed by the registration.
pub open spec fn register_post(
    before: StoreView,
    after: StoreView,
    invitation_id: u128,
    email: String,
    username: String,
    password: String,
    user_id: u128,
    salt: u128,
    now: i64,
    r: Result<User, ServiceError>,
) -> bool {
    let live = invitation_live(before.invitations, invitation_id, email@, now);
    &&& !live ==> r == Err::<User, ServiceError>(ServiceError::Unauthorized)
    &&& live && has_key(before.users, user_id) ==> r == Err::<User, ServiceError>(ServiceError::InternalServerError)
    &&& live && !has_key(before.users, user_id) && user_conflict(before.users, user_id, email@, username@) ==> r
        == Err::<User, ServiceError>(ServiceError::BadRequest)
    &&& live && !user_conflict(before.users, user_id, email@, username@) && argon2_encoding(password@, salt) is None
        ==> r == Err::<User, ServiceError>(ServiceError::InternalServerError)
    &&& r is Ok <==> live && !user_conflict(before.users, user_id, email@, username@)
        && argon2_encoding(password@, salt) is Some
    &&& match r {
        Ok(u) => {
            &&& u.id == user_id && !u.isadmin && u.email == email
            &&& u.username == username && u.created_at == now
            &&& argon2_encoding(password@, salt) == Some(u.hash@)
            &&& argon2_verdict(u.hash@, password@) == Some(true)
            &&& exists|i: int|
                0 <= i < before.invitations.len() && (#[trigger] before.invitations[i]).id == invitation_id
                    && after == (StoreView {
                    users: before.users.push(u),
                    invitations: before.invitations.remove(i),
                    ..before
                })
        },
        Err(_) => after == before,
    }
}

/// Registers a user with id `user_id` at `now` by consuming invitation
/// `invitation_id`, hashing the password with `salt`.
pub fn register(
    invitation_id: u128,
    user_data: &NewUserData,
    user_id: u128,
    salt: u128,
    now: i64,
    store: &mut Store,
) -> (r: Result<User, ServiceError>)
    requires
        old(store)@.wf(),
    ensures
        final(store)@.wf(),
        register_post(
            old(store)@,
            final(store)@,
            invitation_id,
            user_data.email,
            user_data.username,
            user_data.password,
            user_id,
            salt,
            now,
            r,
        ),
{
    let ghost invitations = store@.invitations;
    let inv = match get_invitation(invitation_id, store) {
        Ok(inv) => inv,
        Err(_) => {
            proof {
                if invitation_live(invitations, invitation_id, user_data.email@, now) {
                    let i = choose|i: int|
                        0 <= i < invitations.len() && (#[trigger] invitations[i]).id == invitation_id
                            && invitations[i].email@ == user_data.email@ && now < invitations[i].expires_at;
                    assert(invitations[i].spec_key() == invitation_id);
                }
            }
            return Err(ServiceError::Unauthorized);
        },
    };
    let ghost k = choose|k: int| 0 <= k < invitations.len() && invitations[k] == inv;
    proof {
        assert forall|j: int| 0 <= j < invitations.len() && (#[trigger] invitations[j]).id == invitation_id implies j == k by {
            if j != k {
                assert(invitations[j].spec_key() != invitations[k].spec_key());
            }
        }
    }
    if !(now < inv.expires_at) || !(inv.email == user_data.email) {
        return Err(ServiceError::Unauthorized);
    }
    let user = create(
        user_id,
        user_data.email.clone(),
        user_data.username.clone(),
        user_data.password.as_str(),
        salt,
        now,
        store,
    )?;
    let ghost mid = store@;
    assert(mid.invitations[k].spec_key() == invitation_id);
    let _ = delete_invitation(invitation_id, store);
    proof {
        assert(mid.invitations == invitations);
        let i = choose|i: int|
            0 <= i < mid.invitations.len() && (#[trigger] mid.invitations[i]).id == invitation_id
                && store@ == with_invitations(mid, mid.invitations.remove(i));
        assert(i == k);
        assert(store@ == (StoreView {
            users: old(store)@.users.push(user),
            invitations: old(store)@.invitations.remove(k),
            ..old(store)@
        }));
    }
    Ok(user)
}

/// How registering `email`, `username` and `password` against the
/// invitation whose id `path`
/// spells takes the store from `before` to `after` with result `r`, for some
/// user id, salt and time: `BadRequest` where `path` is no id.
pub open spec fn registration_post(
    before: StoreView,
    after: StoreView,
    path: Seq<char>,
    email: String,
    username: String,
    password: String,
    r: Result<User, ServiceError>,
) -> bool {
    &&& parsed_uuid(path) is None ==> r == Err::<User, ServiceError>(ServiceError::BadRequest) && after == before
    &&& parsed_uuid(path) is Some ==> exists|invitation_id: u128, user_id: u128, salt: u128, now: i64|
        parsed_uuid(path) == Some(invitation_id) && now <= LATEST_TIMESTAMP && #[trigger] register_post(
            before,
            after,
            invitation_id,
            email,
            username,
            password,
            user_id,
            salt,
            now,
            r,
        )
}

/// Registers `user_data` against the invitation whose id `invitation_path`
/// spells, with a fresh random user id, at the time by the clock.
pub fn register_user(invitation_path: &str, user_data: &NewUserData, store: &mut Store) -> (r: Result<User, ServiceError>)
    requires
        old(store)@.wf(),
    ensures
        final(store)@.wf(),
        registration_post(
            old(store)@,
            final(store)@,
            invitation_path@,
            user_data.email,
            user_data.username,
            user_data.password,
            r,
        ),
{
    let invitation_id = match parse_id(invitation_path) {
        Ok(id) => id,
        Err(e) => return Err(e),
    };
    let user_id = new_id();
    let salt = new_id();
    let now = now_timestamp();
    register(invitation_id, user_data, user_id, salt, now, store)
}

} // verus!
