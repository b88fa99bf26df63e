use vstd::prelude::*;

use crate::errors::ServiceError;
use crate::identity::{authorize, require_admin, spec_allow};
use crate::ids::{new_id, now_timestamp, parse_id, parsed_uuid};
use crate::models::invitations::ResetPasswordRequest;
use crate::models::users::{LoggedUser, User};
use crate::storage::reset_requests_storage::{delete_reset_request, get_by_reset_request};
use crate::storage::users_storage;
use crate::storage::users_storage::{email_taken, sorted_by_username, user_update_post, with_users};
use crate::storage::{has_key, keys_unique, Row, Store, StoreView};
use crate::utils::{argon2_encoding, argon2_verdict};

verus! {

/// A registration: the invited email, a username and a password.
pub struct NewUserData {
    pub email: String,
    pub password: String,
    pub username: String,
}

/// A user as shown to clients: without the password hash.
#[derive(Debug, PartialEq, Eq)]
pub struct UserDTO {
    pub id: u128,
    pub username: String,
    pub isadmin: bool,
    pub email: String,
}

/// The new values of a user's profile.
pub struct QueryData {
    pub id: String,
    pub username: String,
    pub isadmin: bool,
    pub email: String,
}

/// The completion of a password reset: the reset request's id, the account's
/// email and the new password.
pub struct ForgotPasswordData {
    pub email: String,
    pub password: String,
    pub id: u128,
}

/// All users, ordered by username. Only an administrator may list them;
/// `Empty` where there are none.
pub fn get_all(store: &Store, logged_user: &LoggedUser) -> (r: Result<Vec<User>, ServiceError>)
    ensures
        !logged_user.isadmin ==> r == Err::<Vec<User>, ServiceError>(ServiceError::AdminRequired),
        logged_user.isadmin && store@.users.len() == 0 ==> r == Err::<Vec<User>, ServiceError>(ServiceError::Empty),
        logged_user.isadmin && store@.users.len() > 0 ==> r is Ok,
        match r {
            Ok(users) => {
                &&& sorted_by_username(users@)
                &&& users@.len() == store@.users.len()
                &&& forall|x: User| users@.contains(x) <==> store@.users.contains(x)
            },
            Err(_) => true,
        },
{
    require_admin(logged_user)?;
    let users = users_storage::query_all(store);
    if users.len() > 0 {
        return Ok(users);
    }
    Err(ServiceError::Empty)
}

/// Updates the profile of the user whose id `uuid_path` spells: its username
/// and admin flag. Only that user or an administrator may.
pub fn update_user(uuid_path: &str, payload: &QueryData, store: &mut Store, logged_user: &LoggedUser) -> (r: Result<User, ServiceError>)
    requires
        old(store)@.wf(),
    ensures
        final(store)@.wf(),
        parsed_uuid(uuid_path@) is None ==> r == Err::<User, ServiceError>(ServiceError::BadRequest)
            && final(store)@ == old(store)@,
        parsed_uuid(uuid_path@) is Some && !spec_allow(*logged_user, parsed_uuid(uuid_path@)->Some_0) ==> r
            == Err::<User, ServiceError>(ServiceError::AdminRequired) && final(store)@ == old(store)@,
        parsed_uuid(uuid_path@) is Some && spec_allow(*logged_user, parsed_uuid(uuid_path@)->Some_0)
            ==> user_update_post(
            old(store)@,
            final(store)@,
            parsed_uuid(uuid_path@)->Some_0,
            payload.username,
            payload.isadmin,
            r,
        ),
{
    let id = parse_id(uuid_path)?;
    authorize(logged_user, id)?;
    users_storage::update(id, payload.username.clone(), payload.isadmin, store)
}

/// The user with this id, as shown to clients; `Empty` for the nil id.
pub fn query_one(q_id: u128, store: &Store) -> (r: Result<UserDTO, ServiceError>)
    requires
        store@.wf(),
    ensures
        !has_key(store@.users, q_id) ==> r == Err::<UserDTO, ServiceError>(ServiceError::NotFound),
        has_key(store@.users, q_id) && q_id == 0 ==> r == Err::<UserDTO, ServiceError>(ServiceError::Empty),
        r is Ok <==> has_key(store@.users, q_id) && q_id != 0,
        r is Ok ==> exists|i: int|
            0 <= i < store@.users.len() && (#[trigger] store@.users[i]).id == q_id && r->Ok_0 == (UserDTO {
                id: q_id,
                username: store@.users[i].username,
                isadmin: store@.users[i].isadmin,
                email: store@.users[i].email,
            }),
{
    let user = match users_storage::get(q_id, store) {
        Ok(u) => u,
        Err(e) => {
            proof {
                if has_key(store@.users, q_id) {
                    let i = choose|i: int| 0 <= i < store@.users.len() && (#[trigger] store@.users[i]).spec_key() == q_id;
                    assert(store@.users[i].id == q_id);
                }
            }
            return Err(e);
        },
    };
    proof {
        let k = choose|k: int| 0 <= k < store@.users.len() && store@.users[k] == user;
        assert(store@.users[k].spec_key() == q_id);
    }
    let data = UserDTO { id: user.id, username: user.username, isadmin: user.isadmin, email: user.email };
    if data.id != 0 {
        return Ok(data);
    }
    Err(ServiceError::Empty)
}

/// The user whose id `uuid_path` spells. Only that user or an administrator
/// may read it.
pub fn get_by_uuid(uuid_path: &str, store: &Store, logged_user: &LoggedUser) -> (r: Result<UserDTO, ServiceError>)
    requires
        store@.wf(),
    ensures
        parsed_uuid(uuid_path@) is None ==> r == Err::<UserDTO, ServiceError>(ServiceError::BadRequest),
        parsed_uuid(uuid_path@) is Some && !spec_allow(*logged_user, parsed_uuid(uuid_path@)->Some_0) ==> r
            == Err::<UserDTO, ServiceError>(ServiceError::AdminRequired),
        r is Ok ==> parsed_uuid(uuid_path@) is Some && spec_allow(*logged_user, parsed_uuid(uuid_path@)->Some_0)
            && exists|i: int|
            0 <= i < store@.users.len() && (#[trigger] store@.users[i]).id == parsed_uuid(uuid_path@)->Some_0
                && r->Ok_0 == (UserDTO {
                id: store@.users[i].id,
                username: store@.users[i].username,
                isadmin: store@.users[i].isadmin,
                email: store@.users[i].email,
            }),
        parsed_uuid(uuid_path@) is Some && spec_allow(*logged_user, parsed_uuid(uuid_path@)->Some_0) ==> (r is Ok
            <==> has_key(store@.users, parsed_uuid(uuid_path@)->Some_0) && parsed_uuid(uuid_path@)->Some_0 != 0),
        parsed_uuid(uuid_path@) is Some && spec_allow(*logged_user, parsed_uuid(uuid_path@)->Some_0) && !has_key(
            store@.users,
            parsed_uuid(uuid_path@)->Some_0,
        ) ==> r == Err::<UserDTO, ServiceError>(ServiceError::NotFound),
        parsed_uuid(uuid_path@) == Some(0u128) && spec_allow(*logged_user, 0) && has_key(store@.users, 0) ==> r
            == Err::<UserDTO, ServiceError>(ServiceError::Empty),
{
    let id = parse_id(uuid_path)?;
    authorize(logged_user, id)?;
    query_one(id, store)
}

/// Deletes the user whose id `uuid_path` spells. Only that user or an
/// administrator may.
pub fn delete_user(uuid_path: &str, store: &mut Store, logged_user: &LoggedUser) -> (r: Result<(), ServiceError>)
    requires
        old(store)@.wf(),
    ensures
        final(store)@.wf(),
        parsed_uuid(uuid_path@) is None ==> r == Err::<(), ServiceError>(ServiceError::BadRequest)
            && final(store)@ == old(store)@,
        parsed_uuid(uuid_path@) is Some && !spec_allow(*logged_user, parsed_uuid(uuid_path@)->Some_0) ==> r
            == Err::<(), ServiceError>(ServiceError::AdminRequired) && final(store)@ == old(store)@,
        r is Err ==> final(store)@ == old(store)@,
        r is Ok <==> parsed_uuid(uuid_path@) is Some && spec_allow(*logged_user, parsed_uuid(uuid_path@)->Some_0)
            && has_key(old(store)@.users, parsed_uuid(uuid_path@)->Some_0),
        r is Ok ==> exists|i: int|
            0 <= i < old(store)@.users.len() && (#[trigger] old(store)@.users[i]).id == parsed_uuid(
                uuid_path@,
            )->Some_0 && final(store)@ == with_users(old(store)@, old(store)@.users.remove(i)),
        parsed_uuid(uuid_path@) is Some && spec_allow(*logged_user, parsed_uuid(uuid_path@)->Some_0) && !has_key(
            old(store)@.users,
            parsed_uuid(uuid_path@)->Some_0,
        ) ==> r == Err::<(), ServiceError>(ServiceError::NotFound),
{
    let id = parse_id(uuid_path)?;
    authorize(logged_user, id)?;
    users_storage::delete_user(id, store)
}

/// Whether a reset request with this id, for this email, is valid at `now`.
pub open spec fn reset_live(requests: Seq<ResetPasswordRequest>, id: u128, email: Seq<char>, now: i64) -> bool {
    exists|i: int|
        0 <= i < requests.len() && (#[trigger] requests[i]).id == id && requests[i].email@ == email && now
            < requests[i].expires_at
}

/// How completing a password reset with `payload` (hashing salt `salt`, at
/// `now`) takes the store from `before` to `after` with result `r`. The reset
/// request must exist, be unexpired and be for the payload's email; it is
/// consumed. On any failure nothing changes, the password hash included.
pub open spec fn reset_post(
    before: StoreView,
    after: StoreView,
    payload: ForgotPasswordData,
    salt: u128,
    now: i64,
    r: Result<User, ServiceError>,
) -> bool {
    let live = reset_live(before.reset_requests, payload.id, payload.email@, now);
    &&& !live ==> r == Err::<User, ServiceError>(ServiceError::Unauthorized)
    &&& live && !email_taken(before.users, payload.email@) ==> r == Err::<User, ServiceError>(ServiceError::NotFound)
    &&& live && email_taken(before.users, payload.email@) && argon2_encoding(payload.password@, salt) is None ==> r
        == Err::<User, ServiceError>(ServiceError::InternalServerError)
    &&& r is Ok <==> live && email_taken(before.users, payload.email@) && argon2_encoding(payload.password@, salt) is Some
    &&& match r {
        Ok(u) => exists|i: int, j: int|
            0 <= i < before.users.len() && 0 <= j < before.reset_requests.len()
                && (#[trigger] before.users[i]).email@ == payload.email@ && (#[trigger] before.reset_requests[j]).id
                == payload.id && argon2_encoding(payload.password@, salt) == Some(u.hash@) && argon2_verdict(
                u.hash@,
                payload.password@,
            ) == Some(true) && u == (User {
                hash: u.hash,
                ..before.users[i]
            }) && after == (StoreView {
                users: before.users.update(i, u),
                reset_requests: before.reset_requests.remove(j),
                ..before
            }),
        Err(_) => after == before,
    }
}

/// Completes a password reset at `now`, hashing the new password with `salt`.
pub fn complete_reset(payload: &ForgotPasswordData, salt: u128, now: i64, store: &mut Store) -> (r: Result<User, ServiceError>)
    requires
        old(store)@.wf(),
    ensures
        final(store)@.wf(),
        reset_post(old(store)@, final(store)@, *payload, salt, now, r),
{
    let ghost requests = store@.reset_requests;
    let request = match get_by_reset_request(payload.id, store) {
        Ok(req) => req,
        Err(_) => {
            proof {
                if reset_live(requests, payload.id, payload.email@, now) {
                    let i = choose|i: int|
                        0 <= i < requests.len() && (#[trigger] requests[i]).id == payload.id
                            && requests[i].email@ == payload.email@ && now < requests[i].expires_at;
                    assert(requests[i].spec_key() == payload.id);
                }
            }
            return Err(ServiceError::Unauthorized);
        },
    };
    let ghost k = choose|k: int| 0 <= k < requests.len() && requests[k] == request;
    proof {
        assert forall|j: int| 0 <= j < requests.len() && (#[trigger] requests[j]).id == payload.id implies j == k by {
            if j != k {
                assert(requests[j].spec_key() != requests[k].spec_key());
            }
        }
    }
    if !(now < request.expires_at) || !(request.email == payload.email) {
        return Err(ServiceError::Unauthorized);
    }
    let user = users_storage::set_password(&payload.email, payload.password.as_str(), salt, store)?;
    let ghost mid = store@;
    assert(mid.reset_requests[k].spec_key() == payload.id);
    let _ = delete_reset_request(payload.id, store);
    proof {
        let i = choose|i: int|
            0 <= i < mid.users.len() && (#[trigger] old(store)@.users[i]).email@ == payload.email@
                && argon2_encoding(payload.password@, salt) == Some(user.hash@) && user == (User {
                hash: user.hash,
                ..old(store)@.users[i]
            }) && mid == with_users(old(store)@, old(store)@.users.update(i, user));
        let j = choose|j: int|
            0 <= j < mid.reset_requests.len() && (#[trigger] mid.reset_requests[j]).id == payload.id
                && store@ == crate::storage::reset_requests_storage::with_reset_requests(mid, mid.reset_requests.remove(j));
        assert(j == k);
        assert(store@ == (StoreView {
            users: old(store)@.users.update(i, user),
            reset_requests: old(store)@.reset_requests.remove(k),
            ..old(store)@
        }));
    }
    Ok(user)
}

/// Completing a reset with a reset-request id that no request has, or whose
/// request has expired, fails and leaves every password hash as it was.
pub proof fn lemma_dead_reset_refused(
    before: StoreView,
    after: StoreView,
    payload: ForgotPasswordData,
    salt: u128,
    now: i64,
    r: Result<User, ServiceError>,
)
    requires
        reset_post(before, after, payload, salt, now, r),
        !has_key(before.reset_requests, payload.id) || exists|j: int|
            0 <= j < before.reset_requests.len() && (#[trigger] before.reset_requests[j]).id == payload.id
                && before.reset_requests[j].expires_at <= now,
        keys_unique(before.reset_requests),
    ensures
        r is Err,
        after.users == before.users,
{
    if reset_live(before.reset_requests, payload.id, payload.email@, now) {
        let i = choose|i: int|
            0 <= i < before.reset_requests.len() && (#[trigger] before.reset_requests[i]).id == payload.id
                && before.reset_requests[i].email@ == payload.email@ && now < before.reset_requests[i].expires_at;
        assert(before.reset_requests[i].spec_key() == payload.id);
        if has_key(before.reset_requests, payload.id) {
            let j = choose|j: int|
                0 <= j < before.reset_requests.len() && (#[trigger] before.reset_requests[j]).id == payload.id
                    && before.reset_requests[j].expires_at <= now;
            assert(before.reset_requests[j].spec_key() == before.reset_requests[i].spec_key());
        }
    }
}

/// Completes a password reset, hashing the new password with a fresh random
/// salt, at the time by the clock.
pub fn update_password(payload: &ForgotPasswordData, store: &mut Store) -> (r: Result<User, ServiceError>)
    requires
        old(store)@.wf(),
    ensures
        final(store)@.wf(),
        exists|salt: u128, now: i64| #[trigger] reset_post(old(store)@, final(store)@, *payload, salt, now, r),
        r is Err ==> final(store)@ == old(store)@,
{
    let salt = new_id();
    let now = now_timestamp();
    complete_reset(payload, salt, now, store)
}

} // verus!
