use vstd::prelude::*;

use crate::errors::ServiceError;
use crate::models::users::User;
use crate::storage::{
    find_key, has_key, keys_unique, push_row, remove_row, set_row, users_distinct, Row, Store,
    StoreView,
};
use crate::utils::{
    argon2_encoding, argon2_verdict, hash_password, lemma_text_le_total, lemma_text_le_transitive, str_le, text_le,
};

verus! {

/// Whether some user has this email.
pub open spec fn email_taken(users: Seq<User>, email: Seq<char>) -> bool {
    exists|i: int| 0 <= i < users.len() && (#[trigger] users[i]).email@ == email
}

/// Whether some user has this username.
pub open spec fn username_taken(users: Seq<User>, username: Seq<char>) -> bool {
    exists|i: int| 0 <= i < users.len() && (#[trigger] users[i]).username@ == username
}

/// Whether a new user with these values would break a unique column.
pub open spec fn user_conflict(users: Seq<User>, id: u128, email: Seq<char>, username: Seq<char>) -> bool {
    has_key(users, id) || email_taken(users, email) || username_taken(users, username)
}

/// `s` with its users replaced by `users`.
pub open spec fn with_users(s: StoreView, users: Seq<User>) -> StoreView {
    StoreView { users, ..s }
}

/// The index of the user with this email.
fn find_email(users: &Vec<User>, q_email: &String) -> (r: Option<usize>)
    ensures
        match r {
            Some(i) => i < users@.len() && users@[i as int].email@ == q_email@,
            None => !email_taken(users@, q_email@),
        },
{
    let mut i: usize = 0;
    while i < users.len()
        invariant
            i <= users@.len(),
            forall|k: int| 0 <= k < i ==> (#[trigger] users@[k]).email@ != q_email@,
        decreases users@.len() - i,
    {
        if users[i].email == *q_email {
            return Some(i);
        }
        i = i + 1;
    }
    None
}

/// The index of the user with this username.
fn find_username(users: &Vec<User>, q_username: &String) -> (r: Option<usize>)
    ensures
        match r {
            Some(i) => i < users@.len() && users@[i as int].username@ == q_username@,
            None => !username_taken(users@, q_username@),
        },
{
    let mut i: usize = 0;
    while i < users.len()
        invariant
            i <= users@.len(),
            forall|k: int| 0 <= k < i ==> (#[trigger] users@[k]).username@ != q_username@,
        decreases users@.len() - i,
    {
        if users[i].username == *q_username {
            return Some(i);
        }
        i = i + 1;
    }
    None
}

/// The user with this email.
pub fn get_by_email(q_email: &String, store: &Store) -> (r: Result<User, ServiceError>)
    ensures
        match r {
            Ok(u) => store@.users.contains(u) && u.email@ == q_email@,
            Err(e) => e == ServiceError::NotFound && !email_taken(store@.users, q_email@),
        },
{
    match find_email(&store.users, q_email) {
        Some(i) => Ok(store.users[i].clone()),
        None => Err(ServiceError::NotFound),
    }
}

/// The user with this username.
pub fn get_by_username(q_username: &String, store: &Store) -> (r: Result<User, ServiceError>)
    ensures
        match r {
            Ok(u) => store@.users.contains(u) && u.username@ == q_username@,
            Err(e) => e == ServiceError::NotFound && !username_taken(store@.users, q_username@),
        },
{
    match find_username(&store.users, q_username) {
        Some(i) => Ok(store.users[i].clone()),
        None => Err(ServiceError::NotFound),
    }
}

/// The user with this id.
pub fn get(q_id: u128, store: &Store) -> (r: Result<User, ServiceError>)
    ensures
        match r {
            Ok(u) => store@.users.contains(u) && u.id == q_id,
            Err(e) => e == ServiceError::NotFound && !has_key(store@.users, q_id),
        },
{
    match find_key(&store.users, q_id) {
        Some(i) => Ok(store.users[i].clone()),
        None => Err(ServiceError::NotFound),
    }
}

/// Registers a user (not an administrator) with `q_password` hashed under
/// `salt`. A taken email or username is refused with `BadRequest`; a taken
/// id, which the server drew, with `InternalServerError`.
pub fn create(
    q_id: u128,
    q_email: String,
    q_username: String,
    q_password: &str,
    salt: u128,
    now: i64,
    store: &mut Store,
) -> (r: Result<User, ServiceError>)
    requires
        old(store)@.wf(),
    ensures
        final(store)@.wf(),
        match r {
            Ok(u) => {
                &&& !user_conflict(old(store)@.users, q_id, q_email@, q_username@)
                &&& argon2_encoding(q_password@, salt) == Some(u.hash@)
                &&& argon2_verdict(u.hash@, q_password@) == Some(true)
                &&& u.id == q_id && !u.isadmin && u.email == q_email && u.username == q_username
                &&& u.created_at == now
                &&& final(store)@ == with_users(old(store)@, old(store)@.users.push(u))
            },
            Err(e) => {
                &&& final(store)@ == old(store)@
                &&& has_key(old(store)@.users, q_id) ==> e == ServiceError::InternalServerError
                &&& !has_key(old(store)@.users, q_id) && user_conflict(old(store)@.users, q_id, q_email@, q_username@)
                    ==> e == ServiceError::BadRequest
                &&& !user_conflict(old(store)@.users, q_id, q_email@, q_username@) ==> e
                    == ServiceError::InternalServerError && argon2_encoding(q_password@, salt) is None
            },
        },
{
    if find_key(&store.users, q_id).is_some() {
        return Err(ServiceError::InternalServerError);
    }
    if find_email(&store.users, &q_email).is_some() || find_username(&store.users, &q_username).is_some() {
        return Err(ServiceError::BadRequest);
    }
    let hash = hash_password(q_password, salt)?;
    let user = User { id: q_id, isadmin: false, email: q_email, username: q_username, hash, created_at: now };
    let ghost users = store.users@;
    let ghost u = user;
    push_row(&mut store.users, user.clone());
    assert(users_distinct(store.users@)) by {
        assert forall|i: int, j: int|
            0 <= i < store.users@.len() && 0 <= j < store.users@.len() && i != j implies {
            &&& (#[trigger] store.users@[i]).email@ != (#[trigger] store.users@[j]).email@
            &&& store.users@[i].username@ != store.users@[j].username@
        } by {
            if i == users.len() {
                assert(store.users@[j] == users[j]);
            } else if j == users.len() {
                assert(store.users@[i] == users[i]);
            } else {
                assert(store.users@[i] == users[i] && store.users@[j] == users[j]);
            }
        }
    }
    assert(store@ == with_users(old(store)@, users.push(u)));
    Ok(user)
}

/// Whether a user other than `id` has this username.
pub open spec fn username_taken_by_other(users: Seq<User>, username: Seq<char>, id: u128) -> bool {
    exists|i: int| 0 <= i < users.len() && (#[trigger] users[i]).username@ == username && users[i].id != id
}

/// Changing the username or hash of one user keeps the unique columns unique,
/// as long as the username is not another user's.
proof fn lemma_update_distinct(users: Seq<User>, i: int, u: User)
    requires
        0 <= i < users.len(),
        keys_unique(users),
        users_distinct(users),
        u.id == users[i].id,
        u.email == users[i].email,
        !username_taken_by_other(users, u.username@, u.id),
    ensures
        users_distinct(users.update(i, u)),
{
    let n = users.update(i, u);
    assert forall|a: int, b: int| 0 <= a < n.len() && 0 <= b < n.len() && a != b implies {
        &&& (#[trigger] n[a]).email@ != (#[trigger] n[b]).email@
        &&& n[a].username@ != n[b].username@
    } by {
        if a == i {
            assert(users[b].spec_key() != users[i].spec_key());
        } else if b == i {
            assert(users[a].spec_key() != users[i].spec_key());
        }
    }
}

/// Removing a user keeps the unique columns unique.
proof fn lemma_remove_distinct(users: Seq<User>, i: int)
    requires
        0 <= i < users.len(),
        users_distinct(users),
    ensures
        users_distinct(users.remove(i)),
{
    let n = users.remove(i);
    assert forall|a: int, b: int| 0 <= a < n.len() && 0 <= b < n.len() && a != b implies {
        &&& (#[trigger] n[a]).email@ != (#[trigger] n[b]).email@
        &&& n[a].username@ != n[b].username@
    } by {
        let oa = if a < i { a } else { a + 1 };
        let ob = if b < i { b } else { b + 1 };
        assert(n[a] == users[oa] && n[b] == users[ob]);
    }
}

fn username_used_by_other(users: &Vec<User>, q_username: &String, id: u128) -> (r: bool)
    ensures
        r == username_taken_by_other(users@, q_username@, id),
{
    let mut k: usize = 0;
    while k < users.len()
        invariant
            k <= users@.len(),
            forall|j: int| 0 <= j < k ==> (#[trigger] users@[j]).username@ != q_username@
                || users@[j].id == id,
        decreases users@.len() - k,
    {
        if users[k].username == *q_username && users[k].id != id {
            return true;
        }
        k = k + 1;
    }
    false
}

/// How setting the username and the admin flag of user `id` takes the store
/// from `before` to `after` with result `r`: `NotFound` where there is no
/// such user, `BadRequest` where another user has the username.
pub open spec fn user_update_post(
    before: StoreView,
    after: StoreView,
    id: u128,
    username: String,
    isadmin: bool,
    r: Result<User, ServiceError>,
) -> bool {
    &&& r is Ok <==> has_key(before.users, id) && !username_taken_by_other(before.users, username@, id)
    &&& match r {
        Ok(u) => exists|i: int|
            0 <= i < before.users.len() && (#[trigger] before.users[i]).id == id && u == (User {
                username,
                isadmin,
                ..before.users[i]
            }) && after == with_users(before, before.users.update(i, u)),
        Err(e) => after == before && e == if has_key(before.users, id) {
            ServiceError::BadRequest
        } else {
            ServiceError::NotFound
        },
    }
}

/// Sets the username and the admin flag of the user with `uuid_data`.
pub fn update(uuid_data: u128, q_username: String, q_user_is_admin: bool, store: &mut Store) -> (r: Result<User, ServiceError>)
    requires
        old(store)@.wf(),
    ensures
        final(store)@.wf(),
        user_update_post(old(store)@, final(store)@, uuid_data, q_username, q_user_is_admin, r),
{
    let i = match find_key(&store.users, uuid_data) {
        Some(i) => i,
        None => return Err(ServiceError::NotFound),
    };
    if username_used_by_other(&store.users, &q_username, uuid_data) {
        return Err(ServiceError::BadRequest);
    }
    let old_user = store.users[i].clone();
    let user = User { username: q_username, isadmin: q_user_is_admin, ..old_user };
    proof {
        lemma_update_distinct(store.users@, i as int, user);
    }
    set_row(&mut store.users, i, user.clone());
    assert(store@ == with_users(old(store)@, old(store)@.users.update(i as int, user)));
    Ok(user)
}

/// Stores `q_password`, hashed under `salt`, for the user with this email.
pub fn set_password(q_email: &String, q_password: &str, salt: u128, store: &mut Store) -> (r: Result<User, ServiceError>)
    requires
        old(store)@.wf(),
    ensures
        final(store)@.wf(),
        r is Ok <==> email_taken(old(store)@.users, q_email@) && argon2_encoding(q_password@, salt) is Some,
        match r {
            Ok(u) => exists|i: int|
                0 <= i < old(store)@.users.len() && (#[trigger] old(store)@.users[i]).email@ == q_email@
                    && argon2_encoding(q_password@, salt) == Some(u.hash@) && argon2_verdict(u.hash@, q_password@)
                    == Some(true) && u == (User {
                    hash: u.hash,
                    ..old(store)@.users[i]
                }) && final(store)@ == with_users(old(store)@, old(store)@.users.update(i, u)),
            Err(e) => final(store)@ == old(store)@ && e == if email_taken(old(store)@.users, q_email@) {
                ServiceError::InternalServerError
            } else {
                ServiceError::NotFound
            },
        },
{
    let i = match find_email(&store.users, q_email) {
        Some(i) => i,
        None => return Err(ServiceError::NotFound),
    };
    let hash = hash_password(q_password, salt)?;
    let old_user = store.users[i].clone();
    let user = User { hash, ..old_user };
    proof {
        assert(!username_taken_by_other(store.users@, user.username@, user.id));
        lemma_update_distinct(store.users@, i as int, user);
    }
    set_row(&mut store.users, i, user.clone());
    assert(store@ == with_users(old(store)@, old(store)@.users.update(i as int, user)));
    Ok(user)
}

/// Deletes the user with `uuid_data`.
pub fn delete_user(uuid_data: u128, store: &mut Store) -> (r: Result<(), ServiceError>)
    requires
        old(store)@.wf(),
    ensures
        final(store)@.wf(),
        r is Ok <==> has_key(old(store)@.users, uuid_data),
        r is Ok ==> exists|i: int|
            0 <= i < old(store)@.users.len() && old(store)@.users[i].id == uuid_data && final(store)@
                == with_users(old(store)@, old(store)@.users.remove(i)),
        r is Err ==> r == Err::<(), ServiceError>(ServiceError::NotFound) && final(store)@ == old(store)@,
{
    match find_key(&store.users, uuid_data) {
        Some(i) => {
            proof {
                lemma_remove_distinct(store.users@, i as int);
            }
            remove_row(&mut store.users, i);
            assert(store@ == with_users(old(store)@, old(store)@.users.remove(i as int)));
            Ok(())
        },
        None => Err(ServiceError::NotFound),
    }
}

/// Whether the users are ordered by username.
pub open spec fn sorted_by_username(s: Seq<User>) -> bool {
    forall|i: int, j: int| 0 <= i < j < s.len() ==> text_le(#[trigger] s[i].username@, #[trigger] s[j].username@)
}

/// Inserting a user after those that come no later and before the next one
/// keeps the order.
proof fn lemma_insert_sorted(s: Seq<User>, k: int, u: User)
    requires
        sorted_by_username(s),
        0 <= k <= s.len(),
        forall|j: int| 0 <= j < k ==> text_le(#[trigger] s[j].username@, u.username@),
        k < s.len() ==> !text_le(s[k].username@, u.username@),
    ensures
        sorted_by_username(s.insert(k, u)),
{
    let n = s.insert(k, u);
    if k < s.len() {
        lemma_text_le_total(s[k].username@, u.username@);
    }
    assert forall|a: int, b: int| 0 <= a < b < n.len() implies text_le(#[trigger] n[a].username@, #[trigger] n[b].username@) by {
        if b < k {
            assert(n[a] == s[a] && n[b] == s[b]);
        } else if b == k {
            assert(n[a] == s[a]);
        } else if a < k {
            assert(n[a] == s[a] && n[b] == s[b - 1]);
        } else if a == k {
            assert(n[b] == s[b - 1]);
            if b - 1 > k {
                assert(text_le(s[k].username@, s[b - 1].username@));
                lemma_text_le_transitive(u.username@, s[k].username@, s[b - 1].username@);
            }
        } else {
            assert(n[a] == s[a - 1] && n[b] == s[b - 1]);
        }
    }
}

/// All users, ordered by username.
pub fn query_all(store: &Store) -> (r: Vec<User>)
    ensures
        sorted_by_username(r@),
        r@.len() == store@.users.len(),
        forall|x: User| r@.contains(x) <==> store@.users.contains(x),
{
    let mut r: Vec<User> = Vec::new();
    let mut i: usize = 0;
    while i < store.users.len()
        invariant
            i <= store.users@.len(),
            r@.len() == i,
            sorted_by_username(r@),
            forall|x: User| r@.contains(x) <==> store.users@.subrange(0, i as int).contains(x),
        decreases store.users@.len() - i,
    {
        let u = store.users[i].clone();
        let mut k: usize = 0;
        let mut before = true;
        while k < r.len() && before
            invariant
                k <= r@.len(),
                forall|j: int| 0 <= j < k ==> text_le(#[trigger] r@[j].username@, u.username@),
                !before ==> k < r@.len() && !text_le(r@[k as int].username@, u.username@),
            decreases r@.len() - k + if before { 1int } else { 0int },
        {
            if str_le(r[k].username.as_str(), u.username.as_str()) {
                k = k + 1;
            } else {
                before = false;
            }
        }
        proof {
            lemma_insert_sorted(r@, k as int, u);
        }
        let ghost prev = r@;
        r.insert(k, u);
        proof {
            let users = store.users@;
            let pre_old = users.subrange(0, i as int);
            let pre_new = users.subrange(0, i + 1);
            assert forall|x: User| r@.contains(x) <==> pre_new.contains(x) by {
                if r@.contains(x) {
                    let a = choose|a: int| 0 <= a < r@.len() && r@[a] == x;
                    if a < k {
                        assert(prev[a] == x);
                        assert(prev.contains(x));
                        let b = choose|b: int| 0 <= b < pre_old.len() && pre_old[b] == x;
                        assert(pre_new[b] == x);
                    } else if a == k {
                        assert(pre_new[i as int] == x);
                    } else {
                        assert(prev[a - 1] == x);
                        assert(prev.contains(x));
                        let b = choose|b: int| 0 <= b < pre_old.len() && pre_old[b] == x;
                        assert(pre_new[b] == x);
                    }
                }
                if pre_new.contains(x) {
                    let b = choose|b: int| 0 <= b < pre_new.len() && pre_new[b] == x;
                    if b < i {
                        assert(pre_old[b] == x);
                        assert(pre_old.contains(x));
                        assert(prev.contains(x));
                        let a = choose|a: int| 0 <= a < prev.len() && prev[a] == x;
                        if a < k {
                            assert(r@[a] == x);
                        } else {
                            assert(r@[a + 1] == x);
                        }
                    } else {
                        assert(r@[k as int] == x);
                    }
                }
            }
        }
        i = i + 1;
    }
    assert(store.users@.subrange(0, store.users@.len() as int) =~= store.users@);
    r
}

} // verus!
