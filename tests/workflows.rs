use lorekeeper::errors::ServiceError;
use lorekeeper::handlers::auth_handler::{query, AuthData};
use lorekeeper::handlers::invitation_handler::{
    post_invitation, post_reset_request, query_invitation, query_reset_request, register, register_user,
    InvitationData, ResetRequestData,
};
use lorekeeper::handlers::users_handler::{
    complete_reset, delete_user, get_all, get_by_uuid, query_one, update_password, update_user,
    ForgotPasswordData, NewUserData, QueryData,
};
use lorekeeper::models::users::{LoggedUser, User};
use lorekeeper::storage::invitations_storage::get_invitation;
use lorekeeper::storage::reset_requests_storage::get_by_reset_request;
use lorekeeper::storage::users_storage::{create, get, get_by_email, get_by_username, set_password};
use lorekeeper::storage::Store;
use lorekeeper::utils::verify;

const NOW: i64 = 1_700_000_000;

fn seeded() -> (Store, User) {
    let mut store = Store::new();
    let user = create(11, "a@x.com".to_string(), "alice".to_string(), "correct", 99, NOW, &mut store).unwrap();
    (store, user)
}

fn me(user: &User) -> LoggedUser {
    LoggedUser { id: user.id, email: user.email.clone(), isadmin: user.isadmin }
}

fn admin() -> LoggedUser {
    LoggedUser { id: 1000, email: "root@x.com".to_string(), isadmin: true }
}

#[test]
fn invitation_for_existing_email_is_refused() {
    let (mut store, _) = seeded();
    let r = query_invitation(&"a@x.com".to_string(), &"newname".to_string(), &None, 77, 5, NOW, &mut store);
    assert_eq!(r, Err(ServiceError::Unauthorized));
    assert_eq!(get_invitation(77, &store), Err(ServiceError::NotFound));
}

#[test]
fn invitation_for_existing_username_is_refused() {
    let (mut store, _) = seeded();
    let r = query_invitation(&"new@x.com".to_string(), &"alice".to_string(), &None, 77, 5, NOW, &mut store);
    assert_eq!(r, Err(ServiceError::Unauthorized));
    assert_eq!(get_invitation(77, &store), Err(ServiceError::NotFound));
}

#[test]
fn post_invitation_for_existing_email_is_refused() {
    let (mut store, _) = seeded();
    let data = InvitationData { email: "a@x.com".to_string(), password_plain: None, username: "bob".to_string() };
    assert_eq!(post_invitation(&data, &mut store).err(), Some(ServiceError::Unauthorized));
}

#[test]
fn invitation_is_recorded_with_hashed_password() {
    let (mut store, _) = seeded();
    let inv = query_invitation(
        &"b@x.com".to_string(),
        &"bob".to_string(),
        &Some("secret".to_string()),
        77,
        5,
        NOW,
        &mut store,
    )
    .unwrap();
    assert_eq!(inv.id, 77);
    assert_eq!(inv.email, "b@x.com");
    assert_eq!(inv.updated_by, "b@x.com");
    assert_eq!(inv.expires_at, NOW + 86_400);
    assert_eq!(inv.reset_request_id, None);
    let hashed = inv.password_plain.clone().unwrap();
    assert_ne!(hashed, "secret");
    assert_eq!(verify(&hashed, "secret"), Ok(true));
    assert_eq!(get_invitation(77, &store).unwrap(), inv);
    let again = query_invitation(&"c@x.com".to_string(), &"carol".to_string(), &None, 77, 5, NOW, &mut store);
    assert_eq!(again, Err(ServiceError::InternalServerError));
}

#[test]
fn post_invitation_with_clock() {
    let (mut store, _) = seeded();
    let data = InvitationData { email: "b@x.com".to_string(), password_plain: None, username: "bob".to_string() };
    let inv = post_invitation(&data, &mut store).unwrap();
    assert_eq!(inv.email, "b@x.com");
    assert_eq!(inv.username, "bob");
    assert_eq!(inv.password_plain, None);
    assert_eq!(get_invitation(inv.id, &store).unwrap(), inv);
}

#[test]
fn registration_consumes_invitation() {
    let (mut store, _) = seeded();
    query_invitation(&"b@x.com".to_string(), &"bob".to_string(), &None, 77, 5, NOW, &mut store).unwrap();
    let data = NewUserData { email: "b@x.com".to_string(), password: "pw-b".to_string(), username: "bob".to_string() };
    let user = register(77, &data, 12, 6, NOW + 10, &mut store).unwrap();
    assert_eq!(user.id, 12);
    assert!(!user.isadmin);
    assert_eq!(user.created_at, NOW + 10);
    assert_eq!(get_by_username(&"bob".to_string(), &store).unwrap(), user);
    assert_eq!(get_invitation(77, &store), Err(ServiceError::NotFound));
    let session = query(&AuthData { email: "b@x.com".to_string(), password: "pw-b".to_string() }, 1, NOW, &mut store);
    assert!(session.is_ok());
}

#[test]
fn registration_refuses_expired_or_foreign_invitation() {
    let (mut store, _) = seeded();
    query_invitation(&"b@x.com".to_string(), &"bob".to_string(), &None, 77, 5, NOW, &mut store).unwrap();
    let data = NewUserData { email: "b@x.com".to_string(), password: "pw".to_string(), username: "bob".to_string() };
    assert_eq!(register(77, &data, 12, 6, NOW + 86_400, &mut store), Err(ServiceError::Unauthorized));
    let other = NewUserData { email: "z@x.com".to_string(), password: "pw".to_string(), username: "zed".to_string() };
    assert_eq!(register(77, &other, 12, 6, NOW, &mut store), Err(ServiceError::Unauthorized));
    assert_eq!(register(78, &data, 12, 6, NOW, &mut store), Err(ServiceError::Unauthorized));
    assert!(get_invitation(77, &store).is_ok());
    assert_eq!(register_user("garbage", &data, &mut store), Err(ServiceError::BadRequest));
}

#[test]
fn register_user_by_path() {
    let (mut store, _) = seeded();
    let data = InvitationData { email: "b@x.com".to_string(), password_plain: None, username: "bob".to_string() };
    let inv = post_invitation(&data, &mut store).unwrap();
    let path = uuid::Uuid::from_u128(inv.id).hyphenated().to_string();
    let new_user = NewUserData { email: "b@x.com".to_string(), password: "pw".to_string(), username: "bob".to_string() };
    let user = register_user(&path, &new_user, &mut store).unwrap();
    assert_eq!(user.email, "b@x.com");
}

#[test]
fn reset_request_needs_existing_account() {
    let (mut store, _) = seeded();
    assert_eq!(query_reset_request(&"nobody@x.com".to_string(), 40, NOW, &mut store), Err(ServiceError::Unauthorized));
    assert_eq!(get_by_reset_request(40, &store), Err(ServiceError::NotFound));
    let req = query_reset_request(&"a@x.com".to_string(), 40, NOW, &mut store).unwrap();
    assert_eq!(req.expires_at, NOW + 86_400);
    assert_eq!(get_by_reset_request(40, &store).unwrap(), req);
    let data = ResetRequestData { email: "nobody@x.com".to_string() };
    assert_eq!(post_reset_request(&data, &mut store).err(), Some(ServiceError::Unauthorized));
}

#[test]
fn reset_with_unknown_id_keeps_hash() {
    let (mut store, user) = seeded();
    let payload = ForgotPasswordData { email: "a@x.com".to_string(), password: "new".to_string(), id: 40 };
    assert_eq!(complete_reset(&payload, 3, NOW, &mut store), Err(ServiceError::Unauthorized));
    assert_eq!(get(user.id, &store).unwrap().hash, user.hash);
    assert_eq!(update_password(&payload, &mut store), Err(ServiceError::Unauthorized));
    assert_eq!(get(user.id, &store).unwrap().hash, user.hash);
}

#[test]
fn reset_with_expired_id_keeps_hash() {
    let (mut store, user) = seeded();
    query_reset_request(&"a@x.com".to_string(), 40, NOW, &mut store).unwrap();
    let payload = ForgotPasswordData { email: "a@x.com".to_string(), password: "new".to_string(), id: 40 };
    assert_eq!(complete_reset(&payload, 3, NOW + 86_400, &mut store), Err(ServiceError::Unauthorized));
    assert_eq!(get(user.id, &store).unwrap().hash, user.hash);
}

#[test]
fn reset_sets_new_hash_and_consumes_request() {
    let (mut store, user) = seeded();
    query_reset_request(&"a@x.com".to_string(), 40, NOW, &mut store).unwrap();
    let payload = ForgotPasswordData { email: "a@x.com".to_string(), password: "new".to_string(), id: 40 };
    let updated = complete_reset(&payload, 3, NOW + 5, &mut store).unwrap();
    assert_ne!(updated.hash, user.hash);
    assert_eq!(verify(&updated.hash, "new"), Ok(true));
    assert_eq!(verify(&updated.hash, "correct"), Ok(false));
    assert_eq!(get_by_reset_request(40, &store), Err(ServiceError::NotFound));
    assert_eq!(complete_reset(&payload, 3, NOW + 6, &mut store), Err(ServiceError::Unauthorized));
}

#[test]
fn reset_for_other_email_is_refused() {
    let (mut store, user) = seeded();
    create(12, "b@x.com".to_string(), "bob".to_string(), "pw", 4, NOW, &mut store).unwrap();
    query_reset_request(&"b@x.com".to_string(), 40, NOW, &mut store).unwrap();
    let payload = ForgotPasswordData { email: "a@x.com".to_string(), password: "new".to_string(), id: 40 };
    assert_eq!(complete_reset(&payload, 3, NOW, &mut store), Err(ServiceError::Unauthorized));
    assert_eq!(get(user.id, &store).unwrap().hash, user.hash);
}

#[test]
fn create_refuses_duplicates() {
    let (mut store, _) = seeded();
    assert_eq!(create(11, "z@x.com".to_string(), "z".to_string(), "p", 1, NOW, &mut store), Err(ServiceError::InternalServerError));
    assert_eq!(create(12, "a@x.com".to_string(), "z".to_string(), "p", 1, NOW, &mut store), Err(ServiceError::BadRequest));
    assert_eq!(create(12, "z@x.com".to_string(), "alice".to_string(), "p", 1, NOW, &mut store), Err(ServiceError::BadRequest));
}

#[test]
fn set_password_unknown_email_is_not_found() {
    let (mut store, _) = seeded();
    assert_eq!(set_password(&"q@x.com".to_string(), "p", 1, &mut store), Err(ServiceError::NotFound));
}

#[test]
fn get_all_is_for_admins_and_sorted() {
    let mut store = Store::new();
    create(3, "c@x.com".to_string(), "carol".to_string(), "p", 1, NOW, &mut store).unwrap();
    create(1, "a@x.com".to_string(), "alice".to_string(), "p", 1, NOW, &mut store).unwrap();
    create(2, "b@x.com".to_string(), "bob".to_string(), "p", 1, NOW, &mut store).unwrap();
    let plain = LoggedUser { id: 1, email: "a@x.com".to_string(), isadmin: false };
    assert_eq!(get_all(&store, &plain).err(), Some(ServiceError::AdminRequired));
    let names: Vec<String> = get_all(&store, &admin()).unwrap().into_iter().map(|u| u.username).collect();
    assert_eq!(names, vec!["alice".to_string(), "bob".to_string(), "carol".to_string()]);
    assert_eq!(get_all(&Store::new(), &admin()).err(), Some(ServiceError::Empty));
}

#[test]
fn update_user_denied_changes_nothing() {
    let (mut store, user) = seeded();
    let other = LoggedUser { id: 5, email: "o@x.com".to_string(), isadmin: false };
    let path = uuid::Uuid::from_u128(user.id).to_string();
    let payload = QueryData { id: path.clone(), username: "mallory".to_string(), isadmin: true, email: "a@x.com".to_string() };
    assert_eq!(update_user(&path, &payload, &mut store, &other), Err(ServiceError::AdminRequired));
    assert_eq!(get(user.id, &store).unwrap(), user);
    assert_eq!(update_user("nope", &payload, &mut store, &other), Err(ServiceError::BadRequest));
}

#[test]
fn update_user_by_owner() {
    let (mut store, user) = seeded();
    let path = uuid::Uuid::from_u128(user.id).to_string();
    let payload = QueryData { id: path.clone(), username: "alicia".to_string(), isadmin: false, email: "a@x.com".to_string() };
    let updated = update_user(&path, &payload, &mut store, &me(&user)).unwrap();
    assert_eq!(updated.username, "alicia");
    assert_eq!(updated.hash, user.hash);
    assert_eq!(get(user.id, &store).unwrap(), updated);
}

#[test]
fn update_user_to_taken_username_is_bad_request() {
    let (mut store, user) = seeded();
    create(12, "b@x.com".to_string(), "bob".to_string(), "pw", 4, NOW, &mut store).unwrap();
    let path = uuid::Uuid::from_u128(user.id).to_string();
    let payload = QueryData { id: path.clone(), username: "bob".to_string(), isadmin: false, email: "a@x.com".to_string() };
    assert_eq!(update_user(&path, &payload, &mut store, &me(&user)), Err(ServiceError::BadRequest));
    let missing = uuid::Uuid::from_u128(999).to_string();
    assert_eq!(update_user(&missing, &payload, &mut store, &admin()), Err(ServiceError::NotFound));
}

#[test]
fn get_by_uuid_hides_hash_and_checks_owner() {
    let (store, user) = seeded();
    let path = uuid::Uuid::from_u128(user.id).to_string();
    let dto = get_by_uuid(&path, &store, &me(&user)).unwrap();
    assert_eq!(dto.id, user.id);
    assert_eq!(dto.username, "alice");
    assert_eq!(dto.email, "a@x.com");
    let other = LoggedUser { id: 5, email: "o@x.com".to_string(), isadmin: false };
    assert_eq!(get_by_uuid(&path, &store, &other), Err(ServiceError::AdminRequired));
    assert_eq!(get_by_uuid(&path, &store, &admin()).unwrap(), dto);
}

#[test]
fn query_one_nil_id_is_empty() {
    let mut store = Store::new();
    create(0, "n@x.com".to_string(), "nil".to_string(), "p", 1, NOW, &mut store).unwrap();
    assert_eq!(query_one(0, &store), Err(ServiceError::Empty));
    assert_eq!(query_one(7, &store), Err(ServiceError::NotFound));
}

#[test]
fn delete_user_checks_owner() {
    let (mut store, user) = seeded();
    let path = uuid::Uuid::from_u128(user.id).to_string();
    let other = LoggedUser { id: 5, email: "o@x.com".to_string(), isadmin: false };
    assert_eq!(delete_user(&path, &mut store, &other), Err(ServiceError::AdminRequired));
    assert!(get(user.id, &store).is_ok());
    assert_eq!(delete_user(&path, &mut store, &me(&user)), Ok(()));
    assert_eq!(get(user.id, &store), Err(ServiceError::NotFound));
    assert_eq!(get_by_email(&"a@x.com".to_string(), &store), Err(ServiceError::NotFound));
    assert_eq!(delete_user(&path, &mut store, &admin()), Err(ServiceError::NotFound));
}

#[test]
fn post_reset_request_for_known_email() {
    let (mut store, _) = seeded();
    let data = ResetRequestData { email: "a@x.com".to_string() };
    let req = post_reset_request(&data, &mut store).unwrap();
    assert_eq!(req.email, "a@x.com");
    assert_eq!(get_by_reset_request(req.id, &store).unwrap(), req);
}

#[test]
fn reset_request_with_id_in_use_is_server_error() {
    let (mut store, _) = seeded();
    query_reset_request(&"a@x.com".to_string(), 40, NOW, &mut store).unwrap();
    assert_eq!(query_reset_request(&"a@x.com".to_string(), 40, NOW, &mut store), Err(ServiceError::InternalServerError));
}

#[test]
fn set_password_hash_verifies_new_password() {
    let (mut store, user) = seeded();
    let updated = set_password(&"a@x.com".to_string(), "fresh", 5, &mut store).unwrap();
    assert_eq!(updated.id, user.id);
    assert_eq!(updated.username, user.username);
    assert_eq!(verify(&updated.hash, "fresh"), Ok(true));
    assert_eq!(verify(&updated.hash, "correct"), Ok(false));
}
