use lorekeeper::errors::ServiceError;
use lorekeeper::handlers::auth_handler::{get_me, login, logout, query, AuthData};
use lorekeeper::identity::{authorize, identify, require_admin, resolve_identity, resolve_session};
use lorekeeper::models::users::{LoggedUser, User};
use lorekeeper::storage::sessions_storage::{create_session, delete_session, get_session};
use lorekeeper::storage::users_storage::{create, get_by_email};
use lorekeeper::storage::Store;

const NOW: i64 = 1_700_000_000;

fn seeded(email: &str, password: &str) -> (Store, User) {
    let mut store = Store::new();
    let user = create(11, email.to_string(), "alice".to_string(), password, 99, NOW, &mut store).unwrap();
    (store, user)
}

fn auth(email: &str, password: &str) -> AuthData {
    AuthData { email: email.to_string(), password: password.to_string() }
}

#[test]
fn login_then_token_resolves_to_same_user() {
    let (mut store, user) = seeded("a@x.com", "correct");
    let session = query(&auth("a@x.com", "correct"), 500, NOW, &mut store).unwrap();
    assert_eq!(session.session_id, 500);
    assert_eq!(session.user_id, user.id);
    assert_eq!(session.email, "a@x.com");
    assert!(!session.isadmin);
    assert_eq!(session.expire_at, NOW + 86_400);
    let logged = resolve_session(500, NOW + 60, &store).unwrap();
    assert_eq!(logged.id, user.id);
    assert_eq!(logged.email, "a@x.com");
}

#[test]
fn login_with_clock_and_cookie_text() {
    let (mut store, user) = seeded("a@x.com", "correct");
    let session = login(&auth("a@x.com", "correct"), &mut store).unwrap();
    let cookie = uuid::Uuid::from_u128(session.session_id).to_string();
    let logged = identify(Some(cookie.as_str()), &store).unwrap();
    assert_eq!(logged.id, user.id);
    assert_eq!(get_me(&logged), user.id);
}

#[test]
fn login_wrong_password_is_unauthorized() {
    let (mut store, _) = seeded("a@x.com", "correct");
    let r = query(&auth("a@x.com", "wrong"), 500, NOW, &mut store);
    assert_eq!(r, Err(ServiceError::Unauthorized));
    assert_eq!(get_session(500, &store), Err(ServiceError::NotFound));
}

#[test]
fn login_unknown_email_is_unauthorized() {
    let (mut store, _) = seeded("a@x.com", "correct");
    let r = query(&auth("b@x.com", "correct"), 500, NOW, &mut store);
    assert_eq!(r, Err(ServiceError::Unauthorized));
}

#[test]
fn login_with_token_in_use_is_unauthorized() {
    let (mut store, _) = seeded("a@x.com", "correct");
    query(&auth("a@x.com", "correct"), 500, NOW, &mut store).unwrap();
    let r = query(&auth("a@x.com", "correct"), 500, NOW, &mut store);
    assert_eq!(r, Err(ServiceError::Unauthorized));
}

#[test]
fn concurrent_sessions_are_independent() {
    let (mut store, user) = seeded("a@x.com", "correct");
    query(&auth("a@x.com", "correct"), 500, NOW, &mut store).unwrap();
    query(&auth("a@x.com", "correct"), 501, NOW, &mut store).unwrap();
    assert_eq!(resolve_session(500, NOW, &store).unwrap().id, user.id);
    assert_eq!(resolve_session(501, NOW, &store).unwrap().id, user.id);
}

#[test]
fn unknown_token_is_unauthorized() {
    let (store, _) = seeded("a@x.com", "correct");
    assert_eq!(resolve_session(12345, NOW, &store), Err(ServiceError::Unauthorized));
}

#[test]
fn expired_session_is_unauthorized() {
    let (mut store, user) = seeded("a@x.com", "correct");
    query(&auth("a@x.com", "correct"), 500, NOW, &mut store).unwrap();
    assert_eq!(resolve_session(500, NOW + 86_399, &store).unwrap().id, user.id);
    assert_eq!(resolve_session(500, NOW + 86_400, &store), Err(ServiceError::Unauthorized));
    assert_eq!(resolve_session(500, NOW + 90_000, &store), Err(ServiceError::Unauthorized));
    assert!(get_session(500, &store).is_ok());
}

#[test]
fn missing_or_malformed_token_text_is_unauthorized() {
    let (mut store, _) = seeded("a@x.com", "correct");
    query(&auth("a@x.com", "correct"), 500, NOW, &mut store).unwrap();
    assert_eq!(resolve_identity(None, NOW, &store), Err(ServiceError::Unauthorized));
    assert_eq!(resolve_identity(Some(""), NOW, &store), Err(ServiceError::Unauthorized));
    assert_eq!(resolve_identity(Some("not-a-token"), NOW, &store), Err(ServiceError::Unauthorized));
    let text = uuid::Uuid::from_u128(500).to_string();
    assert!(resolve_identity(Some(text.as_str()), NOW, &store).is_ok());
}

#[test]
fn authorize_all_four_cases() {
    let admin = LoggedUser { id: 1, email: "a@x.com".to_string(), isadmin: true };
    let plain = LoggedUser { id: 1, email: "p@x.com".to_string(), isadmin: false };
    assert!(lorekeeper::identity::allow(&admin, 1));
    assert!(lorekeeper::identity::allow(&admin, 2));
    assert!(lorekeeper::identity::allow(&plain, 1));
    assert!(!lorekeeper::identity::allow(&plain, 2));
    assert_eq!(authorize(&admin, 1), Ok(()));
    assert_eq!(authorize(&admin, 2), Ok(()));
    assert_eq!(authorize(&plain, 1), Ok(()));
    assert_eq!(authorize(&plain, 2), Err(ServiceError::AdminRequired));
    assert_eq!(require_admin(&admin), Ok(()));
    assert_eq!(require_admin(&plain), Err(ServiceError::AdminRequired));
}

#[test]
fn logout_twice_succeeds_both_times() {
    let (mut store, user) = seeded("a@x.com", "correct");
    query(&auth("a@x.com", "correct"), 500, NOW, &mut store).unwrap();
    let logged = resolve_session(500, NOW, &store).unwrap();
    assert_eq!(logout(&logged, &mut store), Ok(()));
    assert_eq!(logout(&logged, &mut store), Ok(()));
    assert_eq!(resolve_session(500, NOW, &store), Err(ServiceError::Unauthorized));
    assert_eq!(logged.id, user.id);
}

#[test]
fn logout_ends_every_session_of_the_user_only() {
    let mut store = Store::new();
    create(1, "a@x.com".to_string(), "a".to_string(), "pa", 7, NOW, &mut store).unwrap();
    create(2, "b@x.com".to_string(), "b".to_string(), "pb", 8, NOW, &mut store).unwrap();
    query(&auth("a@x.com", "pa"), 100, NOW, &mut store).unwrap();
    query(&auth("a@x.com", "pa"), 101, NOW, &mut store).unwrap();
    query(&auth("b@x.com", "pb"), 200, NOW, &mut store).unwrap();
    let a = resolve_session(100, NOW, &store).unwrap();
    logout(&a, &mut store).unwrap();
    assert_eq!(get_session(100, &store), Err(ServiceError::NotFound));
    assert_eq!(get_session(101, &store), Err(ServiceError::NotFound));
    assert_eq!(resolve_session(200, NOW, &store).unwrap().id, 2);
}

#[test]
fn end_to_end_login_me_logout() {
    let (mut store, user) = seeded("a@x.com", "correct");
    let session = login(&auth("a@x.com", "correct"), &mut store).unwrap();
    let cookie = uuid::Uuid::from_u128(session.session_id).to_string();
    let logged = identify(Some(cookie.as_str()), &store).unwrap();
    assert_eq!(get_me(&logged), user.id);
    assert_eq!(logout(&logged, &mut store), Ok(()));
    assert_eq!(identify(Some(cookie.as_str()), &store), Err(ServiceError::Unauthorized));
}

#[test]
fn sessions_storage_create_get_delete() {
    let mut store = Store::new();
    let email = "s@x.com".to_string();
    let s = create_session(9, 3, &email, true, NOW, &mut store).unwrap();
    assert_eq!(s.expire_at, NOW + 86_400);
    assert!(s.isadmin);
    assert_eq!(create_session(9, 4, &email, false, NOW, &mut store), Err(ServiceError::InternalServerError));
    assert_eq!(get_session(9, &store).unwrap().user_id, 3);
    assert_eq!(delete_session(3, &mut store), Ok(()));
    assert_eq!(delete_session(3, &mut store), Err(ServiceError::NotFound));
}

#[test]
fn login_snapshot_carries_admin_flag() {
    let (mut store, user) = seeded("a@x.com", "correct");
    lorekeeper::storage::users_storage::update(user.id, "alice".to_string(), true, &mut store).unwrap();
    query(&auth("a@x.com", "correct"), 500, NOW, &mut store).unwrap();
    assert!(resolve_session(500, NOW, &store).unwrap().isadmin);
    assert!(get_by_email(&"a@x.com".to_string(), &store).unwrap().isadmin);
}
