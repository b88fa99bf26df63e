use lorekeeper::errors::ServiceError;
use lorekeeper::handlers::article_handler::{
    add_article, delete_article, get_by_character_uuid as articles_of_character, get_by_uuid as get_article,
    update_article, ArticleData,
};
use lorekeeper::handlers::character_handler::{
    add_character, delete_character, get_by_character_uuid, get_by_user_uuid, CharacterData,
};
use lorekeeper::handlers::tag_handler::{add_tag, delete_tag, get_tags, update_tag, TagData};
use lorekeeper::ids::parse_id;
use lorekeeper::models::users::LoggedUser;
use lorekeeper::storage::articles_storage::{create_article, query_articles_by_character_uuid, query_articles_by_user_uuid};
use lorekeeper::storage::characters_storage::{create_character, query_characters_by_user_uuid, update_character};
use lorekeeper::storage::tags_storage::{create_content_tag, create_tag, query_content_tags, query_tags};
use lorekeeper::storage::Store;
use lorekeeper::utils::{hash_password, str_le, verify};

fn owner() -> LoggedUser {
    LoggedUser { id: 1, email: "o@x.com".to_string(), isadmin: false }
}

fn stranger() -> LoggedUser {
    LoggedUser { id: 2, email: "s@x.com".to_string(), isadmin: false }
}

fn admin() -> LoggedUser {
    LoggedUser { id: 3, email: "root@x.com".to_string(), isadmin: true }
}

fn text(id: u128) -> String {
    uuid::Uuid::from_u128(id).to_string()
}

fn character_data() -> CharacterData {
    CharacterData { name: "Ada".to_string(), description: "engineer".to_string() }
}

#[test]
fn add_character_records_owner_and_editor() {
    let mut store = Store::new();
    let c = add_character(&character_data(), &mut store, &owner()).unwrap();
    assert_eq!(c.user_id, 1);
    assert_eq!(c.name, "Ada");
    assert_eq!(c.updated_by, "o@x.com");
    assert_eq!(get_by_character_uuid(&text(c.id), &store, &owner()).unwrap(), c);
}

#[test]
fn character_read_is_owner_scoped() {
    let mut store = Store::new();
    let c = add_character(&character_data(), &mut store, &owner()).unwrap();
    assert_eq!(get_by_character_uuid(&text(c.id), &store, &stranger()), Err(ServiceError::AdminRequired));
    assert_eq!(get_by_character_uuid(&text(c.id), &store, &admin()).unwrap(), c);
    assert_eq!(get_by_character_uuid(&text(9), &store, &admin()), Err(ServiceError::NotFound));
    assert_eq!(get_by_character_uuid("bad", &store, &admin()), Err(ServiceError::BadRequest));
}

#[test]
fn characters_of_user() {
    let mut store = Store::new();
    create_character(10, 1, "A".to_string(), "a".to_string(), "o@x.com".to_string(), 5, &mut store).unwrap();
    create_character(11, 2, "B".to_string(), "b".to_string(), "s@x.com".to_string(), 5, &mut store).unwrap();
    create_character(12, 1, "C".to_string(), "c".to_string(), "o@x.com".to_string(), 5, &mut store).unwrap();
    let mine = get_by_user_uuid(&text(1), &store, &owner()).unwrap();
    assert_eq!(mine.iter().map(|c| c.id).collect::<Vec<u128>>(), vec![10, 12]);
    assert_eq!(get_by_user_uuid(&text(1), &store, &stranger()), Err(ServiceError::AdminRequired));
    assert_eq!(get_by_user_uuid(&text(2), &store, &admin()).unwrap().len(), 1);
    assert_eq!(query_characters_by_user_uuid(3, &store).len(), 0);
}

#[test]
fn denied_character_delete_changes_nothing() {
    let mut store = Store::new();
    let c = add_character(&character_data(), &mut store, &owner()).unwrap();
    assert_eq!(delete_character(&text(c.id), &mut store, &stranger()), Err(ServiceError::AdminRequired));
    assert_eq!(get_by_character_uuid(&text(c.id), &store, &owner()).unwrap(), c);
    assert_eq!(delete_character(&text(c.id), &mut store, &owner()), Ok(()));
    assert_eq!(get_by_character_uuid(&text(c.id), &store, &owner()), Err(ServiceError::NotFound));
}

#[test]
fn update_character_records_editor() {
    let mut store = Store::new();
    create_character(10, 1, "A".to_string(), "a".to_string(), "o@x.com".to_string(), 5, &mut store).unwrap();
    let c = update_character(10, "B".to_string(), "b".to_string(), "e@x.com".to_string(), &mut store).unwrap();
    assert_eq!((c.name.as_str(), c.description.as_str(), c.updated_by.as_str(), c.created_at), ("B", "b", "e@x.com", 5));
    assert_eq!(
        update_character(11, "B".to_string(), "b".to_string(), "e@x.com".to_string(), &mut store),
        Err(ServiceError::NotFound)
    );
}

fn article_data(title: &str) -> ArticleData {
    ArticleData { title: title.to_string(), ingress: "in".to_string(), body: "body".to_string() }
}

#[test]
fn article_lifecycle_is_owner_scoped() {
    let mut store = Store::new();
    let c = add_character(&character_data(), &mut store, &owner()).unwrap();
    assert_eq!(add_article(&text(c.id), &article_data("T"), &mut store, &stranger()), Err(ServiceError::AdminRequired));
    let a = add_article(&text(c.id), &article_data("T"), &mut store, &owner()).unwrap();
    assert_eq!(a.character_id, c.id);
    assert_eq!(a.user_id, 1);
    assert_eq!(a.updated_by, "o@x.com");
    assert_eq!(get_article(&text(a.id), &store, &owner()).unwrap(), a);
    assert_eq!(get_article(&text(a.id), &store, &stranger()), Err(ServiceError::AdminRequired));
    assert_eq!(articles_of_character(&text(c.id), &store, &owner()).unwrap(), vec![a.clone()]);
    assert_eq!(update_article(&text(a.id), &article_data("U"), &mut store, &stranger()), Err(ServiceError::AdminRequired));
    assert_eq!(get_article(&text(a.id), &store, &owner()).unwrap().title, "T");
    let u = update_article(&text(a.id), &article_data("U"), &mut store, &admin()).unwrap();
    assert_eq!(u.title, "U");
    assert_eq!(u.updated_by, "root@x.com");
    assert_eq!(u.user_id, 1);
    assert_eq!(delete_article(&text(a.id), &mut store, &stranger()), Err(ServiceError::AdminRequired));
    assert_eq!(delete_article(&text(a.id), &mut store, &owner()), Ok(()));
    assert_eq!(get_article(&text(a.id), &store, &owner()), Err(ServiceError::NotFound));
    assert_eq!(add_article(&text(77), &article_data("T"), &mut store, &admin()), Err(ServiceError::NotFound));
}

#[test]
fn tags_admin_only_changes() {
    let mut store = Store::new();
    let denied = TagData { user_id: 1, title: "lore".to_string() };
    assert_eq!(add_tag(&denied, &mut store, &stranger()), Err(ServiceError::AdminRequired));
    assert!(get_tags(&store).is_empty());
    let t = add_tag(&denied, &mut store, &owner()).unwrap();
    assert_eq!(t.title, "lore");
    assert_eq!(t.updated_by, "o@x.com");
    assert_eq!(get_tags(&store), vec![t.clone()]);
    let rename = TagData { user_id: 1, title: "myth".to_string() };
    assert_eq!(update_tag(&text(t.id), &rename, &mut store, &owner()), Err(ServiceError::AdminRequired));
    assert_eq!(get_tags(&store)[0].title, "lore");
    let r = update_tag(&text(t.id), &rename, &mut store, &admin()).unwrap();
    assert_eq!(r.title, "myth");
    assert_eq!(delete_tag(&text(t.id), &mut store, &owner()), Err(ServiceError::AdminRequired));
    assert_eq!(delete_tag(&text(t.id), &mut store, &admin()), Ok(()));
    assert_eq!(delete_tag(&text(t.id), &mut store, &admin()), Err(ServiceError::NotFound));
    assert_eq!(delete_tag("x", &mut store, &admin()), Err(ServiceError::BadRequest));
}

#[test]
fn content_tags_need_a_tag() {
    let mut store = Store::new();
    assert_eq!(create_content_tag(1, 5, 9, "o@x.com".to_string(), 0, &mut store), Err(ServiceError::NotFound));
    create_tag(5, "lore".to_string(), "o@x.com".to_string(), 0, &mut store).unwrap();
    let ct = create_content_tag(1, 5, 9, "o@x.com".to_string(), 0, &mut store).unwrap();
    assert_eq!((ct.tag_id, ct.content_id), (5, 9));
    assert_eq!(create_content_tag(1, 5, 9, "o@x.com".to_string(), 0, &mut store), Err(ServiceError::InternalServerError));
    assert_eq!(query_tags(&store).len(), 1);
}

#[test]
fn status_codes() {
    assert_eq!(ServiceError::InternalServerError.status_code(), 500);
    assert_eq!(ServiceError::BadRequest.status_code(), 400);
    assert_eq!(ServiceError::Unauthorized.status_code(), 401);
    assert_eq!(ServiceError::AdminRequired.status_code(), 401);
    assert_eq!(ServiceError::NotFound.status_code(), 404);
    assert_eq!(ServiceError::Empty.status_code(), 404);
}

#[test]
fn parse_id_forms() {
    assert_eq!(parse_id("00000000-0000-0000-0000-00000000002a"), Ok(42));
    assert_eq!(parse_id("0000000000000000000000000000002a"), Ok(42));
    assert_eq!(parse_id(""), Err(ServiceError::BadRequest));
    assert_eq!(parse_id("42"), Err(ServiceError::BadRequest));
}

#[test]
fn hashing_round_trip() {
    let h = hash_password("hunter2", 7).unwrap();
    assert_ne!(h, "hunter2");
    assert!(h.starts_with("$argon2"));
    assert_eq!(hash_password("hunter2", 7).unwrap(), h);
    assert_ne!(hash_password("hunter2", 8).unwrap(), h);
    assert_eq!(verify(&h, "hunter2"), Ok(true));
    assert_eq!(verify(&h, "hunter3"), Ok(false));
    assert_eq!(verify("not a hash", "hunter2"), Err(ServiceError::Unauthorized));
}

#[test]
fn deleting_a_character_deletes_its_articles() {
    let mut store = Store::new();
    let c = add_character(&character_data(), &mut store, &owner()).unwrap();
    let d = add_character(&character_data(), &mut store, &owner()).unwrap();
    let a = add_article(&text(c.id), &article_data("T"), &mut store, &owner()).unwrap();
    let b = add_article(&text(d.id), &article_data("U"), &mut store, &owner()).unwrap();
    assert_eq!(delete_character(&text(c.id), &mut store, &owner()), Ok(()));
    assert_eq!(get_article(&text(a.id), &store, &owner()), Err(ServiceError::NotFound));
    assert_eq!(get_article(&text(b.id), &store, &owner()).unwrap(), b);
    assert!(query_articles_by_character_uuid(c.id, &store).is_empty());
}

#[test]
fn create_article_needs_the_characters_owner() {
    let mut store = Store::new();
    create_character(10, 1, "A".to_string(), "a".to_string(), "o@x.com".to_string(), 5, &mut store).unwrap();
    let write = |store: &mut Store, id: u128, character: u128, user: u128| {
        create_article(id, character, user, "t".to_string(), "i".to_string(), "b".to_string(), "o@x.com".to_string(), 6, store)
    };
    assert_eq!(write(&mut store, 20, 11, 1), Err(ServiceError::NotFound));
    assert_eq!(write(&mut store, 20, 10, 2), Err(ServiceError::BadRequest));
    let a = write(&mut store, 20, 10, 1).unwrap();
    assert_eq!((a.character_id, a.user_id, a.created_at), (10, 1, 6));
    assert_eq!(write(&mut store, 20, 10, 1), Err(ServiceError::InternalServerError));
}

#[test]
fn articles_listed_for_a_character_carry_its_owner() {
    let mut store = Store::new();
    let c = add_character(&character_data(), &mut store, &owner()).unwrap();
    add_article(&text(c.id), &article_data("T"), &mut store, &admin()).unwrap();
    add_article(&text(c.id), &article_data("U"), &mut store, &owner()).unwrap();
    let listed = articles_of_character(&text(c.id), &store, &owner()).unwrap();
    assert_eq!(listed.len(), 2);
    assert!(listed.iter().all(|a| a.user_id == 1));
    assert_eq!(articles_of_character(&text(c.id), &store, &stranger()), Err(ServiceError::AdminRequired));
}

#[test]
fn text_order_by_code_points() {
    assert!(str_le("", ""));
    assert!(str_le("ab", "abc"));
    assert!(!str_le("abc", "ab"));
    assert!(str_le("Zoe", "alice"));
    assert!(str_le("zoë", "zoí"));
    assert!(!str_le("é", "e"));
}

#[test]
fn stored_hash_verifies_its_password() {
    for (password, salt) in [("", 1u128), ("pässwörd", 2), ("x", u128::MAX)] {
        let h = hash_password(password, salt).unwrap();
        assert_eq!(verify(&h, password), Ok(true));
    }
}

#[test]
fn articles_of_a_user() {
    let mut store = Store::new();
    create_character(10, 1, "A".to_string(), "a".to_string(), "o@x.com".to_string(), 5, &mut store).unwrap();
    create_character(11, 2, "B".to_string(), "b".to_string(), "s@x.com".to_string(), 5, &mut store).unwrap();
    for (id, character, user) in [(20u128, 10u128, 1u128), (21, 11, 2), (22, 10, 1)] {
        create_article(id, character, user, "t".to_string(), "i".to_string(), "b".to_string(), "e".to_string(), 6, &mut store)
            .unwrap();
    }
    let ids: Vec<u128> = query_articles_by_user_uuid(1, &store).iter().map(|a| a.id).collect();
    assert_eq!(ids, vec![20, 22]);
    assert!(query_articles_by_user_uuid(3, &store).is_empty());
}

#[test]
fn content_tags_listing_joins_titles() {
    let mut store = Store::new();
    create_tag(5, "lore".to_string(), "o@x.com".to_string(), 0, &mut store).unwrap();
    create_tag(6, "myth".to_string(), "o@x.com".to_string(), 0, &mut store).unwrap();
    create_content_tag(1, 5, 9, "o@x.com".to_string(), 0, &mut store).unwrap();
    create_content_tag(2, 6, 8, "o@x.com".to_string(), 0, &mut store).unwrap();
    create_content_tag(3, 6, 9, "o@x.com".to_string(), 0, &mut store).unwrap();
    let rows = query_content_tags(9, &store);
    assert_eq!(rows.len(), 2);
    assert_eq!((rows[0].idx, rows[0].contenttag_id, rows[0].tag_id, rows[0].tag_title.as_str()), (0, 1, 5, "lore"));
    assert_eq!((rows[1].idx, rows[1].contenttag_id, rows[1].tag_id, rows[1].tag_title.as_str()), (1, 3, 6, "myth"));
    assert!(rows.iter().all(|r| r.content_id == 9));
    let admin = admin();
    tag_delete(&mut store, &admin, 5);
    let rows = query_content_tags(9, &store);
    assert_eq!(rows.len(), 1);
    assert_eq!((rows[0].idx, rows[0].contenttag_id), (0, 3));
}

fn tag_delete(store: &mut Store, who: &LoggedUser, id: u128) {
    assert_eq!(delete_tag(&text(id), store, who), Ok(()));
}
