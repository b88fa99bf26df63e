use vstd::prelude::*;

use crate::errors::ServiceError;
use crate::identity::{authorize, spec_allow};
use crate::ids::{new_id, now_timestamp, parse_id, parsed_uuid};
use crate::models::articles::Article;
use crate::models::users::LoggedUser;
use crate::storage::articles_storage;
use crate::storage::articles_storage::with_articles;
use crate::storage::characters_storage::query_characters_by_character_uuid;
use crate::storage::{has_key, in_group, lemma_articles_of_character, lemma_unique_row, Row, Store};

verus! {

/// The text of an article.
pub struct ArticleData {
    pub title: String,
    pub ingress: String,
    pub body: String,
}

/// Writes an article for the character whose id `character_id` spells, with a
/// fresh random id, at the time by the clock. Only the character's owner or
/// an administrator may; a refusal changes nothing.
pub fn add_article(character_id: &str, article_data: &ArticleData, store: &mut Store, logged_user: &LoggedUser) -> (r: Result<Article, ServiceError>)
    requires
        old(store)@.wf(),
    ensures
        final(store)@.wf(),
        r is Err ==> final(store)@ == old(store)@,
        parsed_uuid(character_id@) is None ==> r == Err::<Article, ServiceError>(ServiceError::BadRequest),
        parsed_uuid(character_id@) is Some && !has_key(old(store)@.characters, parsed_uuid(character_id@)->Some_0)
            ==> r == Err::<Article, ServiceError>(ServiceError::NotFound),
        forall|i: int|
            0 <= i < old(store)@.characters.len() && parsed_uuid(character_id@) == Some(
                (#[trigger] old(store)@.characters[i]).id,
            ) ==> if spec_allow(*logged_user, old(store)@.characters[i].user_id) {
                exists|id: u128|
                    (r is Ok <==> !#[trigger] has_key(old(store)@.articles, id)) && (r is Ok ==> r->Ok_0.id == id)
                        && (r is Err ==> r == Err::<Article, ServiceError>(ServiceError::InternalServerError))
            } else {
                r == Err::<Article, ServiceError>(ServiceError::AdminRequired)
            },
        match r {
            Ok(a) => exists|i: int|
                0 <= i < old(store)@.characters.len() && parsed_uuid(character_id@) == Some(
                    (#[trigger] old(store)@.characters[i]).id,
                ) && a.character_id == old(store)@.characters[i].id && a.user_id == old(store)@.characters[i].user_id
                    && a.title == article_data.title && a.ingress == article_data.ingress && a.body
                    == article_data.body && a.updated_by == logged_user.email && !has_key(old(store)@.articles, a.id)
                    && final(store)@ == with_articles(old(store)@, old(store)@.articles.push(a)),
            Err(_) => true,
        },
{
    let id = parse_id(character_id)?;
    let character = query_characters_by_character_uuid(id, store)?;
    proof {
        lemma_unique_row(store@.characters, character);
        let k = choose|k: int| 0 <= k < store@.characters.len() && store@.characters[k] == character;
        assert(store@.characters[k].id == character.id);
    }
    authorize(logged_user, character.user_id)?;
    let article_id = new_id();
    let now = now_timestamp();
    articles_storage::create_article(
        article_id,
        character.id,
        character.user_id,
        article_data.title.clone(),
        article_data.ingress.clone(),
        article_data.body.clone(),
        logged_user.email.clone(),
        now,
        store,
    )
}

/// The article whose id `article_data` spells. Only its owner or an
/// administrator may read it.
pub fn get_by_uuid(article_data: &str, store: &Store, logged_user: &LoggedUser) -> (r: Result<Article, ServiceError>)
    requires
        store@.wf(),
    ensures
        parsed_uuid(article_data@) is None ==> r == Err::<Article, ServiceError>(ServiceError::BadRequest),
        parsed_uuid(article_data@) is Some && !has_key(store@.articles, parsed_uuid(article_data@)->Some_0)
            ==> r == Err::<Article, ServiceError>(ServiceError::NotFound),
        forall|i: int|
            0 <= i < store@.articles.len() && parsed_uuid(article_data@) == Some((#[trigger] store@.articles[i]).id)
                ==> if spec_allow(*logged_user, store@.articles[i].user_id) {
                r == Ok::<Article, ServiceError>(store@.articles[i])
            } else {
                r == Err::<Article, ServiceError>(ServiceError::AdminRequired)
            },
{
    let id = parse_id(article_data)?;
    let article = articles_storage::query_articles_by_article_uuid(id, store)?;
    proof {
        lemma_unique_row(store@.articles, article);
    }
    authorize(logged_user, article.user_id)?;
    Ok(article)
}

/// The articles of the character whose id `character_data` spells. Only the
/// character's owner or an administrator may list them.
pub fn get_by_character_uuid(character_data: &str, store: &Store, logged_user: &LoggedUser) -> (r: Result<Vec<Article>, ServiceError>)
    requires
        store@.wf(),
    ensures
        parsed_uuid(character_data@) is None ==> r == Err::<Vec<Article>, ServiceError>(ServiceError::BadRequest),
        parsed_uuid(character_data@) is Some && !has_key(store@.characters, parsed_uuid(character_data@)->Some_0)
            ==> r == Err::<Vec<Article>, ServiceError>(ServiceError::NotFound),
        r is Ok && !logged_user.isadmin ==> forall|k: int|
            0 <= k < r->Ok_0@.len() ==> (#[trigger] r->Ok_0@[k]).user_id == logged_user.id,
        forall|i: int|
            0 <= i < store@.characters.len() && parsed_uuid(character_data@) == Some(
                (#[trigger] store@.characters[i]).id,
            ) ==> if spec_allow(*logged_user, store@.characters[i].user_id) {
                &&& r is Ok && r->Ok_0@ == in_group(store@.articles, store@.characters[i].id)
                &&& forall|k: int|
                    0 <= k < r->Ok_0@.len() ==> (#[trigger] r->Ok_0@[k]).user_id == store@.characters[i].user_id
            } else {
                r == Err::<Vec<Article>, ServiceError>(ServiceError::AdminRequired)
            },
{
    let id = parse_id(character_data)?;
    let character = query_characters_by_character_uuid(id, store)?;
    proof {
        lemma_unique_row(store@.characters, character);
        let c = choose|c: int| 0 <= c < store@.characters.len() && store@.characters[c] == character;
        lemma_articles_of_character(store@.articles, store@.characters, c);
    }
    authorize(logged_user, character.user_id)?;
    Ok(articles_storage::query_articles_by_character_uuid(id, store))
}

/// Deletes the article whose id `id` spells. Only its owner or an
/// administrator may; a refusal changes nothing.
pub fn delete_article(id: &str, store: &mut Store, logged_user: &LoggedUser) -> (r: Result<(), ServiceError>)
    requires
        old(store)@.wf(),
    ensures
        final(store)@.wf(),
        r is Err ==> final(store)@ == old(store)@,
        parsed_uuid(id@) is None ==> r == Err::<(), ServiceError>(ServiceError::BadRequest),
        parsed_uuid(id@) is Some && !has_key(old(store)@.articles, parsed_uuid(id@)->Some_0) ==> r == Err::<
            (),
            ServiceError,
        >(ServiceError::NotFound),
        forall|i: int|
            0 <= i < old(store)@.articles.len() && parsed_uuid(id@) == Some((#[trigger] old(store)@.articles[i]).id)
                ==> if spec_allow(*logged_user, old(store)@.articles[i].user_id) {
                r is Ok && final(store)@ == with_articles(old(store)@, old(store)@.articles.remove(i))
            } else {
                r == Err::<(), ServiceError>(ServiceError::AdminRequired)
            },
{
    let article_id = parse_id(id)?;
    let article = articles_storage::query_articles_by_article_uuid(article_id, store)?;
    proof {
        lemma_unique_row(store@.articles, article);
    }
    authorize(logged_user, article.user_id)?;
    articles_storage::delete_article(article_id, store)
}

/// Rewrites the article whose id `id` spells, recording the logged-in user as
/// the last editor. Only its owner or an administrator may; a refusal changes
/// nothing.
pub fn update_article(id: &str, payload: &ArticleData, store: &mut Store, logged_user: &LoggedUser) -> (r: Result<Article, ServiceError>)
    requires
        old(store)@.wf(),
    ensures
        final(store)@.wf(),
        r is Err ==> final(store)@ == old(store)@,
        parsed_uuid(id@) is None ==> r == Err::<Article, ServiceError>(ServiceError::BadRequest),
        parsed_uuid(id@) is Some && !has_key(old(store)@.articles, parsed_uuid(id@)->Some_0) ==> r == Err::<
            Article,
            ServiceError,
        >(ServiceError::NotFound),
        forall|i: int|
            0 <= i < old(store)@.articles.len() && parsed_uuid(id@) == Some((#[trigger] old(store)@.articles[i]).id)
                ==> if spec_allow(*logged_user, old(store)@.articles[i].user_id) {
                r == Ok::<Article, ServiceError>(
                    Article {
                        title: payload.title,
                        ingress: payload.ingress,
                        body: payload.body,
                        updated_by: logged_user.email,
                        ..old(store)@.articles[i]
                    },
                ) && final(store)@ == with_articles(old(store)@, old(store)@.articles.update(i, r->Ok_0))
            } else {
                r == Err::<Article, ServiceError>(ServiceError::AdminRequired)
            },
{
    let article_id = parse_id(id)?;
    let article = articles_storage::query_articles_by_article_uuid(article_id, store)?;
    proof {
        lemma_unique_row(store@.articles, article);
    }
    authorize(logged_user, article.user_id)?;
    articles_storage::update_article(
        article_id,
        payload.title.clone(),
        payload.ingress.clone(),
        payload.body.clone(),
        logged_user.email.clone(),
        store,
    )
}

} // verus!
