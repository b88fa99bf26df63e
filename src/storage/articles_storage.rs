use vstd::prelude::*;

use crate::errors::ServiceError;
use crate::models::articles::Article;
use crate::storage::{
    character_owned_by, find_key, get_row, has_key, in_group, lemma_attached_article_push,
    lemma_attached_article_remove, lemma_attached_article_update, lemma_filter_step, push_row, remove_row, rows_in_group, set_row,
    Row, Store, StoreView,
};

verus! {

/// `s` with its articles replaced by `articles`.
pub open spec fn with_articles(s: StoreView, articles: Seq<Article>) -> StoreView {
    StoreView { articles, ..s }
}

/// Records an article with id `q_id` for a character and its owner, written
/// at `now` by the identity with email `q_email`. A character that does not
/// exist is refused with `NotFound`; an owner that is not the character's
/// with `BadRequest`; an id in use, which the server drew, with
/// `InternalServerError`.
pub fn create_article(
    q_id: u128,
    q_character_id: u128,
    q_user_id: u128,
    q_title: String,
    q_ingress: String,
    q_body: String,
    q_email: String,
    now: i64,
    store: &mut Store,
) -> (r: Result<Article, ServiceError>)
    requires
        old(store)@.wf(),
    ensures
        final(store)@.wf(),
        r is Ok <==> character_owned_by(old(store)@.characters, q_character_id, q_user_id) && !has_key(
            old(store)@.articles,
            q_id,
        ),
        !has_key(old(store)@.characters, q_character_id) ==> r == Err::<Article, ServiceError>(
            ServiceError::NotFound,
        ),
        has_key(old(store)@.characters, q_character_id) && !character_owned_by(
            old(store)@.characters,
            q_character_id,
            q_user_id,
        ) ==> r == Err::<Article, ServiceError>(ServiceError::BadRequest),
        character_owned_by(old(store)@.characters, q_character_id, q_user_id) && has_key(old(store)@.articles, q_id)
            ==> r == Err::<Article, ServiceError>(ServiceError::InternalServerError),
        match r {
            Ok(a) => a == (Article {
                id: q_id,
                character_id: q_character_id,
                user_id: q_user_id,
                title: q_title,
                ingress: q_ingress,
                body: q_body,
                created_at: now,
                updated_by: q_email,
            }) && final(store)@ == with_articles(old(store)@, old(store)@.articles.push(a)),
            Err(_) => final(store)@ == old(store)@,
        },
{
    let c = match find_key(&store.characters, q_character_id) {
        Some(c) => c,
        None => {
            proof {
                if character_owned_by(store@.characters, q_character_id, q_user_id) {
                    let k = choose|k: int|
                        0 <= k < store@.characters.len() && (#[trigger] store@.characters[k]).id
                            == q_character_id && store@.characters[k].user_id == q_user_id;
                    assert(store@.characters[k].spec_key() == q_character_id);
                }
            }
            return Err(ServiceError::NotFound);
        },
    };
    assert(store@.characters[c as int].id == q_character_id);
    if store.characters[c].user_id != q_user_id {
        proof {
            if character_owned_by(store@.characters, q_character_id, q_user_id) {
                let k = choose|k: int|
                    0 <= k < store@.characters.len() && (#[trigger] store@.characters[k]).id == q_character_id
                        && store@.characters[k].user_id == q_user_id;
                assert(store@.characters[k].spec_key() == store@.characters[c as int].spec_key());
            }
        }
        return Err(ServiceError::BadRequest);
    }
    if find_key(&store.articles, q_id).is_some() {
        return Err(ServiceError::InternalServerError);
    }
    let article = Article {
        id: q_id,
        character_id: q_character_id,
        user_id: q_user_id,
        title: q_title,
        ingress: q_ingress,
        body: q_body,
        created_at: now,
        updated_by: q_email,
    };
    proof {
        lemma_attached_article_push(store@.articles, store@.characters, article);
    }
    push_row(&mut store.articles, article.clone());
    assert(store@ == with_articles(old(store)@, old(store)@.articles.push(article)));
    Ok(article)
}

/// The article with this id.
pub fn query_articles_by_article_uuid(q_id: u128, store: &Store) -> (r: Result<Article, ServiceError>)
    ensures
        match r {
            Ok(a) => store@.articles.contains(a) && a.id == q_id,
            Err(e) => e == ServiceError::NotFound && !has_key(store@.articles, q_id),
        },
{
    get_row(&store.articles, q_id)
}

/// The articles written for a character, in table order.
pub fn query_articles_by_character_uuid(q_character_id: u128, store: &Store) -> (r: Vec<Article>)
    ensures
        r@ == in_group(store@.articles, q_character_id),
{
    rows_in_group(&store.articles, q_character_id)
}

/// Deletes the article with this id.
pub fn delete_article(q_id: u128, store: &mut Store) -> (r: Result<(), ServiceError>)
    requires
        old(store)@.wf(),
    ensures
        final(store)@.wf(),
        r is Ok <==> has_key(old(store)@.articles, q_id),
        r is Ok ==> exists|i: int|
            0 <= i < old(store)@.articles.len() && (#[trigger] old(store)@.articles[i]).id == q_id
                && final(store)@ == with_articles(old(store)@, old(store)@.articles.remove(i)),
        r is Err ==> r == Err::<(), ServiceError>(ServiceError::NotFound) && final(store)@ == old(store)@,
{
    match find_key(&store.articles, q_id) {
        Some(i) => {
            proof {
                lemma_attached_article_remove(store@.articles, store@.characters, i as int);
            }
            remove_row(&mut store.articles, i);
            assert(store@ == with_articles(old(store)@, old(store)@.articles.remove(i as int)));
            Ok(())
        },
        None => Err(ServiceError::NotFound),
    }
}

/// Sets the title, ingress and body of the article with this id, recording
/// `q_email` as the last editor.
pub fn update_article(
    q_uuid_data: u128,
    q_title: String,
    q_ingress: String,
    q_body: String,
    q_email: String,
    store: &mut Store,
) -> (r: Result<Article, ServiceError>)
    requires
        old(store)@.wf(),
    ensures
        final(store)@.wf(),
        r is Ok <==> has_key(old(store)@.articles, q_uuid_data),
        match r {
            Ok(a) => exists|i: int|
                0 <= i < old(store)@.articles.len() && (#[trigger] old(store)@.articles[i]).id == q_uuid_data
                    && a == (Article {
                    title: q_title,
                    ingress: q_ingress,
                    body: q_body,
                    updated_by: q_email,
                    ..old(store)@.articles[i]
                }) && final(store)@ == with_articles(old(store)@, old(store)@.articles.update(i, a)),
            Err(e) => e == ServiceError::NotFound && final(store)@ == old(store)@,
        },
{
    let i = match find_key(&store.articles, q_uuid_data) {
        Some(i) => i,
        None => return Err(ServiceError::NotFound),
    };
    let current = store.articles[i].clone();
    let article = Article { title: q_title, ingress: q_ingress, body: q_body, updated_by: q_email, ..current };
    proof {
        lemma_attached_article_update(store@.articles, store@.characters, i as int, article);
    }
    set_row(&mut store.articles, i, article.clone());
    assert(store@ == with_articles(old(store)@, old(store)@.articles.update(i as int, article)));
    Ok(article)
}

/// Whether an article carries this owner.
pub open spec fn written_for(user_id: u128) -> spec_fn(Article) -> bool {
    |a: Article| a.user_id == user_id
}

/// The articles of the user's characters, in table order.
pub fn query_articles_by_user_uuid(q_user_id: u128, store: &Store) -> (r: Vec<Article>)
    ensures
        r@ == store@.articles.filter(written_for(q_user_id)),
{
    let ghost p = written_for(q_user_id);
    let mut r: Vec<Article> = Vec::new();
    let mut i: usize = 0;
    assert(store.articles@.subrange(0, 0).filter(p) =~= Seq::<Article>::empty()) by {
        reveal(Seq::filter);
    }
    while i < store.articles.len()
        invariant
            i <= store.articles@.len(),
            r@ == store.articles@.subrange(0, i as int).filter(p),
            p == written_for(q_user_id),
        decreases store.articles@.len() - i,
    {
        proof {
            lemma_filter_step(store.articles@, i as int, p);
        }
        if store.articles[i].user_id == q_user_id {
            r.push(store.articles[i].clone());
        }
        i = i + 1;
    }
    assert(store.articles@.subrange(0, store.articles@.len() as int) =~= store.articles@);
    r
}

} // verus!
