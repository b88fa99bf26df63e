use vstd::prelude::*;

use crate::errors::ServiceError;
use crate::models::characters::Character;
use crate::storage::{
    find_key, get_row, has_key, in_group, lemma_attached_character_push, lemma_attached_character_remove,
    lemma_attached_character_update, outside_group, push_row, remove_group, remove_row, rows_in_group, set_row,
    Store, StoreView,
};

verus! {

/// `s` with its characters replaced by `characters`.
pub open spec fn with_characters(s: StoreView, characters: Seq<Character>) -> StoreView {
    StoreView { characters, ..s }
}

/// Records a character with id `q_id` owned by `q_user_id`, made at `now` by
/// the identity with email `q_email`. An id in use is refused with
/// `InternalServerError`: ids are drawn by the server.
pub fn create_character(
    q_id: u128,
    q_user_id: u128,
    q_name: String,
    q_description: String,
    q_email: String,
    now: i64,
    store: &mut Store,
) -> (r: Result<Character, ServiceError>)
    requires
        old(store)@.wf(),
    ensures
        final(store)@.wf(),
        r is Ok <==> !has_key(old(store)@.characters, q_id),
        match r {
            Ok(c) => c == (Character {
                id: q_id,
                user_id: q_user_id,
                name: q_name,
                description: q_description,
                created_at: now,
                updated_by: q_email,
            }) && final(store)@ == with_characters(old(store)@, old(store)@.characters.push(c)),
            Err(e) => e == ServiceError::InternalServerError && final(store)@ == old(store)@,
        },
{
    if find_key(&store.characters, q_id).is_some() {
        return Err(ServiceError::InternalServerError);
    }
    let character = Character {
        id: q_id,
        user_id: q_user_id,
        name: q_name,
        description: q_description,
        created_at: now,
        updated_by: q_email,
    };
    proof {
        lemma_attached_character_push(store@.articles, store@.characters, character);
    }
    push_row(&mut store.characters, character.clone());
    assert(store@ == with_characters(old(store)@, old(store)@.characters.push(character)));
    Ok(character)
}

/// The character with this id.
pub fn query_characters_by_character_uuid(q_id: u128, store: &Store) -> (r: Result<Character, ServiceError>)
    ensures
        match r {
            Ok(c) => store@.characters.contains(c) && c.id == q_id,
            Err(e) => e == ServiceError::NotFound && !has_key(store@.characters, q_id),
        },
{
    get_row(&store.characters, q_id)
}

/// The characters that the user owns, in table order.
pub fn query_characters_by_user_uuid(q_user_id: u128, store: &Store) -> (r: Vec<Character>)
    ensures
        r@ == in_group(store@.characters, q_user_id),
{
    rows_in_group(&store.characters, q_user_id)
}

/// `s` without its character at index `i` and that character's articles.
pub open spec fn without_character(s: StoreView, i: int) -> StoreView {
    StoreView {
        characters: s.characters.remove(i),
        articles: outside_group(s.articles, s.characters[i].id),
        ..s
    }
}

/// Deletes the character with this id, and its articles with it.
pub fn delete_character(q_id: u128, store: &mut Store) -> (r: Result<(), ServiceError>)
    requires
        old(store)@.wf(),
    ensures
        final(store)@.wf(),
        r is Ok <==> has_key(old(store)@.characters, q_id),
        r is Ok ==> exists|i: int|
            0 <= i < old(store)@.characters.len() && (#[trigger] old(store)@.characters[i]).id == q_id
                && final(store)@ == without_character(old(store)@, i),
        r is Err ==> r == Err::<(), ServiceError>(ServiceError::NotFound) && final(store)@ == old(store)@,
{
    match find_key(&store.characters, q_id) {
        Some(i) => {
            proof {
                lemma_attached_character_remove(store@.articles, store@.characters, i as int);
            }
            remove_row(&mut store.characters, i);
            remove_group(&mut store.articles, q_id);
            assert(store@ == without_character(old(store)@, i as int));
            Ok(())
        },
        None => Err(ServiceError::NotFound),
    }
}

/// Sets the name and description of the character with this id, recording
/// `q_email` as the last editor.
pub fn update_character(
    q_uuid_data: u128,
    q_name: String,
    q_description: String,
    q_email: String,
    store: &mut Store,
) -> (r: Result<Character, ServiceError>)
    requires
        old(store)@.wf(),
    ensures
        final(store)@.wf(),
        r is Ok <==> has_key(old(store)@.characters, q_uuid_data),
        match r {
            Ok(c) => exists|i: int|
                0 <= i < old(store)@.characters.len() && (#[trigger] old(store)@.characters[i]).id
                    == q_uuid_data && c == (Character {
                    name: q_name,
                    description: q_description,
                    updated_by: q_email,
                    ..old(store)@.characters[i]
                }) && final(store)@ == with_characters(old(store)@, old(store)@.characters.update(i, c)),
            Err(e) => e == ServiceError::NotFound && final(store)@ == old(store)@,
        },
{
    let i = match find_key(&store.characters, q_uuid_data) {
        Some(i) => i,
        None => return Err(ServiceError::NotFound),
    };
    let current = store.characters[i].clone();
    let character = Character { name: q_name, description: q_description, updated_by: q_email, ..current };
    proof {
        lemma_attached_character_update(store@.articles, store@.characters, i as int, character);
    }
    set_row(&mut store.characters, i, character.clone());
    assert(store@ == with_characters(old(store)@, old(store)@.characters.update(i as int, character)));
    Ok(character)
}

} // verus!
