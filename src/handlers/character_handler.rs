use vstd::prelude::*;

use crate::errors::ServiceError;
use crate::identity::{authorize, spec_allow};
use crate::ids::{new_id, now_timestamp, parse_id, parsed_uuid};
use crate::models::characters::Character;
use crate::models::users::LoggedUser;
use crate::storage::characters_storage;
use crate::storage::characters_storage::{with_characters, without_character};
use crate::storage::{has_key, in_group, lemma_unique_row, Row, Store};

verus! {

/// A new character's name and description.
pub struct CharacterData {
    pub name: String,
    pub description: String,
}

/// Creates a character owned by the logged-in user, with a fresh random id,
/// at the time by the clock.
pub fn add_character(character_data: &CharacterData, store: &mut Store, logged_user: &LoggedUser) -> (r: Result<Character, ServiceError>)
    requires
        old(store)@.wf(),
    ensures
        final(store)@.wf(),
        exists|id: u128|
            (r is Ok <==> !#[trigger] has_key(old(store)@.characters, id)) && (r is Ok ==> r->Ok_0.id == id),
        match r {
            Ok(c) => {
                &&& c.user_id == logged_user.id && c.name == character_data.name
                &&& c.description == character_data.description && c.updated_by == logged_user.email
                &&& !has_key(old(store)@.characters, c.id)
                &&& final(store)@ == with_characters(old(store)@, old(store)@.characters.push(c))
            },
            Err(e) => e == ServiceError::InternalServerError && final(store)@ == old(store)@,
        },
{
    let id = new_id();
    let now = now_timestamp();
    characters_storage::create_character(
        id,
        logged_user.id,
        character_data.name.clone(),
        character_data.description.clone(),
        logged_user.email.clone(),
        now,
        store,
    )
}

/// The character whose id `character_data` spells. Only its owner or an
/// administrator may read it.
pub fn get_by_character_uuid(character_data: &str, store: &Store, logged_user: &LoggedUser) -> (r: Result<Character, ServiceError>)
    requires
        store@.wf(),
    ensures
        parsed_uuid(character_data@) is None ==> r == Err::<Character, ServiceError>(ServiceError::BadRequest),
        parsed_uuid(character_data@) is Some && !has_key(store@.characters, parsed_uuid(character_data@)->Some_0)
            ==> r == Err::<Character, ServiceError>(ServiceError::NotFound),
        forall|i: int|
            0 <= i < store@.characters.len() && parsed_uuid(character_data@) == Some(
                (#[trigger] store@.characters[i]).id,
            ) ==> if spec_allow(*logged_user, store@.characters[i].user_id) {
                r == Ok::<Character, ServiceError>(store@.characters[i])
            } else {
                r == Err::<Character, ServiceError>(ServiceError::AdminRequired)
            },
{
    let id = parse_id(character_data)?;
    let character = characters_storage::query_characters_by_character_uuid(id, store)?;
    proof {
        lemma_unique_row(store@.characters, character);
    }
    authorize(logged_user, character.user_id)?;
    Ok(character)
}

/// The characters of the user whose id `user_data` spells. Only that user or
/// an administrator may list them.
pub fn get_by_user_uuid(user_data: &str, store: &Store, logged_user: &LoggedUser) -> (r: Result<Vec<Character>, ServiceError>)
    ensures
        parsed_uuid(user_data@) is None ==> r == Err::<Vec<Character>, ServiceError>(ServiceError::BadRequest),
        parsed_uuid(user_data@) is Some && !spec_allow(*logged_user, parsed_uuid(user_data@)->Some_0) ==> r
            == Err::<Vec<Character>, ServiceError>(ServiceError::AdminRequired),
        parsed_uuid(user_data@) is Some && spec_allow(*logged_user, parsed_uuid(user_data@)->Some_0) ==> r is Ok
            && r->Ok_0@ == in_group(store@.characters, parsed_uuid(user_data@)->Some_0),
{
    let user_id = parse_id(user_data)?;
    authorize(logged_user, user_id)?;
    Ok(characters_storage::query_characters_by_user_uuid(user_id, store))
}

/// Deletes the character whose id `character_data` spells, with its
/// articles. Only its owner or an administrator may; a refusal changes
/// nothing.
pub fn delete_character(character_data: &str, store: &mut Store, logged_user: &LoggedUser) -> (r: Result<(), ServiceError>)
    requires
        old(store)@.wf(),
    ensures
        final(store)@.wf(),
        r is Err ==> final(store)@ == old(store)@,
        parsed_uuid(character_data@) is None ==> r == Err::<(), ServiceError>(ServiceError::BadRequest),
        parsed_uuid(character_data@) is Some && !has_key(old(store)@.characters, parsed_uuid(character_data@)->Some_0)
            ==> r == Err::<(), ServiceError>(ServiceError::NotFound),
        forall|i: int|
            0 <= i < old(store)@.characters.len() && parsed_uuid(character_data@) == Some(
                (#[trigger] old(store)@.characters[i]).id,
            ) ==> if spec_allow(*logged_user, old(store)@.characters[i].user_id) {
                r is Ok && final(store)@ == without_character(old(store)@, i)
            } else {
                r == Err::<(), ServiceError>(ServiceError::AdminRequired)
            },
{
    let id = parse_id(character_data)?;
    let character = characters_storage::query_characters_by_character_uuid(id, store)?;
    proof {
        lemma_unique_row(store@.characters, character);
    }
    authorize(logged_user, character.user_id)?;
    characters_storage::delete_character(id, store)
}

} // verus!
