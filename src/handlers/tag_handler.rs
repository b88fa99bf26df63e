use vstd::prelude::*;

use crate::errors::ServiceError;
use crate::identity::{authorize, require_admin, spec_allow};
use crate::ids::{new_id, now_timestamp, parse_id, parsed_uuid};
use crate::models::tags::Tag;
use crate::models::users::LoggedUser;
use crate::storage::tags_storage;
use crate::storage::tags_storage::with_tags;
use crate::storage::{has_key, Store};

verus! {

/// A tag's title, and the user on whose behalf it is made.
pub struct TagData {
    pub user_id: u128,
    pub title: String,
}

/// All tags, in table order.
pub fn get_tags(store: &Store) -> (r: Vec<Tag>)
    ensures
        r@ == store@.tags,
{
    tags_storage::query_tags(store)
}

/// Creates a tag with a fresh random id, at the time by the clock, recording
/// the logged-in user as its maker. Only the user named in `tag_data` or an
/// administrator may; a refusal changes nothing.
pub fn add_tag(tag_data: &TagData, store: &mut Store, logged_user: &LoggedUser) -> (r: Result<Tag, ServiceError>)
    requires
        old(store)@.wf(),
    ensures
        final(store)@.wf(),
        !spec_allow(*logged_user, tag_data.user_id) ==> r == Err::<Tag, ServiceError>(ServiceError::AdminRequired),
        spec_allow(*logged_user, tag_data.user_id) ==> exists|id: u128|
            (r is Ok <==> !#[trigger] has_key(old(store)@.tags, id)) && (r is Ok ==> r->Ok_0.id == id) && (r is Err
                ==> r == Err::<Tag, ServiceError>(ServiceError::InternalServerError)),
        match r {
            Ok(t) => {
                &&& t.title == tag_data.title && t.updated_by == logged_user.email
                &&& !has_key(old(store)@.tags, t.id)
                &&& final(store)@ == with_tags(old(store)@, old(store)@.tags.push(t))
            },
            Err(_) => final(store)@ == old(store)@,
        },
{
    authorize(logged_user, tag_data.user_id)?;
    let id = new_id();
    let now = now_timestamp();
    tags_storage::create_tag(id, tag_data.title.clone(), logged_user.email.clone(), now, store)
}

/// Deletes the tag whose id `id` spells. Only an administrator may; a refusal
/// changes nothing.
pub fn delete_tag(id: &str, store: &mut Store, logged_user: &LoggedUser) -> (r: Result<(), ServiceError>)
    requires
        old(store)@.wf(),
    ensures
        final(store)@.wf(),
        r is Err ==> final(store)@ == old(store)@,
        parsed_uuid(id@) is None ==> r == Err::<(), ServiceError>(ServiceError::BadRequest),
        parsed_uuid(id@) is Some && !logged_user.isadmin ==> r == Err::<(), ServiceError>(ServiceError::AdminRequired),
        parsed_uuid(id@) is Some && logged_user.isadmin ==> (r is Ok <==> has_key(old(store)@.tags, parsed_uuid(id@)->Some_0)),
        r is Ok ==> exists|i: int|
            0 <= i < old(store)@.tags.len() && parsed_uuid(id@) == Some((#[trigger] old(store)@.tags[i]).id)
                && final(store)@ == with_tags(old(store)@, old(store)@.tags.remove(i)),
        r is Err && parsed_uuid(id@) is Some && logged_user.isadmin ==> r == Err::<(), ServiceError>(ServiceError::NotFound),
{
    let tag_id = parse_id(id)?;
    require_admin(logged_user)?;
    tags_storage::delete_tag(tag_id, store)
}

/// Renames the tag whose id `id` spells, recording the logged-in user as the
/// last editor. Only an administrator may; a refusal changes nothing.
pub fn update_tag(id: &str, payload: &TagData, store: &mut Store, logged_user: &LoggedUser) -> (r: Result<Tag, ServiceError>)
    requires
        old(store)@.wf(),
    ensures
        final(store)@.wf(),
        r is Err ==> final(store)@ == old(store)@,
        parsed_uuid(id@) is None ==> r == Err::<Tag, ServiceError>(ServiceError::BadRequest),
        parsed_uuid(id@) is Some && !logged_user.isadmin ==> r == Err::<Tag, ServiceError>(ServiceError::AdminRequired),
        parsed_uuid(id@) is Some && logged_user.isadmin ==> (r is Ok <==> has_key(old(store)@.tags, parsed_uuid(id@)->Some_0)),
        match r {
            Ok(t) => exists|i: int|
                0 <= i < old(store)@.tags.len() && parsed_uuid(id@) == Some((#[trigger] old(store)@.tags[i]).id)
                    && t == (Tag { title: payload.title, updated_by: logged_user.email, ..old(store)@.tags[i] })
                    && final(store)@ == with_tags(old(store)@, old(store)@.tags.update(i, t)),
            Err(e) => parsed_uuid(id@) is Some && logged_user.isadmin ==> e == ServiceError::NotFound,
        },
{
    let tag_id = parse_id(id)?;
    require_admin(logged_user)?;
    tags_storage::update_tag(tag_id, payload.title.clone(), logged_user.email.clone(), store)
}

} // verus!
