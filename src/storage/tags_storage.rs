use vstd::prelude::*;

use crate::errors::ServiceError;
use crate::models::tags::{ContentTag, RichContentTag, Tag};
use crate::storage::{
    copy_rows, find_key, has_key, lemma_filter_len, lemma_filter_step, push_row, remove_row, set_row, Store,
    StoreView,
};

verus! {

/// `s` with its tags replaced by `tags`.
pub open spec fn with_tags(s: StoreView, tags: Seq<Tag>) -> StoreView {
    StoreView { tags, ..s }
}

/// `s` with its content tags replaced by `content_tags`.
pub open spec fn with_content_tags(s: StoreView, content_tags: Seq<ContentTag>) -> StoreView {
    StoreView { content_tags, ..s }
}

/// All tags, in table order.
pub fn query_tags(store: &Store) -> (r: Vec<Tag>)
    ensures
        r@ == store@.tags,
{
    copy_rows(&store.tags)
}

/// Records a tag with id `q_id`, made at `now` by the identity with email
/// `q_email`. An id in use is refused with `InternalServerError`: ids are
/// drawn by the server.
pub fn create_tag(q_id: u128, q_title: String, q_email: String, now: i64, store: &mut Store) -> (r: Result<Tag, ServiceError>)
    requires
        old(store)@.wf(),
    ensures
        final(store)@.wf(),
        r is Ok <==> !has_key(old(store)@.tags, q_id),
        match r {
            Ok(t) => t == (Tag { id: q_id, title: q_title, created_at: now, updated_by: q_email })
                && final(store)@ == with_tags(old(store)@, old(store)@.tags.push(t)),
            Err(e) => e == ServiceError::InternalServerError && final(store)@ == old(store)@,
        },
{
    if find_key(&store.tags, q_id).is_some() {
        return Err(ServiceError::InternalServerError);
    }
    let tag = Tag { id: q_id, title: q_title, created_at: now, updated_by: q_email };
    push_row(&mut store.tags, tag.clone());
    assert(store@ == with_tags(old(store)@, old(store)@.tags.push(tag)));
    Ok(tag)
}

/// Attaches tag `q_tag_id` to content item `q_content_id`, with id `q_id`,
/// at `now`, by the identity with email `q_email`. An id in use is refused
/// with `InternalServerError`; a tag that does not exist with `NotFound`.
pub fn create_content_tag(
    q_id: u128,
    q_tag_id: u128,
    q_content_id: u128,
    q_email: String,
    now: i64,
    store: &mut Store,
) -> (r: Result<ContentTag, ServiceError>)
    requires
        old(store)@.wf(),
    ensures
        final(store)@.wf(),
        !has_key(old(store)@.tags, q_tag_id) ==> r == Err::<ContentTag, ServiceError>(ServiceError::NotFound),
        r is Ok <==> has_key(old(store)@.tags, q_tag_id) && !has_key(old(store)@.content_tags, q_id),
        match r {
            Ok(c) => c == (ContentTag {
                id: q_id,
                tag_id: q_tag_id,
                content_id: q_content_id,
                created_at: now,
                updated_by: q_email,
            }) && final(store)@ == with_content_tags(old(store)@, old(store)@.content_tags.push(c)),
            Err(_) => final(store)@ == old(store)@,
        },
{
    if find_key(&store.tags, q_tag_id).is_none() {
        return Err(ServiceError::NotFound);
    }
    if find_key(&store.content_tags, q_id).is_some() {
        return Err(ServiceError::InternalServerError);
    }
    let tag = ContentTag {
        id: q_id,
        tag_id: q_tag_id,
        content_id: q_content_id,
        created_at: now,
        updated_by: q_email,
    };
    push_row(&mut store.content_tags, tag.clone());
    assert(store@ == with_content_tags(old(store)@, old(store)@.content_tags.push(tag)));
    Ok(tag)
}

/// Deletes the tag with this id.
pub fn delete_tag(q_id: u128, store: &mut Store) -> (r: Result<(), ServiceError>)
    requires
        old(store)@.wf(),
    ensures
        final(store)@.wf(),
        r is Ok <==> has_key(old(store)@.tags, q_id),
        r is Ok ==> exists|i: int|
            0 <= i < old(store)@.tags.len() && (#[trigger] old(store)@.tags[i]).id == q_id && final(store)@
                == with_tags(old(store)@, old(store)@.tags.remove(i)),
        r is Err ==> r == Err::<(), ServiceError>(ServiceError::NotFound) && final(store)@ == old(store)@,
{
    match find_key(&store.tags, q_id) {
        Some(i) => {
            remove_row(&mut store.tags, i);
            assert(store@ == with_tags(old(store)@, old(store)@.tags.remove(i as int)));
            Ok(())
        },
        None => Err(ServiceError::NotFound),
    }
}

/// Sets the title of the tag with this id, recording `q_email` as the last
/// editor.
pub fn update_tag(q_uuid: u128, q_title: String, q_email: String, store: &mut Store) -> (r: Result<Tag, ServiceError>)
    requires
        old(store)@.wf(),
    ensures
        final(store)@.wf(),
        r is Ok <==> has_key(old(store)@.tags, q_uuid),
        match r {
            Ok(t) => exists|i: int|
                0 <= i < old(store)@.tags.len() && (#[trigger] old(store)@.tags[i]).id == q_uuid && t == (Tag {
                    title: q_title,
                    updated_by: q_email,
                    ..old(store)@.tags[i]
                }) && final(store)@ == with_tags(old(store)@, old(store)@.tags.update(i, t)),
            Err(e) => e == ServiceError::NotFound && final(store)@ == old(store)@,
        },
{
    let i = match find_key(&store.tags, q_uuid) {
        Some(i) => i,
        None => return Err(ServiceError::NotFound),
    };
    let current = store.tags[i].clone();
    let tag = Tag { title: q_title, updated_by: q_email, ..current };
    set_row(&mut store.tags, i, tag.clone());
    assert(store@ == with_tags(old(store)@, old(store)@.tags.update(i as int, tag)));
    Ok(tag)
}

/// Whether a content tag belongs to `content_id` and its tag still exists.
pub open spec fn listed_for(content_id: u128, tags: Seq<Tag>) -> spec_fn(ContentTag) -> bool {
    |c: ContentTag| c.content_id == content_id && has_key(tags, c.tag_id)
}

/// The content tags of one content item whose tag still exists, in table
/// order.
pub open spec fn content_listing(s: StoreView, content_id: u128) -> Seq<ContentTag> {
    s.content_tags.filter(listed_for(content_id, s.tags))
}

/// Whether `r` is the `k`-th row of a listing: content tag `c` with the title
/// of its tag.
pub open spec fn rich_row(r: RichContentTag, k: int, c: ContentTag, tags: Seq<Tag>) -> bool {
    &&& r.idx == k && r.contenttag_id == c.id && r.tag_id == c.tag_id && r.content_id == c.content_id
    &&& exists|j: int| 0 <= j < tags.len() && (#[trigger] tags[j]).id == c.tag_id && r.tag_title == tags[j].title
}

/// The tags of a content item, each with its title and its position in the
/// listing; content tags whose tag is gone are left out.
pub fn query_content_tags(q_content_id: u128, store: &Store) -> (r: Vec<RichContentTag>)
    requires
        store@.content_tags.len() <= i32::MAX,
    ensures
        r@.len() == content_listing(store@, q_content_id).len(),
        forall|k: int|
            0 <= k < r@.len() ==> rich_row(
                #[trigger] r@[k],
                k,
                content_listing(store@, q_content_id)[k],
                store@.tags,
            ),
{
    let ghost p = listed_for(q_content_id, store@.tags);
    let mut r: Vec<RichContentTag> = Vec::new();
    let mut i: usize = 0;
    assert(store.content_tags@.subrange(0, 0).filter(p) =~= Seq::<ContentTag>::empty()) by {
        reveal(Seq::filter);
    }
    while i < store.content_tags.len()
        invariant
            i <= store.content_tags@.len(),
            store.content_tags@.len() <= i32::MAX,
            p == listed_for(q_content_id, store@.tags),
            r@.len() == store.content_tags@.subrange(0, i as int).filter(p).len(),
            forall|k: int|
                0 <= k < r@.len() ==> rich_row(
                    #[trigger] r@[k],
                    k,
                    store.content_tags@.subrange(0, i as int).filter(p)[k],
                    store@.tags,
                ),
        decreases store.content_tags@.len() - i,
    {
        let ghost prefix = store.content_tags@.subrange(0, i as int);
        proof {
            lemma_filter_step(store.content_tags@, i as int, p);
            lemma_filter_len(prefix, p);
        }
        let c = &store.content_tags[i];
        if c.content_id == q_content_id {
            match find_key(&store.tags, c.tag_id) {
                Some(j) => {
                    let row = RichContentTag {
                        idx: r.len() as i32,
                        contenttag_id: c.id,
                        tag_id: c.tag_id,
                        content_id: c.content_id,
                        tag_title: store.tags[j].title.clone(),
                    };
                    let ghost before = r@;
                    r.push(row);
                    proof {
                        assert(p(store.content_tags@[i as int]));
                        assert forall|k: int| 0 <= k < r@.len() implies rich_row(
                            #[trigger] r@[k],
                            k,
                            store.content_tags@.subrange(0, i + 1).filter(p)[k],
                            store@.tags,
                        ) by {
                            if k < before.len() {
                                assert(r@[k] == before[k]);
                            } else {
                                assert(store@.tags[j as int].id == c.tag_id);
                            }
                        }
                    }
                },
                None => {
                    assert(!p(store.content_tags@[i as int]));
                },
            }
        } else {
            assert(!p(store.content_tags@[i as int]));
        }
        i = i + 1;
    }
    assert(store.content_tags@.subrange(0, store.content_tags@.len() as int) =~= store.content_tags@);
    r
}

} // verus!
