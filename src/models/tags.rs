use vstd::prelude::*;

verus! {

/// A global label.
#[derive(Debug, PartialEq, Eq)]
pub struct Tag {
    pub id: u128,
    pub title: String,
    pub created_at: i64,
    pub updated_by: String,
}

/// The attachment of a tag to a content item.
#[derive(Debug, PartialEq, Eq)]
pub struct ContentTag {
    pub id: u128,
    pub tag_id: u128,
    pub content_id: u128,
    pub created_at: i64,
    pub updated_by: String,
}

/// A content tag together with its tag's title.
#[derive(Debug, PartialEq, Eq)]
pub struct RichContentTag {
    /// The position of the row in the listing it came from.
    pub idx: i32,
    pub contenttag_id: u128,
    pub tag_id: u128,
    pub content_id: u128,
    pub tag_title: String,
}

impl Clone for Tag {
    fn clone(&self) -> (r: Self)
        ensures
            r == *self,
    {
        Tag {
            id: self.id,
            title: self.title.clone(),
            created_at: self.created_at,
            updated_by: self.updated_by.clone(),
        }
    }
}

impl Clone for ContentTag {
    fn clone(&self) -> (r: Self)
        ensures
            r == *self,
    {
        ContentTag {
            id: self.id,
            tag_id: self.tag_id,
            content_id: self.content_id,
            created_at: self.created_at,
            updated_by: self.updated_by.clone(),
        }
    }
}

} // verus!
