use vstd::prelude::*;

verus! {

/// An article written for one character; `user_id` repeats the character's
/// owner so that the ownership check needs no join.
#[derive(Debug, PartialEq, Eq)]
pub struct Article {
    pub id: u128,
    pub character_id: u128,
    pub user_id: u128,
    pub title: String,
    pub ingress: String,
    pub body: String,
    pub created_at: i64,
    pub updated_by: String,
}

impl Clone for Article {
    fn clone(&self) -> (r: Self)
        ensures
            r == *self,
    {
        Article {
            id: self.id,
            character_id: self.character_id,
            user_id: self.user_id,
            title: self.title.clone(),
            ingress: self.ingress.clone(),
            body: self.body.clone(),
            created_at: self.created_at,
            updated_by: self.updated_by.clone(),
        }
    }
}

} // verus!
