use vstd::prelude::*;

verus! {

/// A character, owned by one user.
#[derive(Debug, PartialEq, Eq)]
pub struct Character {
    pub id: u128,
    pub user_id: u128,
    pub name: String,
    pub description: String,
    pub created_at: i64,
    /// The email of the last identity that changed the row.
    pub updated_by: String,
}

impl Clone for Character {
    fn clone(&self) -> (r: Self)
        ensures
            r == *self,
    {
        Character {
            id: self.id,
            user_id: self.user_id,
            name: self.name.clone(),
            description: self.description.clone(),
            created_at: self.created_at,
            updated_by: self.updated_by.clone(),
        }
    }
}

} // verus!
