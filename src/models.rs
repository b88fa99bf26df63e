pub mod articles;
pub mod characters;
pub mod invitations;
pub mod tags;
pub mod users;
