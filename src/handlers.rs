pub mod article_handler;
pub mod auth_handler;
pub mod character_handler;
pub mod invitation_handler;
pub mod tag_handler;
pub mod users_handler;
