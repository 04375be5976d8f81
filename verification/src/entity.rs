//! The rows of the store, one kind to a module.

pub mod ai_conversation;
pub mod ai_message;
pub mod campaign;
pub mod character;
pub mod entity_tag;
pub mod hero;
pub mod location;
pub mod organization;
pub mod player;
pub mod quest;
pub mod relationship;
pub mod secret;
pub mod session;
pub mod tag;
pub mod timeline;
