//! The operations of the store, one kind of entity to a module.

pub mod ai_conversation;
pub mod campaign;
pub mod character;
pub mod hero;
pub mod location;
pub mod organization;
pub mod player;
pub mod quest;
pub mod relationship;
pub mod search;
pub mod secret;
pub mod session;
pub mod tag;
pub mod timeline;
pub mod types;
pub mod validation;
