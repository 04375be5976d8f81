//! The core of a campaign manager for tabletop role-playing games.
//!
//! A campaign owns players, locations, characters, organizations, quests,
//! heroes, sessions, timeline events, secrets, tags, relationships and the
//! conversations with an assistant. [`db::Database`] holds them together with
//! the full-text index that mirrors the searchable kinds, and
//! [`db::Snapshot::wf`] states the rules that hold of the store after every
//! operation. The operations are in [`commands`], the rows in [`entity`],
//! and [`laws`] states what follows for every store.

pub mod clock;
pub mod commands;
pub mod db;
pub mod entity;
pub mod error;
pub mod ident;
pub mod laws;
pub mod links;
pub mod search_index;
pub mod table;
pub mod text;
