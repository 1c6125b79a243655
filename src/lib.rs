//! A datom store for a note-taking journal: entity-attribute-value facts are
//! applied in batches to entities kept as JSON envelopes in rows keyed by a
//! hash of the entity id.
pub mod address;
pub mod codec;
pub mod config;
pub mod date;
pub mod entity;
pub mod journal;
pub mod json;
pub mod page;
pub mod store;
pub mod text;
pub mod transact;
