//! A verified project-scaffolding generator: it parses a compact field and
//! relation description language, renders entity, migration and resolver
//! source artifacts, and updates module index files idempotently. All
//! filesystem writes are left to callers; the library computes the texts and
//! paths to write.

pub mod dsl;
pub mod entity;
pub mod indexing;
pub mod migration;
pub mod names;
pub mod resolver;
pub mod strutil;
pub mod templates;
