//! A typed facade over a full-text search engine: schema definition, document
//! mapping, the writer and reader lifecycle, a composable query algebra, a
//! tokenizer pipeline and fuzzy-aware highlighting.
//!
//! The engine itself is reached through the small trusted functions of
//! [`engine`]; everything else is verified against their contracts.
//!
//! - [`schema`] lays out and defines the fields of an index.
//! - [`document`] maps per-field input to the values of one document.
//! - [`index`] holds the schema, the storage, the writer and the reader.
//! - [`staging`] says what an upsert and a deletion leave in a writer's log.
//! - [`query`] builds queries against a schema and combines them.
//! - [`tokenizer`] builds tokenizer pipelines and runs them.
//! - [`highlight`] marks the tokens of a text that match a term.
//! - [`dates`] and [`helpers`] read dates, language codes and field mappings.
//! - [`text`] compares texts without regard to the case of ASCII letters.
//! - [`model`] holds the mathematical models that the contracts speak of.

pub mod dates;
pub mod document;
pub mod engine;
pub mod error;
pub mod helpers;
pub mod highlight;
pub mod index;
pub mod model;
pub mod query;
pub mod schema;
pub mod staging;
pub mod text;
pub mod tokenizer;
