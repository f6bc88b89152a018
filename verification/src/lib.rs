//! Document model, document store and query engine of a language server for
//! robot launch descriptions.
//!
//! A document is handed over as a finished syntax tree. The extractor turns
//! the tree into a flat [`model::ParseResult`]; the store keeps the latest
//! text and result of every open document; completion and definition lookup
//! read the stored result.

pub mod assoc;
pub mod position;
pub mod string_map;
pub mod model;
pub mod syntax;
pub mod vocabulary;
pub mod extract;
pub mod query;
pub mod store;
pub mod laws;
pub mod protocol;
