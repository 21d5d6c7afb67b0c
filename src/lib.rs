//! The semantic core of a declarative database-schema toolchain: the
//! validation pipeline over a schema's semantic graph, the resolver of index
//! field lists, and the migration-step protocol with its wire encoding.

pub mod ast;
pub mod text;
pub mod diagnostics;
pub mod index_fields;
pub mod json;
pub mod steps;
pub mod schema;
pub mod names;
pub mod validation;
