//! A verified core for a schema-driven query engine: given a metadata
//! description of entities and relationships, it derives a fixed set of
//! CRUD-style operations per entity, compiles each request into a
//! parameterized query tree, renders that tree to query text with named
//! binds, and converts raw store documents back into generic typed values.

pub mod aql;
pub mod errors;
pub mod execution;
pub mod fields;
pub mod metadata;
pub mod names;
pub mod operations;
pub mod schema;
pub mod text;
pub mod values;
