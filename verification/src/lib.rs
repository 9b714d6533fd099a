//! Builder synthesis engine.
//!
//! Given the schema of a record (its name, its fields and the directives
//! attached to the record and to each field), the engine resolves the
//! directives and produces a structural description of a companion builder:
//! its storage fields, its setter operations and its build operation.
//!
//! The way from a schema to the description of its builder:
//!
//! - [`grammar`] reads a directive text into entries, and [`writing`] writes
//!   entries as directive text;
//! - [`interpret`] reads the entries as the typed directives of
//!   [`directive`];
//! - [`resolve`] merges the directives of the record and of a field into
//!   the effective configuration of the field and of the build operation;
//! - [`pattern`] selects the shape of the signatures for a construction
//!   pattern;
//! - [`field`] synthesizes the storage field, the setters and the
//!   initializer of one field, and [`build_op`] the build operation;
//! - [`artifact`] assembles the parts into the description of the builder;
//! - [`synthesis`] runs the whole pass over a [`schema`].
//!
//! [`runtime`] gives the operations of a synthesized builder their meaning
//! on the state of a builder, and [`laws`] proves what holds of every
//! synthesized builder.
//!
//! Every function of this crate carries a contract that is proved against a
//! mathematical model of the data it works on.

pub mod artifact;
pub mod build_op;
pub mod directive;
pub mod field;
pub mod grammar;
pub mod interpret;
pub mod laws;
pub mod pattern;
pub mod resolve;
pub mod runtime;
pub mod schema;
pub mod synthesis;
pub mod text;
pub mod writing;
