//! Typestate builders generated from a record schema.
//!
//! A [`schema::RecordSchema`] lists a record's fields in declared order. From
//! it the library derives a linear chain of builder states (state `i` has
//! set the first `i` fields), one setter per field that moves the builder
//! from state `i` to state `i + 1`, and a finalizer that assembles the record,
//! either strictly or filling unset fields with zero values. The chain is
//! described as a generated API ([`api::BuilderApi`]) and also runs as a
//! runtime-checked builder ([`builder::RecordBuilder`]).
pub mod api;
pub mod builder;
pub mod chain;
pub mod config;
pub mod iac;
pub mod schema;
