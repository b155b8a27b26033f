//! An in-memory registry of JSON metadata documents, keyed by subject, with
//! point lookups, property projections and batch queries.
//!
//! - `document`: JSON documents, their mathematical value, member lookup.
//! - `json`: reading JSON text into documents.
//! - `registry`: the current snapshot, looked up by subject and replaced as
//!   a whole.
//! - `loader`: from the files of a directory to a snapshot.
//! - `query`: lookups, projections and batch queries over one snapshot.
//! - `api`: what each request of the service is answered with.

pub mod api;
pub mod document;
pub mod json;
pub mod loader;
pub mod query;
pub mod registry;
