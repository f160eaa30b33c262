//! Client-side logic for a paged object-store service.
//!
//! Spaces hold objects with free-form properties. This crate holds the
//! typed data model, the request paths and bodies for the object CRUD
//! endpoints, and the cursor-based pagination aggregator that walks a
//! paged listing into a single in-memory collection. Transport (HTTP),
//! credential loading and console formatting live outside the crate.

pub mod cli;
pub mod error;
pub mod objects;
pub mod pagination;
pub mod paths;
pub mod types;
pub mod value;
