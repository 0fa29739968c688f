//! A uniform, resource-oriented data-access contract and its REST provider.
//!
//! The crate holds the data model of the nine operations (list, get-one,
//! get-many, get-many-by-reference, create, update, update-many, delete,
//! delete-many), and the part of a REST provider that decides: which request
//! an operation sends, and what a reply means. Sending the request is left to
//! the caller, who hands the reply back.

pub mod error;
pub mod field_map;
pub mod http;
pub mod json;
pub mod location;
pub mod provider;
pub mod providers;
pub mod text;
