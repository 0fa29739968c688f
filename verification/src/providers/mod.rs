//! Providers: implementations of the operation contract.

pub mod batch;
pub mod json_placeholder;

pub use batch::Batch;
pub use json_placeholder::JsonPlaceholder;
