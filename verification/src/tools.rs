//! Tools that agents call by name with JSON arguments.
pub mod http;
