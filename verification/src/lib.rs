//! A small table store for agents: the decisions of its server.
//!
//! The shape of each table is given by a schema, rows are JSON objects. What is
//! read and written (files, databases, requests) is handed to this library and
//! taken from it as plain values.

pub mod config;
pub mod dump;
pub mod error;
pub mod filter;
pub mod json;
pub mod mcp;
pub mod members;
pub mod pairs;
pub mod path;
pub mod schema;
pub mod snapshot;
pub mod store;
pub mod text;
pub mod textmap;

pub use store::UpdateMode;
