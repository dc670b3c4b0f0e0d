//! The tools and resources that the server offers.

pub mod plan;
pub mod registry;
pub mod resources;
pub mod schema_batch;
pub mod schema_tools;
pub mod server;
