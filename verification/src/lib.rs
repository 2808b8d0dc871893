use vstd::prelude::*;

pub mod error;
pub mod fixed;
pub mod llm_client;
pub mod memory;
pub mod query;
pub mod retrieval;
pub mod scheduler;
pub mod schema;
pub mod server;
pub mod text;

verus! {
}
