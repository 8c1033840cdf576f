pub mod client;
pub mod config;
pub mod error;
pub mod ingest;
pub mod keys;
pub mod models;
pub mod pagination;
pub mod query;
pub mod registry;
pub mod sse;
pub mod store;
pub mod time;
