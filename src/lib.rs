//! A command-line client's library for a graph database: schema tables,
//! latency reports, error messages, TLS arguments and configuration files.
pub mod config;
pub mod error;
pub mod file;
pub mod latency;
pub mod query;
pub mod schema;
pub mod target;
pub mod text;
