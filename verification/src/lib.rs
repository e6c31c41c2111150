//! The rules of an MCP server that gives agents a test namespace on a RustFS (S3-compatible)
//! cluster: its configuration, the names and policies that keep it inside the namespace, and
//! what each tool asks of the services and answers.
pub mod clients;
pub mod config;
pub mod grants;
pub mod json;
pub mod laws;
pub mod policy;
pub mod server;
pub mod text;
pub mod tools;
