//! Local clients: newline-delimited JSON-RPC 2.0, one request per connection.
pub mod handler;
pub mod project;
pub mod server;
