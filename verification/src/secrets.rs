//! A vault of secrets that agents may read as a policy allows.
pub mod encoding;
pub mod laws;
pub mod mcp_server;
pub mod vault;
