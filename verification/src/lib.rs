//! Verified core of a chat bridge that lets agents call tools, talk to each
//! other and fetch secrets from a policy-guarded vault.

pub mod agent;
pub mod observability;
pub mod secrets;
pub mod text;
