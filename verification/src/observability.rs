//! What the service reports about itself.
pub mod metrics;
pub mod recorder;
