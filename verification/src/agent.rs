//! What agents say to each other and to their tools.
pub mod tool;
pub mod tool_laws;
