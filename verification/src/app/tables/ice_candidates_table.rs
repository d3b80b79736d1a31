//! The table of ICE candidate pairs.
pub mod table;
pub mod types;
pub mod visualization;
