//! The table of MPEG-TS program tables (PAT and PMT).
pub mod filters;
pub mod summary;
pub mod types;
