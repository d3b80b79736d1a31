//! The table of MPEG-TS substreams.
pub mod filters;
