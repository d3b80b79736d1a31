//! The table of MPEG-TS packets.
pub mod filters;
