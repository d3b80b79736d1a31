//! The table of STUN packets.
pub mod filters;

pub use filters::{parse_filter, StunFilterContext};
