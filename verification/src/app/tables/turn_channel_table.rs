//! The table of TURN channel data packets.
pub mod filters;

pub use filters::TurnChannelFilterContext;
