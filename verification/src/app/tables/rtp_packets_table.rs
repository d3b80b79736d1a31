//! The table of RTP packets.
pub mod filters;

pub use filters::RtpFilterContext;
