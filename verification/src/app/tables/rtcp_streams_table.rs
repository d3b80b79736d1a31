//! The table of RTCP streams.
pub mod filters;

pub use filters::RtcpStreamFilterContext;
