//! MPEG-TS streams.
pub mod substream;
