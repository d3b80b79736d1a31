//! Filter languages over packets and streams.
pub mod packets_filter;
pub mod rtcp_packets_filter;
pub mod rtp_packets_filter;
pub mod stun_packets_filter;
pub mod mpegts_packets_filter;
pub mod mpegts_streams_filter;
pub mod rtp_streams_filter;
