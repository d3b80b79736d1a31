//! One module per table; each holds the filter language of its table.
pub mod filters;
pub mod ice_candidates_table;
pub mod mpegts_info_table;
pub mod mpegts_packets_table;
pub mod mpegts_streams_table;
pub mod packets_table;
pub mod rtcp_packets_table;
pub mod rtcp_streams_table;
pub mod row_filter;
pub mod row_order;
pub mod rtp_packets_table;
pub mod stun_packets_table;
pub mod turn_channel_table;
