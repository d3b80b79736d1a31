use netpix_client::app::tables::mpegts_info_table::filters as info;
use netpix_client::app::tables::mpegts_info_table::types::RowKey;
use netpix_client::app::tables::mpegts_packets_table::filters as ts;
use netpix_client::app::tables::mpegts_streams_table::filters as substreams;
use netpix_client::app::tables::packets_table::filters as packets;
use netpix_client::app::tables::rtcp_packets_table::filters as rtcp;
use netpix_client::app::tables::rtcp_streams_table::filters as rtcp_streams;
use netpix_client::app::tables::rtp_packets_table::filters as rtp;
use netpix_client::app::tables::stun_packets_table::filters as stun;
use netpix_client::app::tables::turn_channel_table::filters as turn;
use netpix_client::filter_system::comparison::ComparisonFilter;
use netpix_client::filter_system::{FilterExpression, ParseError};
use netpix_client::packet::{
    MpegTsPacketInfoFields, MpegtsFragmentFields, PIDTable, PacketFields, RtpPacketFields,
    SessionProtocol, StunPacketFields,
};

fn syntax(s: &str) -> Option<ParseError> {
    Some(ParseError::InvalidSyntax(s.to_string()))
}

fn udp_rtp_packet() -> PacketFields {
    PacketFields {
        source_addr: "192.168.1.10:5004".to_string(),
        destination_addr: "10.0.0.2:6000".to_string(),
        transport_protocol: "UDP".to_string(),
        session_protocol_name: "RTP".to_string(),
        session_protocol: SessionProtocol::Rtp,
        length: 188,
    }
}

#[test]
fn packets_table_filter_rows() {
    let p = udp_rtp_packet();
    let ctx = packets::FilterContext { packet: &p };
    assert!(packets::packet_matches_filter("", &ctx));
    assert!(packets::packet_matches_filter("  proto:udp  ", &ctx));
    assert!(packets::packet_matches_filter("protocol:rtp AND length:>=188", &ctx));
    assert!(!packets::packet_matches_filter("source:10.0", &ctx));
    // A filter that does not parse hides nothing.
    assert!(packets::packet_matches_filter("source:", &ctx));
    assert!(packets::packet_matches_filter("(length:1", &ctx));
    assert!(packets::packet_matches_filter("bogus:1", &ctx));
}

#[test]
fn packets_table_filter_errors() {
    assert_eq!(packets::parse_filter("source:abc").err(), syntax(packets::INVALID_SOURCE));
    assert_eq!(packets::parse_filter("dest:abc").err(), syntax(packets::INVALID_DEST));
    assert_eq!(packets::parse_filter("length:>abc").err(), syntax(packets::INVALID_LENGTH));
    assert_eq!(packets::parse_filter("type:rtp").err(), syntax(packets::INVALID_TYPE));
    assert_eq!(packets::parse_filter("port:1").err(), syntax(packets::UNKNOWN_FILTER));
    assert_eq!(
        packets::parse_filter("length:\t").err(),
        syntax("Empty value for filter 'length'.\nExample: length:value")
    );
}

fn rtcp_ctx<'a>(kind: &'a str, alias: &'a str) -> rtcp::RtcpFilterContext<'a> {
    rtcp::RtcpFilterContext {
        source_addr: "10.0.0.1:5005",
        destination_addr: "10.0.0.2:6005",
        packet_type_name: kind,
        direction: "Incoming",
        ssrc: "1a2b3c",
        alias,
    }
}

#[test]
fn rtcp_table_filter_rows() {
    let ctx = rtcp_ctx("Receiver Report", "AB");
    assert!(rtcp::packet_matches_filter("", &ctx));
    assert!(rtcp::packet_matches_filter("type:receiver", &ctx));
    assert!(rtcp::packet_matches_filter("dir:INCOMING", &ctx));
    assert!(rtcp::packet_matches_filter("ssrc:2B3", &ctx));
    assert!(rtcp::packet_matches_filter("alias:ab", &ctx));
    assert!(!rtcp::packet_matches_filter("alias:a", &ctx));
    assert!(rtcp::packet_matches_filter("source:10.0.0.1", &ctx));
    assert!(!rtcp::packet_matches_filter("dest:10.0.0.1", &ctx));
    assert!(!rtcp::packet_matches_filter("NOT type:receiver", &ctx));
}

#[test]
fn rtcp_table_filter_errors() {
    assert_eq!(rtcp::parse_filter("source:host").err(), syntax(rtcp::INVALID_SOURCE));
    assert_eq!(rtcp::parse_filter("dest:host").err(), syntax(rtcp::INVALID_DEST));
    assert_eq!(
        rtcp::parse_filter("kind:x").err(),
        syntax(&format!("{}kind{}", rtcp::UNKNOWN_LEAD, rtcp::UNKNOWN_TAIL))
    );
}

#[test]
fn rtcp_streams_table_filter_rows() {
    let ctx = rtcp_streams::RtcpStreamFilterContext {
        direction: "Outgoing",
        ssrc: "deadbeef",
        alias: "C",
    };
    assert!(rtcp_streams::stream_matches_filter("", &ctx));
    assert!(rtcp_streams::stream_matches_filter("dir:out", &ctx));
    assert!(rtcp_streams::stream_matches_filter("ssrc:BEEF", &ctx));
    assert!(rtcp_streams::stream_matches_filter("alias:c", &ctx));
    assert!(!rtcp_streams::stream_matches_filter("alias:cd", &ctx));
    assert!(rtcp_streams::stream_matches_filter("dir:in OR alias:C", &ctx));
    assert_eq!(
        rtcp_streams::parse_filter("type:x").err(),
        syntax(&format!("{}type{}", rtcp_streams::UNKNOWN_LEAD, rtcp_streams::UNKNOWN_TAIL))
    );
}

#[test]
fn rtp_table_filter_rows() {
    let p = RtpPacketFields {
        ssrc: 1234,
        padding: true,
        extension: false,
        marker: false,
        sequence_number: 7,
        timestamp: 3000,
        payload_length: 160,
    };
    let ctx = rtp::RtpFilterContext {
        packet: &p,
        source_addr: "10.0.0.5:4000",
        destination_addr: "10.0.0.6:4002",
        alias: "AA",
    };
    let shows = |f: &str| rtp::parse_filter(f).expect("parses").matches(&ctx);
    assert!(shows("ssrc:1234"));
    assert!(!shows("ssrc:1235"));
    assert!(shows("ssrc:1234 AND timestamp:>1000"));
    assert!(shows("padding:+ AND extension:- AND marker:-"));
    assert!(shows("seq:7"));
    assert!(shows("timestamp:<=3000"));
    assert!(shows("payload:160"));
    assert!(shows("alias:aa"));
    assert!(!shows("source:10.0.0.6"));
}

#[test]
fn rtp_table_filter_errors() {
    assert_eq!(rtp::parse_filter("source:x").err(), syntax(rtp::INVALID_SOURCE));
    assert_eq!(
        rtp::parse_filter("padding:1").err(),
        syntax("Invalid padding filter value (e.g. padding:+)")
    );
    assert_eq!(
        rtp::parse_filter("extension:1").err(),
        syntax("Invalid extension filter value (e.g. extension:+)")
    );
    assert_eq!(
        rtp::parse_filter("marker:1").err(),
        syntax("Invalid marker filter value (e.g. marker:+)")
    );
    assert_eq!(rtp::parse_filter("seq:-1").err(), syntax("Invalid sequence number"));
    assert_eq!(rtp::parse_filter("ssrc:x").err(), syntax(rtp::INVALID_SSRC));
    assert_eq!(rtp::parse_filter("ssrc:4294967296").err(), syntax(rtp::INVALID_SSRC));
    assert_eq!(rtp::parse_filter("timestamp:<x").err(), syntax(rtp::INVALID_TIMESTAMP));
    assert_eq!(rtp::parse_filter("payload:>x").err(), syntax(rtp::INVALID_PAYLOAD));
    assert_eq!(
        rtp::parse_filter("color:1").err(),
        syntax(&format!("{}color{}", rtp::UNKNOWN_LEAD, rtp::UNKNOWN_TAIL))
    );
}

#[test]
fn stun_table_filter_rows() {
    let p = StunPacketFields {
        message_type: "Binding Response".to_string(),
        message_type_name: "BindingResponse".to_string(),
        transaction_id: vec![0x12, 0x34],
        magic_cookie: 0x2112A442,
        message_length: 44,
    };
    let ctx = stun::StunFilterContext {
        packet: &p,
        source_addr: "10.9.9.9:3478",
        destination_addr: "10.9.9.8:5000",
    };
    assert!(stun::packet_matches_filter("", &ctx));
    assert!(stun::packet_matches_filter(" type:bindingresponse ", &ctx));
    // Values are kept as typed and compared with the lower-cased text.
    assert!(!stun::packet_matches_filter("type:Binding", &ctx));
    assert!(stun::packet_matches_filter("transaction:234", &ctx));
    assert!(stun::packet_matches_filter("length:>40", &ctx));
    assert!(stun::packet_matches_filter("magic:2112A442", &ctx));
    assert!(stun::packet_matches_filter("magic:2112a442 AND length:>40", &ctx));
    assert!(!stun::packet_matches_filter("magic:2112A443", &ctx));
    assert!(stun::parse_filter("magic:2112A442 AND length:>100").is_ok());
    assert_eq!(stun::parse_filter("magic:xyz").err(), syntax(stun::INVALID_MAGIC));
    assert_eq!(stun::parse_filter("magic:100000000").err(), syntax(stun::INVALID_MAGIC));
    assert!(!stun::packet_matches_filter("length:<40", &ctx));
    assert_eq!(stun::parse_filter("length:>x").err(), syntax(stun::INVALID_LENGTH));
    assert_eq!(
        stun::parse_filter("port:1").err(),
        syntax(&format!("{}port{}", stun::UNKNOWN_LEAD, stun::UNKNOWN_TAIL))
    );
}

#[test]
fn turn_channel_table_filter_rows() {
    let channel: u16 = 0x4000;
    let ctx = turn::TurnChannelFilterContext {
        channel_number: &channel,
        source_addr: "172.16.0.1:3478",
        destination_addr: "172.16.0.2:49152",
    };
    assert!(turn::packet_matches_filter("", &ctx));
    assert!(turn::packet_matches_filter("source:172.16.0.1", &ctx));
    assert!(!turn::packet_matches_filter("dest:172.16.0.1", &ctx));
    // Rows carry no timestamp or data length: those filters match every row.
    assert!(turn::packet_matches_filter("timestamp:0", &ctx));
    assert!(turn::packet_matches_filter("data:<1", &ctx));
    assert!(turn::packet_matches_filter("data:>5", &ctx));
    assert!(turn::packet_matches_filter("timestamp:>1000", &ctx));
    assert!(!turn::packet_matches_filter("NOT data:>5", &ctx));
    // Channel filters compare the channel number.
    assert!(turn::packet_matches_filter("channel_id:16384", &ctx));
    assert!(turn::packet_matches_filter("channel_id:>1000", &ctx));
    assert!(!turn::packet_matches_filter("channel_id:<=100", &ctx));
    assert!(turn::packet_matches_filter("(channel_id:>1000 OR channel_id:<100) AND NOT source:192.168", &ctx));
    assert!(turn::parse_filter("channel_id:<=100").is_ok());
    assert_eq!(turn::parse_filter("channel_id:>x").err(), syntax(turn::INVALID_CHANNEL_ID));
    assert_eq!(turn::parse_filter("source:x").err(), syntax(turn::INVALID_SOURCE));
    assert_eq!(turn::parse_filter("timestamp:>x").err(), syntax(turn::INVALID_TIMESTAMP));
    assert_eq!(turn::parse_filter("data:>x").err(), syntax(turn::INVALID_DATA));
}

#[test]
fn mpegts_info_table_filter_rows() {
    let pat = RowKey { pid: PIDTable::ProgramAssociation, alias: "A".to_string() };
    let pmt = RowKey { pid: PIDTable::PID(256), alias: "B".to_string() };
    let shows = |f: &str, key: &RowKey| info::parse_filter(f).expect("parses").matches(&info::FilterContext { key });
    assert!(shows("type:pat", &pat));
    assert!(!shows("type:PAT", &pmt));
    assert!(shows("type:Pmt", &pmt));
    assert!(shows("pid:0", &pat));
    assert!(shows("pid:256", &pmt));
    assert!(!shows("pid:257", &pmt));
    assert!(shows("alias:b", &pmt));
    assert_eq!(info::parse_filter("type:ES").err(), syntax(info::INVALID_TYPE));
    assert_eq!(info::parse_filter("pid:x").err(), syntax("Invalid PID number"));
    assert_eq!(
        info::parse_filter("program:1").err(),
        syntax(&format!("{}program{}", info::UNKNOWN_LEAD, info::UNKNOWN_TAIL))
    );
}

#[test]
fn mpegts_info_packet_type_names() {
    assert_eq!(info::PacketType::from_name("pat"), Some(info::PacketType::Pat));
    assert_eq!(info::PacketType::from_name("PMT"), Some(info::PacketType::Pmt));
    assert_eq!(info::PacketType::from_name("es"), None);
}

fn fragment(pid: PIDTable, text: &str, adaptation_only: bool, payload: Option<usize>) -> MpegtsFragmentFields {
    MpegtsFragmentFields {
        pid,
        pid_text: text.to_string(),
        adaptation_field_only: adaptation_only,
        payload_len: payload,
    }
}

#[test]
fn mpegts_packets_table_filter_rows() {
    let packet = MpegTsPacketInfoFields {
        id: 51234,
        source_addr: "239.0.0.1:1234".to_string(),
        destination_addr: "10.0.0.9:1234".to_string(),
        fragments: vec![
            fragment(PIDTable::ProgramAssociation, "ProgramAssociation", false, Some(184)),
            fragment(PIDTable::PID(256), "256", false, Some(184)),
            fragment(PIDTable::PID(257), "257", true, Some(100)),
            fragment(PIDTable::PID(258), "258", false, None),
        ],
    };
    let pmt = [PIDTable::PID(256)];
    let es = [PIDTable::PID(257), PIDTable::PID(258)];
    let pcr = [PIDTable::PID(258)];
    let info_list: [(u16, &str); 2] = [(257, "Audio"), (258, "Video")];
    let ctx = ts::FilterContext {
        packet: &packet,
        pmt_pids: &pmt,
        es_pids: &es,
        pcr_pids: &pcr,
        stream_alias: Some("Stream-A".to_string()),
        es_pids_info: &info_list,
    };
    let shows = |f: &str| ts::parse_filter(f).expect("parses").matches(&ctx);
    // The payload counts fragments that carry one and are not filled by
    // their adaptation field: 184 + 184.
    assert!(shows("payload:368"));
    assert!(shows("payload:>367"));
    assert!(!shows("payload:>368"));
    assert!(shows("p1:programassociation"));
    assert!(shows("p2:25"));
    assert!(!shows("p5:1"));
    assert!(shows("pid:258"));
    assert!(!shows("pid:259"));
    assert!(shows("type:pat"));
    assert!(shows("type:PMT"));
    assert!(shows("type:es"));
    assert!(shows("type:pcr+es"));
    assert!(!shows("type:pcr"));
    assert!(shows("stream:audio"));
    assert!(shows("stream:VIDEO"));
    assert!(!shows("stream:other"));
    assert!(shows("alias:stream-a"));
    assert!(shows("source:239.0"));
    assert!(shows("desc:123"));
    assert!(shows("desc:51234"));
    assert!(!shows("desc:999"));
    assert!(shows("payload:>=368"));
    assert!(!shows("payload:>=369"));
    assert!(shows("alias:stream-a AND payload:>=188"));
}

#[test]
fn mpegts_packets_without_alias_never_match_an_alias_filter() {
    let packet = MpegTsPacketInfoFields {
        id: 0,
        source_addr: "a.b".to_string(),
        destination_addr: "c.d".to_string(),
        fragments: vec![],
    };
    let ctx = ts::FilterContext {
        packet: &packet,
        pmt_pids: &[],
        es_pids: &[],
        pcr_pids: &[],
        stream_alias: None,
        es_pids_info: &[],
    };
    assert!(!ts::parse_filter("alias:a").expect("parses").matches(&ctx));
    assert!(ts::parse_filter("payload:0").expect("parses").matches(&ctx));
}

#[test]
fn mpegts_packets_table_filter_errors() {
    assert_eq!(ts::parse_filter("source:x").err(), syntax(ts::INVALID_SOURCE));
    assert_eq!(ts::parse_filter("dest:x").err(), syntax(ts::INVALID_DEST));
    assert_eq!(ts::parse_filter("payload:>=x").err(), syntax(ts::INVALID_PAYLOAD));
    assert_eq!(ts::parse_filter("payload:x").err(), syntax(ts::INVALID_PAYLOAD));
    assert_eq!(ts::parse_filter("p8:1").err(), syntax(ts::INVALID_PID_POSITION));
    assert_eq!(ts::parse_filter("pid:x").err(), syntax(ts::INVALID_PID));
    assert_eq!(ts::parse_filter("type:xyz").err(), syntax(ts::INVALID_TYPE));
    assert_eq!(ts::parse_filter("stream:data").err(), syntax(ts::INVALID_STREAM));
    assert_eq!(
        ts::parse_filter("port:1").err(),
        syntax(&format!("{}port{}", ts::UNKNOWN_LEAD, ts::UNKNOWN_TAIL))
    );
}

#[test]
fn mpegts_packets_table_payload_filter_forms() {
    assert!(matches!(
        ts::parse_filter("payload:>10"),
        Ok(ts::FilterType::Payload(ComparisonFilter::GreaterThan(10)))
    ));
    assert!(matches!(
        ts::parse_filter("payload:>=188"),
        Ok(ts::FilterType::Payload(ComparisonFilter::GreaterOrEqualThan(188)))
    ));
    assert!(matches!(
        ts::parse_filter("desc:123"),
        Ok(ts::FilterType::Desc(ref s)) if s == "123"
    ));
    assert!(matches!(
        ts::parse_filter("payload:<=10"),
        Ok(ts::FilterType::Payload(ComparisonFilter::LessOrEqualThan(10)))
    ));
    assert!(matches!(
        ts::parse_filter("payload:<10"),
        Ok(ts::FilterType::Payload(ComparisonFilter::LessThan(10)))
    ));
    assert!(matches!(
        ts::parse_filter("payload:10"),
        Ok(ts::FilterType::Payload(ComparisonFilter::Equals(ref s))) if s == "10"
    ));
}

#[test]
fn mpegts_packet_type_and_stream_names() {
    assert_eq!(ts::PacketType::from_name("pcr+es"), Some(ts::PacketType::PcrEs));
    assert_eq!(ts::PacketType::from_name("Pcr"), Some(ts::PacketType::Pcr));
    assert_eq!(ts::PacketType::from_name("pcres"), None);
    assert_eq!(ts::StreamType::from_name("Audio"), Some(ts::StreamType::Audio));
    assert_eq!(ts::StreamType::from_name("other"), Some(ts::StreamType::Other));
    assert_eq!(ts::StreamType::from_name("subtitle"), None);
}

#[test]
fn mpegts_substream_filters_parse() {
    assert!(matches!(substreams::parse_filter("program:3"), Ok(substreams::FilterType::Program(3))));
    assert!(matches!(
        substreams::parse_filter("fragments:>100"),
        Ok(substreams::FilterType::Fragments(ComparisonFilter::GreaterThan(100)))
    ));
    match substreams::parse_filter("duration:>10.5") {
        Ok(substreams::FilterType::Duration(ComparisonFilter::GreaterThan(v))) => {
            assert_eq!(v.as_str(), "10.5")
        }
        _ => panic!("expected a duration comparison"),
    }
    match substreams::parse_filter("bitrate:<=1e3") {
        Ok(substreams::FilterType::Bitrate(ComparisonFilter::LessOrEqualThan(v))) => {
            assert_eq!(v.as_str(), "1e3")
        }
        _ => panic!("expected a bitrate comparison"),
    }
    assert!(substreams::parse_filter("alias:\t").is_ok());
    assert_eq!(substreams::parse_filter("program:x").err(), syntax("Invalid program number"));
    assert_eq!(substreams::parse_filter("source:x").err(), syntax(substreams::INVALID_SOURCE));
    assert_eq!(substreams::parse_filter("fragments:>x").err(), syntax(substreams::INVALID_FRAGMENTS));
    assert_eq!(substreams::parse_filter("duration:>ten").err(), syntax(substreams::INVALID_DURATION));
    assert_eq!(substreams::parse_filter("bitrate:>1.2.3").err(), syntax(substreams::INVALID_BITRATE));
    assert_eq!(
        substreams::parse_filter("fragmentrate:<x").err(),
        syntax(substreams::INVALID_FRAGMENT_RATE)
    );
    assert_eq!(
        substreams::parse_filter("x:1").err(),
        syntax(&format!("{}x{}", substreams::UNKNOWN_LEAD, substreams::UNKNOWN_TAIL))
    );
}

#[test]
fn packet_and_stream_types_read_with_from_str() {
    assert_eq!("pmt".parse::<ts::PacketType>(), Ok(ts::PacketType::Pmt));
    assert_eq!("Es".parse::<ts::PacketType>(), Ok(ts::PacketType::Es));
    assert_eq!("x".parse::<ts::PacketType>(), Err(()));
    assert_eq!("video".parse::<ts::StreamType>(), Ok(ts::StreamType::Video));
    assert_eq!("PAT".parse::<info::PacketType>(), Ok(info::PacketType::Pat));
    assert_eq!("es".parse::<info::PacketType>(), Err(()));
}
