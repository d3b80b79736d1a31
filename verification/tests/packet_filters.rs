use netpix_client::app::tables::filters::{rtcp_packets_filter, rtp_packets_filter, stun_packets_filter};
use netpix_client::filter_system::comparison::ComparisonFilter;
use netpix_client::filter_system::{FilterExpression, ParseError};
use netpix_client::packet::{
    bytes_hex_chars, flag_filter_holds, transaction_matches, RtpPacketFields, StunPacketFields,
};

fn rtcp_shows(filter: &str, source: &str, dest: &str, kind: &str) -> bool {
    let f = rtcp_packets_filter::parse_filter(filter).expect("filter parses");
    f.matches(&rtcp_packets_filter::FilterContext {
        source_addr: source,
        destination_addr: dest,
        packet_type_name: kind,
    })
}

#[test]
fn rtcp_packet_filters_match_lowercased_text() {
    assert!(rtcp_shows("source:10.0", "10.0.0.1:5005", "10.0.0.2:6005", "Sender Report"));
    assert!(!rtcp_shows("dest:10.0.0.1", "10.0.0.1:5005", "10.0.0.2:6005", "Sender Report"));
    assert!(rtcp_shows("type:SENDER", "a", "b", "Sender Report"));
    assert!(!rtcp_shows("type:bye", "a", "b", "Sender Report"));
    assert!(rtcp_shows("type:sender OR type:bye", "a", "b", "Goodbye bye"));
    assert!(rtcp_shows("NOT type:receiver", "a", "b", "Sender Report"));
}

#[test]
fn rtcp_packet_filter_unknown_prefix() {
    assert_eq!(
        rtcp_packets_filter::parse_filter("ssrc:1").err(),
        Some(ParseError::InvalidSyntax(
            "Unknown filter: ssrc. Use: source, dest, type (sender/receiver/sdes/bye)".to_string()
        ))
    );
}

fn rtp_packet() -> RtpPacketFields {
    RtpPacketFields {
        ssrc: 1234,
        padding: false,
        extension: true,
        marker: true,
        sequence_number: 4242,
        timestamp: 90000,
        payload_length: 1200,
    }
}

fn rtp_shows(filter: &str) -> bool {
    let f = rtp_packets_filter::parse_filter(filter).expect("filter parses");
    let p = rtp_packet();
    f.matches(&rtp_packets_filter::FilterContext {
        source_addr: "192.168.0.5:5004",
        destination_addr: "192.168.0.9:5006",
        alias: "B",
        packet: &p,
    })
}

#[test]
fn rtp_packet_filters_match() {
    assert!(rtp_shows("source:192.168.0.5"));
    assert!(!rtp_shows("dest:192.168.0.5"));
    assert!(rtp_shows("alias:b"));
    assert!(!rtp_shows("alias:c"));
    assert!(rtp_shows("padding:-"));
    assert!(!rtp_shows("padding:+"));
    assert!(rtp_shows("extension:+"));
    assert!(rtp_shows("marker:+ AND NOT padding:+"));
    assert!(rtp_shows("seq:4242"));
    assert!(!rtp_shows("seq:4243"));
    assert!(rtp_shows("timestamp:>89999"));
    assert!(rtp_shows("timestamp:90000"));
    assert!(!rtp_shows("timestamp:<90000"));
    assert!(rtp_shows("payload:>=1200"));
    assert!(!rtp_shows("payload:>1200"));
}

#[test]
fn rtp_packet_filter_errors() {
    let err = |f: &str| rtp_packets_filter::parse_filter(f).err();
    assert_eq!(err("padding:yes"), Some(ParseError::InvalidSyntax("Use padding:+ or padding:-".to_string())));
    assert_eq!(err("extension:1"), Some(ParseError::InvalidSyntax("Use extension:+ or extension:-".to_string())));
    assert_eq!(err("marker:x"), Some(ParseError::InvalidSyntax("Use marker:+ or marker:-".to_string())));
    assert_eq!(err("seq:65536"), Some(ParseError::InvalidSyntax("Invalid sequence number".to_string())));
    assert_eq!(err("seq:abc"), Some(ParseError::InvalidSyntax("Invalid sequence number".to_string())));
    assert_eq!(err("timestamp:>-1"), Some(ParseError::InvalidSyntax("Invalid timestamp filter".to_string())));
    assert_eq!(err("payload:<x"), Some(ParseError::InvalidSyntax("Invalid payload filter".to_string())));
    assert_eq!(
        err("ssrc:1"),
        Some(ParseError::InvalidSyntax(format!(
            "Unknown filter: ssrc{}",
            rtp_packets_filter::UNKNOWN_TAIL
        )))
    );
}

#[test]
fn rtp_packet_filter_variants() {
    assert!(matches!(
        rtp_packets_filter::parse_filter("seq:65535"),
        Ok(rtp_packets_filter::FilterType::SequenceNumber(65535))
    ));
    assert!(matches!(
        rtp_packets_filter::parse_filter("timestamp:<=7"),
        Ok(rtp_packets_filter::FilterType::Timestamp(ComparisonFilter::LessOrEqualThan(7)))
    ));
}

fn stun_shows(filter: &str) -> bool {
    let f = stun_packets_filter::parse_filter(filter).expect("filter parses");
    let p = StunPacketFields {
        message_type: "Binding Request".to_string(),
        message_type_name: "BindingRequest".to_string(),
        transaction_id: vec![0x0a, 0xbc, 0xff, 0x01],
        magic_cookie: 0x2112A442,
        message_length: 28,
    };
    f.matches(&stun_packets_filter::FilterContext {
        source_addr: "10.1.1.1:3478",
        destination_addr: "10.1.1.2:50000",
        packet: &p,
    })
}

#[test]
fn stun_packet_filters_match() {
    assert!(stun_shows("source:10.1.1.1"));
    assert!(!stun_shows("dest:10.1.1.1"));
    assert!(stun_shows("type:binding"));
    assert!(stun_shows("transaction:abcf"));
    assert!(stun_shows("transaction:0ABC"));
    assert!(!stun_shows("transaction:abcd"));
    assert!(stun_shows("length:28"));
    assert!(stun_shows("length:<29"));
    assert!(!stun_shows("length:>28"));
}

#[test]
fn stun_packet_filter_errors() {
    assert_eq!(
        stun_packets_filter::parse_filter("length:>x").err(),
        Some(ParseError::InvalidSyntax("Invalid length filter".to_string()))
    );
    assert_eq!(
        stun_packets_filter::parse_filter("port:1").err(),
        Some(ParseError::InvalidSyntax(
            "Unknown filter: port. Use: source, dest, type, transaction, length".to_string()
        ))
    );
}

#[test]
fn transaction_ids_are_written_in_lowercase_hex() {
    assert_eq!(bytes_hex_chars(&vec![0x00, 0x0f, 0xa0, 0xff]).into_iter().collect::<String>(), "000fa0ff");
    assert!(transaction_matches(&vec![0xde, 0xad], "ead"));
    assert!(!transaction_matches(&vec![0xde, 0xad], "DEAD"));
    assert!(transaction_matches(&vec![0xde, 0xad], ""));
}

#[test]
fn flag_filters() {
    assert!(flag_filter_holds(true, "+"));
    assert!(!flag_filter_holds(false, "+"));
    assert!(flag_filter_holds(false, "-"));
    assert!(flag_filter_holds(false, "?"));
}
