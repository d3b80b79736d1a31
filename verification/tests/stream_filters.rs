use netpix_client::app::tables::filters::{mpegts_packets_filter, mpegts_streams_filter, rtp_streams_filter};
use netpix_client::app::tables::mpegts_streams_table::filters as substreams;
use netpix_client::filter_system::comparison::ComparisonFilter;
use netpix_client::filter_system::{FilterExpression, ParseError};
use netpix_client::packet::{
    MpegtsFragmentFields, MpegtsPacketFields, MpegtsStreamFields, PIDTable, PacketFields,
    SessionProtocol,
};
use netpix_client::text::{
    decimal_string, float_text, hex_chars, lower_contains_unless_empty, lower_eq,
    parse_unsigned_max, parse_u16, str_contains,
};

fn syntax(s: &str) -> Option<ParseError> {
    Some(ParseError::InvalidSyntax(s.to_string()))
}

#[test]
fn mpegts_packet_filters_match() {
    let p = PacketFields {
        source_addr: "239.1.1.1:1234".to_string(),
        destination_addr: "10.0.0.5:1234".to_string(),
        transport_protocol: "UDP".to_string(),
        session_protocol_name: "MPEG-TS".to_string(),
        session_protocol: SessionProtocol::Mpegts,
        length: 1358,
    };
    let frag = |pid: PIDTable| MpegtsFragmentFields {
        pid,
        pid_text: String::new(),
        adaptation_field_only: false,
        payload_len: Some(184),
    };
    let m = MpegtsPacketFields {
        fragments: vec![frag(PIDTable::PID(100)), frag(PIDTable::NullPacket)],
        number_of_fragments: 7,
    };
    let ctx = mpegts_packets_filter::FilterContext { packet: &p, mpegts: &m };
    let shows = |f: &str| mpegts_packets_filter::parse_filter(f).expect("parses").matches(&ctx);
    assert!(shows("source:239.1"));
    assert!(shows("dest:10.0.0.5"));
    assert!(shows("pid:100"));
    assert!(!shows("pid:101"));
    assert!(shows("fragments:7"));
    assert!(shows("frags:>6"));
    assert!(!shows("fragments:<7"));
    assert!(shows("NOT dest:10.0.0.1"));
}

#[test]
fn mpegts_packet_filter_errors() {
    let err = |f: &str| mpegts_packets_filter::parse_filter(f).err();
    assert_eq!(err("pid:x"), syntax("Invalid PID value"));
    assert_eq!(err("fragments:>x"), syntax(mpegts_packets_filter::INVALID_FRAGMENTS));
    assert_eq!(err("port:1"), syntax(mpegts_packets_filter::UNKNOWN_FILTER));
    assert_eq!(err("pid:\t"), syntax("Empty value for filter 'pid'.\nExample: pid:value"));
}

#[test]
fn mpegts_packet_filter_help() {
    let help = mpegts_packets_filter::build_filter_help();
    assert!(help.starts_with("MPEG-TS Packets Filter Help:"));
    assert!(help.contains("• pid:<number> - Filter by PID"));
    assert!(help.ends_with("• NOT dest:10.0.0.1"));
}

#[test]
fn mpegts_stream_filters_match() {
    let s = MpegtsStreamFields {
        alias: "Stream-B".to_string(),
        source_addr: "192.168.5.5:5000".to_string(),
        destination_addr: "10.2.2.2:5000".to_string(),
        substream_count: 3,
        packet_count: 120,
    };
    let ctx = mpegts_streams_filter::FilterContext { stream: &s };
    let shows = |f: &str| mpegts_streams_filter::parse_filter(f).expect("parses").matches(&ctx);
    assert!(shows("alias:STREAM-b"));
    assert!(shows("name:am-B"));
    assert!(shows("source:192.168"));
    assert!(!shows("dest:192.168"));
    assert!(shows("substreams:3"));
    assert!(shows("subs:>2"));
    assert!(shows("packets:>=120"));
    assert!(!shows("pkts:>120"));
    assert!(shows("alias:zzz OR packets:120"));
}

#[test]
fn mpegts_stream_filter_errors_and_help() {
    let err = |f: &str| mpegts_streams_filter::parse_filter(f).err();
    assert_eq!(err("substreams:>x"), syntax(mpegts_streams_filter::INVALID_SUBSTREAMS));
    assert_eq!(err("packets:<y"), syntax(mpegts_streams_filter::INVALID_PACKETS));
    assert_eq!(err("bitrate:1"), syntax(mpegts_streams_filter::UNKNOWN_FILTER));
    let help = mpegts_streams_filter::build_filter_help();
    assert!(help.starts_with("MPEG-TS Streams Filter Help:"));
    assert!(help.ends_with("• packets:>100"));
}

#[test]
fn rtp_stream_filters_parse() {
    assert!(matches!(
        rtp_streams_filter::parse_filter("cname:USER@HOST"),
        Ok(rtp_streams_filter::FilterType::Cname(ref s)) if s == "user@host"
    ));
    assert!(matches!(
        rtp_streams_filter::parse_filter("packets:<=10"),
        Ok(rtp_streams_filter::FilterType::PacketCount(ComparisonFilter::LessOrEqualThan(10)))
    ));
    match rtp_streams_filter::parse_filter("bitrate:>=12.5") {
        Ok(rtp_streams_filter::FilterType::MeanBitrate(ComparisonFilter::GreaterOrEqualThan(v))) => {
            assert_eq!(v.as_str(), "12.5")
        }
        _ => panic!("expected a bitrate comparison"),
    }
    assert!(matches!(
        rtp_streams_filter::parse_filter("bitrate:fast"),
        Ok(rtp_streams_filter::FilterType::MeanBitrate(ComparisonFilter::Equals(ref s))) if s == "fast"
    ));
    assert_eq!(
        rtp_streams_filter::parse_filter("bitrate:>fast").err(),
        syntax("Invalid bitrate filter")
    );
    assert_eq!(
        rtp_streams_filter::parse_filter("packets:>-3").err(),
        syntax("Invalid packet count filter")
    );
    assert_eq!(
        rtp_streams_filter::parse_filter("ssrc:1").err(),
        syntax(&format!("Unknown filter: ssrc{}", rtp_streams_filter::UNKNOWN_TAIL))
    );
}

#[test]
fn float_texts_accepted_as_f64_reads_them() {
    for ok in ["1", "1.", ".5", "1.5e3", "-2E-2", "+7", "inf", "-Infinity", "NaN", "1e+9"] {
        assert!(float_text(ok), "{} should be a float", ok);
        assert!(ok.parse::<f64>().is_ok());
    }
    for bad in ["", ".", "e5", "1e", "1.2.3", "ten", "1 5", "0x10", "--1", "in"] {
        assert!(!float_text(bad), "{} should not be a float", bad);
        assert!(bad.parse::<f64>().is_err());
    }
}

#[test]
fn numbers_written_and_read() {
    assert_eq!(decimal_string(0), "0");
    assert_eq!(decimal_string(1234567890123), "1234567890123");
    assert_eq!(hex_chars(0xfa09).into_iter().collect::<String>(), "fa09");
    assert_eq!(parse_u16("65535"), Some(65535));
    assert_eq!(parse_u16("+12"), Some(12));
    assert_eq!(parse_u16("65536"), None);
    assert_eq!(parse_u16(""), None);
    assert_eq!(parse_u16("1_000"), None);
    assert_eq!(parse_unsigned_max("255", 255), Some(255));
    assert_eq!(parse_unsigned_max("256", 255), None);
    assert_eq!(parse_unsigned_max("+", 255), None);
}

#[test]
fn text_matching_helpers() {
    assert!(str_contains("hello world", "o w"));
    assert!(!str_contains("hello", "hello!"));
    assert!(str_contains("abc", ""));
    assert!(lower_contains_unless_empty("ABC", "bc"));
    assert!(!lower_contains_unless_empty("ABC", "BC"));
    assert!(lower_contains_unless_empty("ABC", ""));
    assert!(lower_eq("AbC", "aBc"));
    assert!(!lower_eq("AbC", "aBcd"));
}

#[test]
fn help_examples_are_accepted() {
    for example in ["source:192.168 AND pid:100", "fragments:>5 OR pid:0", "NOT dest:10.0.0.1"] {
        assert!(mpegts_packets_filter::parse_filter(example).is_ok(), "{}", example);
    }
    for example in ["alias:stream1 AND substreams:>5", "source:192.168 OR dest:10.0", "packets:>100"] {
        assert!(mpegts_streams_filter::parse_filter(example).is_ok(), "{}", example);
    }
}

#[test]
fn rtp_stream_filters_match_with_bitrate_outcomes() {
    let f = rtp_streams_filter::parse_filter(
        "source:10.0 AND bitrate:>5 AND NOT (bitrate:<1 OR cname:BOB)",
    )
    .unwrap();
    let comparisons = f.bitrate_comparisons();
    assert_eq!(comparisons.len(), 2);
    assert!(matches!(comparisons[0], ComparisonFilter::GreaterThan(v) if v.as_str() == "5"));
    assert!(matches!(comparisons[1], ComparisonFilter::LessThan(v) if v.as_str() == "1"));
    let ctx = |outcomes: &'static [bool], cname: Option<&'static str>| {
        rtp_streams_filter::FilterContext {
            source_addr: "10.0.0.1:5004",
            destination_addr: "10.0.0.2:5004",
            alias: "A",
            cname,
            packet_count: 7,
            bitrate_outcomes: outcomes,
        }
    };
    assert!(f.matches(&ctx(&[true, false], Some("alice@host"))));
    assert!(!f.matches(&ctx(&[false, false], Some("alice@host"))));
    assert!(!f.matches(&ctx(&[true, true], Some("alice@host"))));
    assert!(!f.matches(&ctx(&[true, false], Some("Bob@host"))));
    assert!(f.matches(&ctx(&[true, false], None)));
    // A comparison with no outcome handed in does not hold.
    assert!(!f.matches(&ctx(&[], None)));
    let count = rtp_streams_filter::parse_filter("packets:>=7 AND alias:a").unwrap();
    assert!(count.bitrate_comparisons().is_empty());
    assert!(count.matches(&ctx(&[], None)));
    assert!(count.matches(&ctx(&[false, true, false], None)));
    let exact = rtp_streams_filter::parse_filter("packets:8").unwrap();
    assert!(!exact.matches(&ctx(&[], None)));
}

#[test]
fn substream_filters_match_with_measure_outcomes() {
    let f = substreams::parse_filter(
        "program:3 AND (duration:>10 OR fragmentrate:<=2.5) AND NOT bitrate:>100 AND fragments:4",
    )
    .unwrap();
    let comparisons = f.measure_comparisons();
    let measures: Vec<substreams::Measure> = comparisons.iter().map(|(m, _)| *m).collect();
    assert_eq!(
        measures,
        vec![
            substreams::Measure::Duration,
            substreams::Measure::FragmentRate,
            substreams::Measure::Bitrate
        ]
    );
    assert!(matches!(comparisons[1].1, ComparisonFilter::LessOrEqualThan(v) if v.as_str() == "2.5"));
    let ctx = |outcomes: &'static [bool], program: u16| substreams::FilterContext {
        stream_alias: "A",
        program_number: program,
        source_addr: "192.168.0.1:1234",
        destination_addr: "192.168.0.2:1234",
        fragment_count: 4,
        measure_outcomes: outcomes,
    };
    assert!(f.matches(&ctx(&[false, true, false], 3)));
    assert!(f.matches(&ctx(&[true, false, false], 3)));
    assert!(!f.matches(&ctx(&[false, false, false], 3)));
    assert!(!f.matches(&ctx(&[true, true, true], 3)));
    assert!(!f.matches(&ctx(&[true, true, false], 4)));
    let text = substreams::parse_filter("alias:a AND source:168.0.1").unwrap();
    assert!(text.measure_comparisons().is_empty());
    assert!(text.matches(&ctx(&[], 1)));
    assert!(text.matches(&ctx(&[false, false], 1)));
}
