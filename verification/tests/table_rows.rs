use netpix_client::app::tables::filters::packets_filter::{FilterContext, FilterType};
use netpix_client::app::tables::filters::rtcp_packets_filter;
use netpix_client::app::tables::mpegts_info_table::summary::psi_summary;
use netpix_client::app::tables::packets_table::visible_packets;
use netpix_client::app::tables::rtcp_packets_table::{get_rtcp_details, RtcpSummary};
use netpix_client::app::tables::row_filter::{filter_from_text, rows_passing};
use netpix_client::app::tables::row_order::{order_by_key, OrderKey};
use netpix_client::filter_system::ParseError;
use netpix_client::packet::{PacketFields, SessionProtocol};

fn packet(length: u32, session: SessionProtocol) -> PacketFields {
    PacketFields {
        source_addr: "10.0.0.1:1".to_string(),
        destination_addr: "10.0.0.2:2".to_string(),
        transport_protocol: "UDP".to_string(),
        session_protocol_name: "RTP".to_string(),
        session_protocol: session,
        length,
    }
}

#[test]
fn packets_table_shows_everything_for_a_blank_filter() {
    let packets = vec![packet(10, SessionProtocol::Rtp), packet(20, SessionProtocol::Rtcp)];
    let rows: Vec<FilterContext> = packets.iter().map(|p| FilterContext { packet: p }).collect();
    assert_eq!(visible_packets("", &rows), (vec![true, true], None));
    assert_eq!(visible_packets("   ", &rows), (vec![true, true], None));
}

#[test]
fn packets_table_shows_matching_packets() {
    let packets = vec![packet(10, SessionProtocol::Rtp), packet(20, SessionProtocol::Rtcp)];
    let rows: Vec<FilterContext> = packets.iter().map(|p| FilterContext { packet: p }).collect();
    assert_eq!(visible_packets("length:>15", &rows), (vec![false, true], None));
    assert_eq!(visible_packets("type:RTP OR length:20", &rows), (vec![true, true], None));
}

#[test]
fn packets_table_shows_nothing_and_the_error_for_a_bad_filter() {
    let packets = vec![packet(10, SessionProtocol::Rtp)];
    let rows: Vec<FilterContext> = packets.iter().map(|p| FilterContext { packet: p }).collect();
    assert_eq!(
        visible_packets("(length:5", &rows),
        (vec![false], Some(ParseError::UnmatchedParenthesis))
    );
}

#[test]
fn filter_box_text_gives_filter_or_error() {
    let (f, e) = filter_from_text::<FilterType>("");
    assert!(f.is_none() && e.is_none());
    let (f, e) = filter_from_text::<FilterType>("length:5");
    assert!(matches!(f, Some(FilterType::Length(_))) && e.is_none());
    let (f, e) = filter_from_text::<FilterType>("length:5 AND ");
    assert!(f.is_none());
    assert_eq!(e, Some(ParseError::MissingOperand));
}

#[test]
fn rows_pass_an_optional_filter() {
    let rows = vec![
        rtcp_packets_filter::FilterContext {
            source_addr: "10.0.0.1:1",
            destination_addr: "x",
            packet_type_name: "Sender Report",
        },
        rtcp_packets_filter::FilterContext {
            source_addr: "10.0.0.9:1",
            destination_addr: "x",
            packet_type_name: "Goodbye",
        },
    ];
    let none: Option<rtcp_packets_filter::FilterType> = None;
    assert_eq!(rows_passing(&none, &rows), vec![true, true]);
    let (f, _) = filter_from_text::<rtcp_packets_filter::FilterType>("type:bye");
    assert_eq!(rows_passing(&f, &rows), vec![false, true]);
    assert_eq!(rows_passing(&f, &Vec::new()), Vec::<bool>::new());
}

#[test]
fn rows_are_ordered_by_alias_keeping_ties_in_place() {
    let aliases: Vec<String> = ["C", "A", "B", "A", "AA", ""].iter().map(|s| s.to_string()).collect();
    assert_eq!(order_by_key(&aliases), vec![5, 1, 3, 4, 2, 0]);
    assert_eq!(order_by_key(&Vec::<String>::new()), Vec::<usize>::new());
}

#[test]
fn rows_are_ordered_by_time() {
    let times: Vec<u128> = vec![30, 10, 20, 10, u128::MAX, 0];
    assert_eq!(order_by_key(&times), vec![5, 1, 3, 2, 0, 4]);
}

#[test]
fn text_order_is_the_order_of_str() {
    let words = ["", "a", "B", "b", "ab", "aB", "é", "z", "zz", "Ω", "a\u{1F600}"];
    for x in words {
        for y in words {
            assert_eq!(x.to_string().comes_before(&y.to_string()), x < y, "{:?} {:?}", x, y);
        }
    }
    assert!(3u128.comes_before(&4));
    assert!(!4u128.comes_before(&4));
}

#[test]
fn rtcp_packet_details() {
    assert_eq!(
        get_rtcp_details(&RtcpSummary::SenderReport { ssrc: 305419896, packet_count: 12, octet_count: 3400 }),
        "SSRC: 305419896, Packets: 12, Bytes: 3400"
    );
    assert_eq!(
        get_rtcp_details(&RtcpSummary::ReceiverReport { ssrc: 7, report_count: 0 }),
        "SSRC: 7, Reports: 0"
    );
    assert_eq!(
        get_rtcp_details(&RtcpSummary::SourceDescription {
            item_types: vec!["Cname".to_string(), "Name".to_string(), "Tool".to_string()]
        }),
        "Items: Cname, Name, Tool"
    );
    assert_eq!(
        get_rtcp_details(&RtcpSummary::SourceDescription { item_types: vec![] }),
        "Items: "
    );
    assert_eq!(get_rtcp_details(&RtcpSummary::Goodbye { source_count: 2 }), "SSRCs: 2");
    assert_eq!(
        get_rtcp_details(&RtcpSummary::Other { kind_name: "Extended Report".to_string() }),
        "Extended Report"
    );
}

#[test]
fn psi_info_cell_text() {
    assert_eq!(psi_summary(true, 2), "2 PMT(s)");
    assert_eq!(psi_summary(true, 1), "1 PMT(s)");
    assert_eq!(psi_summary(true, 0), "PAT only");
    assert_eq!(psi_summary(false, 3), "No PSI data");
    assert_eq!(psi_summary(false, 0), "No PSI data");
}
