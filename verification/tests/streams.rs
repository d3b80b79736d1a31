use std::time::Duration;

use netpix_client::app::tables::ice_candidates_table::types::{CandidatePairKey, CandidatePairState};
use netpix_client::app::tables::rtcp_packets_table::table::StreamAliasHelper as RtcpAliasHelper;
use netpix_client::streams::mpegts_stream::substream::Aliases;
use netpix_client::streams::stream_statistics::{PacketsTime, PacketsTimeBuilder};
use netpix_client::streams::{int_to_letter, StreamAliasHelper};

#[test]
fn stream_numbers_in_base_26_letters() {
    assert_eq!(int_to_letter(0), "A");
    assert_eq!(int_to_letter(1), "B");
    assert_eq!(int_to_letter(25), "Z");
    assert_eq!(int_to_letter(26), "BA");
    assert_eq!(int_to_letter(27), "BB");
    assert_eq!(int_to_letter(675), "ZZ");
    assert_eq!(int_to_letter(676), "BAA");
}

#[test]
fn different_stream_numbers_get_different_letters() {
    let mut seen = std::collections::HashSet::new();
    for n in 0..2000usize {
        assert!(seen.insert(int_to_letter(n)), "{} repeats a name", n);
    }
}

#[test]
fn aliases_follow_the_spreadsheet_column_order() {
    let mut helper = StreamAliasHelper::new();
    let mut names = Vec::new();
    for ssrc in 0..703u32 {
        names.push(helper.get_alias(1000 + ssrc));
    }
    assert_eq!(names[0], "A");
    assert_eq!(names[1], "B");
    assert_eq!(names[25], "Z");
    assert_eq!(names[26], "AA");
    assert_eq!(names[27], "AB");
    assert_eq!(names[51], "AZ");
    assert_eq!(names[52], "BA");
    assert_eq!(names[701], "ZZ");
    assert_eq!(names[702], "AAA");
    let distinct: std::collections::HashSet<_> = names.iter().collect();
    assert_eq!(distinct.len(), names.len());
}

#[test]
fn an_alias_is_kept_once_given() {
    let mut helper = StreamAliasHelper::new();
    assert_eq!(helper.get_alias(0xdeadbeef), "A");
    assert_eq!(helper.get_alias(0x12345678), "B");
    assert_eq!(helper.get_alias(0xdeadbeef), "A");
    assert_eq!(helper.get_alias(7), "C");
    assert_eq!(helper.get_alias(0x12345678), "B");
}

#[test]
fn ssrc_is_printed_in_hex_with_its_alias() {
    let mut helper = StreamAliasHelper::new();
    assert_eq!(helper.print_ssrc(0x1a2b), "1a2b | alias: A");
    assert_eq!(helper.print_ssrc(0), "0 | alias: B");
    assert_eq!(helper.print_ssrc(0x1a2b), "1a2b | alias: A");
    assert_eq!(helper.print_ssrc(u32::MAX), "ffffffff | alias: C");
}

#[test]
fn stream_type_is_read_back_after_it_is_put() {
    let mut helper = StreamAliasHelper::new();
    assert_eq!(helper.get_meta(5), None);
    helper.put_meta(5, "video".to_string());
    assert_eq!(helper.get_meta(5), Some("video".to_string()));
    helper.put_meta(5, "audio".to_string());
    assert_eq!(helper.get_meta(5), Some("audio".to_string()));
    assert_eq!(helper.get_meta(6), None);
    // Stream types do not give aliases.
    assert_eq!(helper.get_alias(6), "A");
}

#[test]
fn rtcp_table_aliases() {
    let mut helper = RtcpAliasHelper::new();
    assert_eq!(helper.get_alias(10), "A");
    assert_eq!(helper.print_ssrc(255), "ff | alias: B");
    assert_eq!(helper.get_alias(10), "A");
}

#[test]
fn substream_aliases() {
    let a = Aliases::new(27, 3, "V");
    assert_eq!(a.stream_alias, "BB-V");
    assert_eq!(a.program_alias, "3");
    let b = Aliases::new(0, 65535, "A");
    assert_eq!(b.stream_alias, "A-A");
    assert_eq!(b.program_alias, "65535");
}

#[test]
fn packets_time_builder_and_setters() {
    let zero = Duration::from_secs(0);
    let fresh = PacketsTime::builder().build();
    assert_eq!(fresh.get_first_time(), zero);
    assert_eq!(fresh.get_last_time(), zero);

    let a = Duration::from_millis(1500);
    let b = Duration::from_secs(9);
    let mut t = PacketsTimeBuilder::new().first_time(a).last_time(b).build();
    assert_eq!(t.get_first_time(), a);
    assert_eq!(t.get_last_time(), b);

    t.set_first_time(b);
    assert_eq!(t.get_first_time(), b);
    assert_eq!(t.get_last_time(), b);
    t.set_last_time(a);
    assert_eq!(t.get_first_time(), b);
    assert_eq!(t.get_last_time(), a);

    let copy = t.clone();
    t.clear();
    assert_eq!(t.get_first_time(), zero);
    assert_eq!(t.get_last_time(), zero);
    assert_eq!(copy.get_first_time(), b);
    assert_eq!(PacketsTime::default().get_last_time(), zero);
}

#[test]
fn candidate_pair_state_labels() {
    assert_eq!(CandidatePairState::Gathering.label(), "> Gathering");
    assert_eq!(CandidatePairState::Gathered.label(), "* Gathered");
    assert_eq!(CandidatePairState::InProgress.label(), "~ Checking");
    assert_eq!(CandidatePairState::Nominated.label(), "+ Nominated");
    assert_eq!(CandidatePairState::SendingMedia.label(), "▶ Sending Media");
    assert_eq!(CandidatePairState::Failed.label(), "X Failed");
    assert_eq!(CandidatePairState::Frozen.label(), "# Frozen");
    assert_eq!(CandidatePairState::Disconnected.label(), "- Disconnected");
}

#[test]
fn candidate_pair_state_descriptions() {
    assert_eq!(
        CandidatePairState::Gathering.description(),
        "Discovering public IP/port via STUN server"
    );
    assert_eq!(CandidatePairState::Gathered.description(), "Gathered server reflexive address");
    assert_eq!(
        CandidatePairState::InProgress.description(),
        "Performing peer-to-peer connectivity checks"
    );
    assert_eq!(CandidatePairState::Nominated.description(), "Pair nominated for communication");
    assert_eq!(CandidatePairState::SendingMedia.description(), "Actively sending RTP/RTCP media");
    assert_eq!(CandidatePairState::Failed.description(), "Connectivity check failed");
    assert_eq!(CandidatePairState::Frozen.description(), "No information yet");
    assert_eq!(CandidatePairState::Disconnected.description(), "Connection lost");
}

#[test]
fn candidate_pair_keys_compare_by_both_candidates() {
    let k1 = CandidatePairKey { local_candidate: "a".to_string(), remote_candidate: "b".to_string() };
    let k2 = k1.clone();
    let k3 = CandidatePairKey { local_candidate: "b".to_string(), remote_candidate: "a".to_string() };
    assert_eq!(k1, k2);
    assert_ne!(k1, k3);
}
