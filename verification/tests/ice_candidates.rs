use netpix_client::app::tables::ice_candidates_table::table::{
    build_ice_data, is_stun_server, update_pair_stats, StunMessageFields,
};
use netpix_client::app::tables::ice_candidates_table::types::{
    CandidatePairKey, CandidatePairState, CandidatePairStats, IceCandidatesData,
};
use netpix_client::app::tables::ice_candidates_table::visualization::{
    pairs_in_state, visible_pairs,
};

fn msg(source: &str, dest: &str, t: u128, class: &str, attrs: &[&str]) -> StunMessageFields {
    StunMessageFields {
        source_addr: source.to_string(),
        destination_addr: dest.to_string(),
        timestamp: t,
        message_class: class.to_string(),
        attribute_names: attrs.iter().map(|a| a.to_string()).collect(),
    }
}

fn fresh(local: &str, remote: &str) -> CandidatePairStats {
    CandidatePairStats {
        key: CandidatePairKey {
            local_candidate: local.to_string(),
            remote_candidate: remote.to_string(),
        },
        state: CandidatePairState::Frozen,
        checks_sent: 0,
        checks_received: 0,
        responses_received: 0,
        responses_sent: 0,
        failures: 0,
        first_seen: 0,
        last_seen: 0,
    }
}

const HOST_A: &str = "192.168.1.2:50000";
const HOST_B: &str = "192.168.1.3:50001";
const SERVER: &str = "203.0.113.7:3478";

#[test]
fn stun_servers_are_recognised_by_port_and_address() {
    assert!(is_stun_server("1.2.3.4:3478"));
    assert!(is_stun_server("1.2.3.4:19302"));
    assert!(is_stun_server("74.125.250.129:19305"));
    assert!(is_stun_server("[2001:4860:4864:5:8000::1]:19305"));
    assert!(!is_stun_server("1.2.3.4:34780"));
    assert!(!is_stun_server("192.168.1.2:50000"));
    assert!(!is_stun_server(""));
}

#[test]
fn gathering_request_then_gathered_response() {
    let mut s = fresh(HOST_A, SERVER);
    update_pair_stats(&mut s, &msg(HOST_A, SERVER, 1, "Request", &[]), false, true);
    assert_eq!(s.state, CandidatePairState::Gathering);
    assert_eq!(s.checks_sent, 1);
    update_pair_stats(
        &mut s,
        &msg(SERVER, HOST_A, 2, "Success Response", &["XOR-MAPPED-ADDRESS"]),
        true,
        false,
    );
    assert_eq!(s.state, CandidatePairState::Gathered);
    assert_eq!(s.responses_received, 1);
    assert_eq!(s.checks_sent, 1);
}

#[test]
fn connectivity_checks_and_nomination() {
    let mut s = fresh(HOST_A, HOST_B);
    update_pair_stats(&mut s, &msg(HOST_A, HOST_B, 1, "Request", &["USERNAME", "PRIORITY"]), false, false);
    assert_eq!(s.state, CandidatePairState::InProgress);
    assert_eq!(s.checks_received, 1);
    update_pair_stats(
        &mut s,
        &msg(HOST_A, HOST_B, 2, "Request", &["USERNAME", "USE-CANDIDATE"]),
        false,
        false,
    );
    assert_eq!(s.state, CandidatePairState::Nominated);
    assert_eq!(s.checks_received, 2);
    // A later check does not take the nomination back.
    update_pair_stats(&mut s, &msg(HOST_B, HOST_A, 3, "Request", &["ICE-CONTROLLED"]), false, false);
    assert_eq!(s.state, CandidatePairState::Nominated);
    assert_eq!(s.checks_received, 3);
    // Nor does an error.
    update_pair_stats(&mut s, &msg(HOST_B, HOST_A, 4, "Error Response", &[]), false, false);
    assert_eq!(s.state, CandidatePairState::Nominated);
    assert_eq!(s.failures, 1);
}

#[test]
fn errors_fail_a_pair_unless_it_is_gathering() {
    let mut peer = fresh(HOST_A, HOST_B);
    update_pair_stats(&mut peer, &msg(HOST_A, HOST_B, 1, "Error Response", &[]), false, false);
    assert_eq!(peer.state, CandidatePairState::Failed);
    assert_eq!(peer.failures, 1);

    let mut gathering = fresh(HOST_A, SERVER);
    update_pair_stats(&mut gathering, &msg(HOST_A, SERVER, 1, "Request", &[]), false, true);
    update_pair_stats(&mut gathering, &msg(SERVER, HOST_A, 2, "Error Response", &[]), true, false);
    assert_eq!(gathering.state, CandidatePairState::Gathering);
    assert_eq!(gathering.failures, 1);
}

#[test]
fn other_messages_change_nothing() {
    let mut s = fresh(HOST_A, HOST_B);
    update_pair_stats(&mut s, &msg(HOST_A, HOST_B, 1, "Indication", &["USERNAME"]), false, false);
    update_pair_stats(&mut s, &msg(HOST_A, HOST_B, 1, "Success Response", &["USERNAME"]), false, false);
    update_pair_stats(&mut s, &msg(HOST_A, HOST_B, 1, "Request", &[]), false, false);
    assert_eq!(s.state, CandidatePairState::Frozen);
    assert_eq!(
        (s.checks_sent, s.checks_received, s.responses_received, s.responses_sent, s.failures),
        (0, 0, 0, 0, 0)
    );
}

#[test]
fn pairs_are_built_in_order_of_arrival() {
    let packets = vec![
        msg(SERVER, HOST_A, 20, "Success Response", &["XOR-MAPPED-ADDRESS"]),
        msg(HOST_A, HOST_B, 40, "Request", &["USERNAME", "USE-CANDIDATE"]),
        msg(HOST_A, SERVER, 10, "Request", &[]),
        msg(HOST_B, HOST_A, 30, "Request", &["USERNAME"]),
    ];
    let data: IceCandidatesData = build_ice_data(&packets);
    let pairs = &data.candidate_pairs;
    assert_eq!(pairs.len(), 3);

    // First seen: the gathering exchange, credited to the host's side.
    assert_eq!(pairs[0].key.local_candidate, HOST_A);
    assert_eq!(pairs[0].key.remote_candidate, SERVER);
    assert_eq!(pairs[0].state, CandidatePairState::Gathered);
    assert_eq!(pairs[0].checks_sent, 1);
    assert_eq!(pairs[0].responses_received, 1);
    assert_eq!((pairs[0].first_seen, pairs[0].last_seen), (10, 20));

    // Each direction between hosts is a pair of its own.
    assert_eq!(pairs[1].key.local_candidate, HOST_B);
    assert_eq!(pairs[1].key.remote_candidate, HOST_A);
    assert_eq!(pairs[1].state, CandidatePairState::InProgress);
    assert_eq!((pairs[1].first_seen, pairs[1].last_seen), (30, 30));

    assert_eq!(pairs[2].key.local_candidate, HOST_A);
    assert_eq!(pairs[2].key.remote_candidate, HOST_B);
    assert_eq!(pairs[2].state, CandidatePairState::Nominated);
    assert_eq!(pairs[2].checks_received, 1);
}

#[test]
fn no_stun_traffic_no_pairs() {
    assert!(build_ice_data(&Vec::new()).candidate_pairs.is_empty());
    assert!(IceCandidatesData::default().candidate_pairs.is_empty());
}

fn pair(local: &str, state: CandidatePairState, first_seen: u128) -> CandidatePairStats {
    let mut p = fresh(local, SERVER);
    p.state = state;
    p.first_seen = first_seen;
    p
}

#[test]
fn panel_counts_states_and_lists_filtered_pairs_by_first_sighting() {
    let data = IceCandidatesData {
        candidate_pairs: vec![
            pair("a", CandidatePairState::Nominated, 30),
            pair("b", CandidatePairState::Gathering, 10),
            pair("c", CandidatePairState::Nominated, 20),
            pair("d", CandidatePairState::Nominated, 20),
            pair("e", CandidatePairState::Failed, 5),
        ],
    };
    assert_eq!(pairs_in_state(&data, CandidatePairState::Nominated), 3);
    assert_eq!(pairs_in_state(&data, CandidatePairState::Gathering), 1);
    assert_eq!(pairs_in_state(&data, CandidatePairState::InProgress), 0);
    assert_eq!(visible_pairs(&data, None), vec![4, 1, 2, 3, 0]);
    assert_eq!(
        visible_pairs(&data, Some(CandidatePairState::Nominated)),
        vec![2, 3, 0]
    );
    assert!(visible_pairs(&data, Some(CandidatePairState::Frozen)).is_empty());
    assert!(visible_pairs(&IceCandidatesData::new(), None).is_empty());
}
