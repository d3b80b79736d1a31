//! Candidate pairs found in STUN traffic, and the state each has reached.
//!
//! A message is credited to the pair of its two addresses, seen from the
//! side that is not a STUN server.  What the message does to its pair
//! depends on its class (`Request`, `Success Response`, `Error Response`)
//! and on its role: gathering (a message to or from a STUN server that
//! carries no `USERNAME`), gathered (a gathering message that carries an
//! `XOR-MAPPED-ADDRESS`), or a connectivity check between peers (a message
//! that involves no server and carries a `USERNAME`, `PRIORITY`,
//! `ICE-CONTROLLING` or `ICE-CONTROLLED`).
use vstd::prelude::*;
use super::types::{
    CandidatePairKey, CandidatePairState, CandidatePairStats, IceCandidatesData, PairView,
};
use crate::app::tables::row_order::{key_views, lists_all, order_by_key, stable_order};
use crate::text::{has_substring, has_suffix, str_contains, str_ends_with, str_eq};

verus! {

/// What the ICE view reads of a STUN message.
pub struct StunMessageFields {
    pub source_addr: String,
    pub destination_addr: String,
    /// Arrival time, in nanoseconds since the capture started.
    pub timestamp: u128,
    /// The name of the message class, such as `Request`.
    pub message_class: String,
    /// The type names of the message's attributes, such as `USERNAME`.
    pub attribute_names: Vec<String>,
}

/// A [`StunMessageFields`] with its texts as characters.
pub struct StunMessageView {
    pub source: Seq<char>,
    pub destination: Seq<char>,
    pub timestamp: u128,
    pub class: Seq<char>,
    pub attributes: Seq<Seq<char>>,
}

impl View for StunMessageFields {
    type V = StunMessageView;

    open spec fn view(&self) -> StunMessageView {
        StunMessageView {
            source: self.source_addr@,
            destination: self.destination_addr@,
            timestamp: self.timestamp,
            class: self.message_class@,
            attributes: self.attribute_names@.map_values(|a: String| a@),
        }
    }
}

/// The address is a STUN server's: its port is 3478 or 19302, or it lies in
/// Google's STUN address ranges.
pub open spec fn is_stun_server_addr(addr: Seq<char>) -> bool {
    has_suffix(addr, ":3478"@) || has_suffix(addr, ":19302"@) || has_substring(addr, "74.125."@)
        || has_substring(addr, "2001:4860:4864:"@)
}

/// Checks [`is_stun_server_addr`].
pub fn is_stun_server(addr: &str) -> (r: bool)
    ensures
        r == is_stun_server_addr(addr@),
{
    str_ends_with(addr, ":3478") || str_ends_with(addr, ":19302") || str_contains(addr, "74.125.")
        || str_contains(addr, "2001:4860:4864:")
}

/// The local and the remote address of the pair that a message belongs to:
/// a message from a STUN server to a host belongs to the host's pair.
pub open spec fn pair_of(m: StunMessageView) -> (Seq<char>, Seq<char>) {
    if is_stun_server_addr(m.source) && !is_stun_server_addr(m.destination) {
        (m.destination, m.source)
    } else {
        (m.source, m.destination)
    }
}

/// What a message is to its pair.
pub struct MessageRole {
    pub gathering: bool,
    pub gathered: bool,
    pub connectivity_check: bool,
    pub use_candidate: bool,
}

/// The role of a message, given whether a STUN server sent or receives it.
pub open spec fn message_role(attributes: Seq<Seq<char>>, involves_server: bool) -> MessageRole {
    let username = attributes.contains("USERNAME"@);
    let gathering = involves_server && !username;
    MessageRole {
        gathering,
        gathered: gathering && attributes.contains("XOR-MAPPED-ADDRESS"@),
        connectivity_check: !involves_server && (username || attributes.contains("PRIORITY"@)
            || attributes.contains("ICE-CONTROLLING"@) || attributes.contains("ICE-CONTROLLED"@)),
        use_candidate: attributes.contains("USE-CANDIDATE"@),
    }
}

/// The state a connectivity check leaves: a nominated pair stays nominated.
pub open spec fn checking(s: CandidatePairState) -> CandidatePairState {
    if s == CandidatePairState::Nominated {
        s
    } else {
        CandidatePairState::InProgress
    }
}

/// What one message of class `class` and role `r` does to a pair.
pub open spec fn updated_pair(p: PairView, class: Seq<char>, r: MessageRole) -> PairView {
    if class == "Request"@ && r.gathering && !r.gathered && !r.connectivity_check
        && !r.use_candidate {
        PairView {
            checks_sent: (p.checks_sent + 1) as u32,
            state: CandidatePairState::Gathering,
            ..p
        }
    } else if class == "Success Response"@ && r.gathering && r.gathered && !r.connectivity_check
        && !r.use_candidate {
        PairView {
            responses_received: (p.responses_received + 1) as u32,
            state: CandidatePairState::Gathered,
            ..p
        }
    } else if class == "Request"@ && !r.gathering && !r.gathered && r.connectivity_check
        && !r.use_candidate {
        PairView { checks_received: (p.checks_received + 1) as u32, state: checking(p.state), ..p }
    } else if class == "Success Response"@ && !r.gathering && !r.gathered && r.connectivity_check
        && r.use_candidate {
        PairView { checks_received: (p.checks_received + 1) as u32, state: checking(p.state), ..p }
    } else if class == "Request"@ && !r.gathering && !r.gathered && r.use_candidate {
        PairView {
            checks_received: (p.checks_received + 1) as u32,
            state: CandidatePairState::Nominated,
            ..p
        }
    } else if class == "Error Response"@ {
        PairView {
            failures: (p.failures + 1) as u32,
            state: if p.state != CandidatePairState::Nominated && !r.gathering {
                CandidatePairState::Failed
            } else {
                p.state
            },
            ..p
        }
    } else {
        p
    }
}

/// No counter of the pair has reached its largest value.
pub open spec fn counters_below_max(p: PairView) -> bool {
    &&& p.checks_sent < u32::MAX
    &&& p.checks_received < u32::MAX
    &&& p.responses_received < u32::MAX
    &&& p.failures < u32::MAX
}

/// Whether the attribute names hold `name`.
fn has_attribute(names: &Vec<String>, name: &str) -> (r: bool)
    ensures
        r == names@.map_values(|a: String| a@).contains(name@),
{
    let ghost views = names@.map_values(|a: String| a@);
    let mut i: usize = 0;
    while i < names.len()
        invariant
            views == names@.map_values(|a: String| a@),
            i <= names@.len(),
            forall|k: int| 0 <= k < i ==> views[k] != name@,
        decreases names.len() - i,
    {
        if str_eq(names[i].as_str(), name) {
            assert(views[i as int] == name@);
            return true;
        }
        i = i + 1;
    }
    false
}

/// Updates a pair's counters and state for one STUN message; the flags say
/// whether the message's source and destination are STUN servers.
pub fn update_pair_stats(
    stats: &mut CandidatePairStats,
    stun: &StunMessageFields,
    local_is_server: bool,
    remote_is_server: bool,
)
    requires
        counters_below_max(old(stats)@),
    ensures
        final(stats)@ == updated_pair(
            old(stats)@,
            stun@.class,
            message_role(stun@.attributes, local_is_server || remote_is_server),
        ),
{
    let involves_server = local_is_server || remote_is_server;
    let has_username = has_attribute(&stun.attribute_names, "USERNAME");
    let has_priority = has_attribute(&stun.attribute_names, "PRIORITY");
    let has_ice_controlling = has_attribute(&stun.attribute_names, "ICE-CONTROLLING");
    let has_ice_controlled = has_attribute(&stun.attribute_names, "ICE-CONTROLLED");
    let has_use_candidate = has_attribute(&stun.attribute_names, "USE-CANDIDATE");
    let has_xor_mapped = has_attribute(&stun.attribute_names, "XOR-MAPPED-ADDRESS");
    let is_gathering = involves_server && !has_username;
    let is_gathered = is_gathering && has_xor_mapped;
    let is_connectivity_check = !involves_server && (has_username || has_priority
        || has_ice_controlling || has_ice_controlled);
    let class = stun.message_class.as_str();
    let request = str_eq(class, "Request");
    let success = str_eq(class, "Success Response");
    let error = str_eq(class, "Error Response");
    if request && is_gathering && !is_gathered && !is_connectivity_check && !has_use_candidate {
        stats.checks_sent = stats.checks_sent + 1;
        stats.state = CandidatePairState::Gathering;
    } else if success && is_gathering && is_gathered && !is_connectivity_check
        && !has_use_candidate {
        stats.responses_received = stats.responses_received + 1;
        stats.state = CandidatePairState::Gathered;
    } else if request && !is_gathering && !is_gathered && is_connectivity_check
        && !has_use_candidate {
        stats.checks_received = stats.checks_received + 1;
        if stats.state != CandidatePairState::Nominated {
            stats.state = CandidatePairState::InProgress;
        }
    } else if success && !is_gathering && !is_gathered && is_connectivity_check
        && has_use_candidate {
        stats.checks_received = stats.checks_received + 1;
        if stats.state != CandidatePairState::Nominated {
            stats.state = CandidatePairState::InProgress;
        }
    } else if request && !is_gathering && !is_gathered && has_use_candidate {
        stats.checks_received = stats.checks_received + 1;
        stats.state = CandidatePairState::Nominated;
    } else if error {
        stats.failures = stats.failures + 1;
        if stats.state != CandidatePairState::Nominated && !is_gathering {
            stats.state = CandidatePairState::Failed;
        }
    }
}

/// The index of the first pair with these local and remote addresses.
pub open spec fn find_pair(pairs: Seq<PairView>, key: (Seq<char>, Seq<char>)) -> Option<int>
    decreases pairs.len(),
{
    if pairs.len() == 0 {
        None
    } else {
        match find_pair(pairs.drop_last(), key) {
            Some(i) => Some(i),
            None => if (pairs.last().local, pairs.last().remote) == key {
                Some(pairs.len() - 1)
            } else {
                None
            },
        }
    }
}

/// A pair first seen at `t`, before any message is credited to it.
pub open spec fn new_pair(key: (Seq<char>, Seq<char>), t: u128) -> PairView {
    PairView {
        local: key.0,
        remote: key.1,
        state: CandidatePairState::Frozen,
        checks_sent: 0,
        checks_received: 0,
        responses_received: 0,
        responses_sent: 0,
        failures: 0,
        first_seen: t,
        last_seen: t,
    }
}

/// The pair, last seen no earlier than `t`.
pub open spec fn seen_at(p: PairView, t: u128) -> PairView {
    if t > p.last_seen {
        PairView { last_seen: t, ..p }
    } else {
        p
    }
}

/// Credits one message to its pair, which is added if it is new.
pub open spec fn record_message(pairs: Seq<PairView>, m: StunMessageView) -> Seq<PairView> {
    let key = pair_of(m);
    let role = message_role(
        m.attributes,
        is_stun_server_addr(m.source) || is_stun_server_addr(m.destination),
    );
    match find_pair(pairs, key) {
        Some(i) => pairs.update(i, seen_at(updated_pair(pairs[i], m.class, role), m.timestamp)),
        None => pairs.push(
            seen_at(updated_pair(new_pair(key, m.timestamp), m.class, role), m.timestamp),
        ),
    }
}

/// The pairs that messages read in this order give.
pub open spec fn ice_pairs(msgs: Seq<StunMessageView>) -> Seq<PairView>
    decreases msgs.len(),
{
    if msgs.len() == 0 {
        Seq::empty()
    } else {
        record_message(ice_pairs(msgs.drop_last()), msgs.last())
    }
}

/// The messages, in the listed order.
pub open spec fn in_order(msgs: Seq<StunMessageView>, order: Seq<usize>) -> Seq<StunMessageView> {
    order.map_values(|i: usize| msgs[i as int])
}

/// The arrival times of the messages.
pub open spec fn arrival_times(msgs: Seq<StunMessageView>) -> Seq<u128> {
    msgs.map_values(|m: StunMessageView| m.timestamp)
}

/// The order in which messages arrived: by arrival time, messages that
/// arrived together in their given order.
pub open spec fn arrival_order(msgs: Seq<StunMessageView>) -> Seq<usize> {
    stable_order::<u128>(arrival_times(msgs))
}

/// Every counter of every pair is at most `n`.
pub open spec fn counters_at_most(pairs: Seq<PairView>, n: nat) -> bool {
    forall|i: int|
        0 <= i < pairs.len() ==> {
            &&& pairs[i].checks_sent <= n
            &&& pairs[i].checks_received <= n
            &&& pairs[i].responses_received <= n
            &&& pairs[i].failures <= n
        }
}

proof fn lemma_find_pair(pairs: Seq<PairView>, key: (Seq<char>, Seq<char>), k: int)
    requires
        0 <= k <= pairs.len(),
        forall|j: int| 0 <= j < k ==> (pairs[j].local, pairs[j].remote) != key,
    ensures
        find_pair(pairs.subrange(0, k), key) is None,
        k < pairs.len() && (pairs[k].local, pairs[k].remote) == key ==> find_pair(
            pairs.subrange(0, k + 1),
            key,
        ) == Some(k),
    decreases k,
{
    if k > 0 {
        lemma_find_pair(pairs, key, k - 1);
        assert(pairs.subrange(0, k).drop_last() =~= pairs.subrange(0, k - 1));
    }
    if k < pairs.len() {
        assert(pairs.subrange(0, k + 1).drop_last() =~= pairs.subrange(0, k));
    }
}

/// Finds the first pair whose key matches.
fn find_pair_index(pairs: &Vec<CandidatePairStats>, local: &str, remote: &str) -> (r: Option<usize>)
    ensures
        r matches Some(i) ==> i < pairs@.len(),
        option_int(r) == find_pair(pairs@.map_values(|p: CandidatePairStats| p@), (local@, remote@)),
{
    let ghost views = pairs@.map_values(|p: CandidatePairStats| p@);
    let ghost key = (local@, remote@);
    let mut i: usize = 0;
    while i < pairs.len()
        invariant
            views == pairs@.map_values(|p: CandidatePairStats| p@),
            key == (local@, remote@),
            i <= pairs@.len(),
            forall|j: int| 0 <= j < i ==> (views[j].local, views[j].remote) != key,
        decreases pairs.len() - i,
    {
        if str_eq(pairs[i].key.local_candidate.as_str(), local) && str_eq(
            pairs[i].key.remote_candidate.as_str(),
            remote,
        ) {
            proof {
                lemma_find_pair(views, key, i as int);
                lemma_find_prefix(views, key, i as int + 1);
            }
            return Some(i);
        }
        i = i + 1;
    }
    proof {
        lemma_find_pair(views, key, i as int);
        assert(views.subrange(0, i as int) =~= views);
    }
    None
}

/// Finding a pair in a prefix that holds it finds it in the whole.
proof fn lemma_find_prefix(pairs: Seq<PairView>, key: (Seq<char>, Seq<char>), k: int)
    requires
        0 <= k <= pairs.len(),
        find_pair(pairs.subrange(0, k), key) is Some,
    ensures
        find_pair(pairs, key) == find_pair(pairs.subrange(0, k), key),
    decreases pairs.len() - k,
{
    if k < pairs.len() {
        assert(pairs.subrange(0, k + 1).drop_last() =~= pairs.subrange(0, k));
        lemma_find_prefix(pairs, key, k + 1);
    } else {
        assert(pairs.subrange(0, k) =~= pairs);
    }
}

/// An optional index as an integer.
pub open spec fn option_int(o: Option<usize>) -> Option<int> {
    match o {
        Some(i) => Some(i as int),
        None => None,
    }
}


/// The candidate pairs that STUN messages reveal: each message is credited
/// to its pair in order of arrival, messages that arrive together in the
/// order given.
pub fn build_ice_data(packets: &Vec<StunMessageFields>) -> (data: IceCandidatesData)
    requires
        packets@.len() < u32::MAX,
    ensures
        ({
            let msgs = packets@.map_values(|m: StunMessageFields| m@);
            data@ == ice_pairs(in_order(msgs, arrival_order(msgs)))
        }),
{
    let ghost views = packets@.map_values(|m: StunMessageFields| m@);
    let mut times: Vec<u128> = Vec::new();
    let mut k: usize = 0;
    while k < packets.len()
        invariant
            views == packets@.map_values(|m: StunMessageFields| m@),
            k <= packets@.len(),
            times@ == arrival_times(views).take(k as int),
        decreases packets.len() - k,
    {
        times.push(packets[k].timestamp);
        assert(arrival_times(views).take(k + 1) =~= arrival_times(views).take(k as int).push(
            packets@[k as int].timestamp,
        ));
        k = k + 1;
    }
    assert(arrival_times(views).take(k as int) =~= arrival_times(views));
    let order = order_by_key(&times);
    assert(key_views::<u128>(times@) =~= arrival_times(views));
    let ghost ordered = in_order(views, order@);
    let mut data = IceCandidatesData::new();
    let mut j: usize = 0;
    assert(ordered.take(0) =~= Seq::<StunMessageView>::empty());
    while j < order.len()
        invariant
            views == packets@.map_values(|m: StunMessageFields| m@),
            ordered == in_order(views, order@),
            lists_all(order@, packets@.len()),
            packets@.len() < u32::MAX,
            j <= order@.len(),
            data@ == ice_pairs(ordered.take(j as int)),
            counters_at_most(data@, j as nat),
        decreases order.len() - j,
    {
        let m = &packets[order[j]];
        let ghost mv = views[order@[j as int] as int];
        assert(mv == m@);
        assert(ordered[j as int] == mv);
        assert(ordered.take(j + 1).drop_last() =~= ordered.take(j as int));
        assert(ordered.take(j + 1).last() == mv);
        let ghost before = data@;
        let local_is_server = is_stun_server(m.source_addr.as_str());
        let remote_is_server = is_stun_server(m.destination_addr.as_str());
        let swap = local_is_server && !remote_is_server;
        let local = if swap {
            &m.destination_addr
        } else {
            &m.source_addr
        };
        let remote = if swap {
            &m.source_addr
        } else {
            &m.destination_addr
        };
        assert((local@, remote@) == pair_of(mv));
        match find_pair_index(&data.candidate_pairs, local.as_str(), remote.as_str()) {
            Some(i) => {
                assert(data.candidate_pairs@[i as int]@ == before[i as int]);
                update_pair_stats(&mut data.candidate_pairs[i], m, local_is_server, remote_is_server);
                if m.timestamp > data.candidate_pairs[i].last_seen {
                    data.candidate_pairs[i].last_seen = m.timestamp;
                }
                assert(data@ =~= before.update(
                    i as int,
                    seen_at(
                        updated_pair(
                            before[i as int],
                            mv.class,
                            message_role(mv.attributes, local_is_server || remote_is_server),
                        ),
                        mv.timestamp,
                    ),
                ));
            },
            None => {
                let mut stats = CandidatePairStats {
                    key: CandidatePairKey {
                        local_candidate: local.clone(),
                        remote_candidate: remote.clone(),
                    },
                    state: CandidatePairState::Frozen,
                    checks_sent: 0,
                    checks_received: 0,
                    responses_received: 0,
                    responses_sent: 0,
                    failures: 0,
                    first_seen: m.timestamp,
                    last_seen: m.timestamp,
                };
                assert(stats@ == new_pair(pair_of(mv), mv.timestamp));
                update_pair_stats(&mut stats, m, local_is_server, remote_is_server);
                if m.timestamp > stats.last_seen {
                    stats.last_seen = m.timestamp;
                }
                data.candidate_pairs.push(stats);
                assert(data@ =~= before.push(
                    seen_at(
                        updated_pair(
                            new_pair(pair_of(mv), mv.timestamp),
                            mv.class,
                            message_role(mv.attributes, local_is_server || remote_is_server),
                        ),
                        mv.timestamp,
                    ),
                ));
            },
        }
        j = j + 1;
    }
    assert(ordered.take(j as int) =~= ordered);
    data
}


/// Between two hosts (no STUN server involved), a nominated pair stays
/// nominated whatever message follows.
pub proof fn lemma_nomination_kept(p: PairView, class: Seq<char>, attributes: Seq<Seq<char>>)
    requires
        p.state == CandidatePairState::Nominated,
    ensures
        updated_pair(p, class, message_role(attributes, false)).state
            == CandidatePairState::Nominated,
{
}

/// A message adds one to at most one counter of its pair, lowers none, and
/// leaves the pair's addresses and times alone; an error response always
/// counts as a failure.
pub proof fn lemma_one_count_per_message(p: PairView, class: Seq<char>, r: MessageRole)
    requires
        counters_below_max(p),
    ensures
        ({
            let q = updated_pair(p, class, r);
            &&& q.checks_sent >= p.checks_sent
            &&& q.checks_received >= p.checks_received
            &&& q.responses_received >= p.responses_received
            &&& q.failures >= p.failures
            &&& q.checks_sent + q.checks_received + q.responses_received + q.failures
                <= p.checks_sent + p.checks_received + p.responses_received + p.failures + 1
            &&& q.responses_sent == p.responses_sent
            &&& q.local == p.local && q.remote == p.remote
            &&& q.first_seen == p.first_seen && q.last_seen == p.last_seen
        }),
        class == "Error Response"@ ==> updated_pair(p, class, r).failures == p.failures + 1,
{
    reveal_strlit("Error Response");
    reveal_strlit("Request");
    reveal_strlit("Success Response");
    assert("Error Response"@.len() != "Request"@.len());
    assert("Error Response"@.len() != "Success Response"@.len());
}

/// The pairs found are told apart by their addresses, each was first seen
/// no later than last seen, and every message's pair is among them.
pub proof fn lemma_pairs_found(msgs: Seq<StunMessageView>)
    ensures
        forall|i: int, j: int|
            0 <= i < j < ice_pairs(msgs).len() ==> (ice_pairs(msgs)[i].local, ice_pairs(
                msgs,
            )[i].remote) != (ice_pairs(msgs)[j].local, ice_pairs(msgs)[j].remote),
        forall|i: int|
            0 <= i < ice_pairs(msgs).len() ==> ice_pairs(msgs)[i].first_seen <= ice_pairs(
                msgs,
            )[i].last_seen,
        forall|k: int| 0 <= k < msgs.len() ==> find_pair(ice_pairs(msgs), pair_of(msgs[k])) is Some,
    decreases msgs.len(),
{
    if msgs.len() > 0 {
        let prev = msgs.drop_last();
        lemma_pairs_found(prev);
        let pairs = ice_pairs(prev);
        let m = msgs.last();
        let key = pair_of(m);
        let next = ice_pairs(msgs);
        assert(next == record_message(pairs, m));
        lemma_find_pair_spec(pairs, key);
        match find_pair(pairs, key) {
            Some(i) => {
                assert(next =~= pairs.update(
                    i,
                    seen_at(
                        updated_pair(
                            pairs[i],
                            m.class,
                            message_role(
                                m.attributes,
                                is_stun_server_addr(m.source) || is_stun_server_addr(
                                    m.destination,
                                ),
                            ),
                        ),
                        m.timestamp,
                    ),
                ));
                assert forall|k: int| 0 <= k < msgs.len() implies find_pair(next, pair_of(msgs[k]))
                    is Some by {
                    lemma_find_pair_spec(next, pair_of(msgs[k]));
                    if k < prev.len() {
                        assert(msgs[k] == prev[k]);
                        lemma_find_pair_spec(pairs, pair_of(prev[k]));
                        let w = find_pair(pairs, pair_of(prev[k]))->0;
                        assert((next[w].local, next[w].remote) == pair_of(msgs[k]));
                    } else {
                        assert((next[i].local, next[i].remote) == pair_of(msgs[k]));
                    }
                }
            },
            None => {
                let added = seen_at(
                    updated_pair(
                        new_pair(key, m.timestamp),
                        m.class,
                        message_role(
                            m.attributes,
                            is_stun_server_addr(m.source) || is_stun_server_addr(m.destination),
                        ),
                    ),
                    m.timestamp,
                );
                assert(next =~= pairs.push(added));
                assert forall|k: int| 0 <= k < msgs.len() implies find_pair(next, pair_of(msgs[k]))
                    is Some by {
                    lemma_find_pair_spec(next, pair_of(msgs[k]));
                    if k < prev.len() {
                        assert(msgs[k] == prev[k]);
                        lemma_find_pair_spec(pairs, pair_of(prev[k]));
                        let w = find_pair(pairs, pair_of(prev[k]))->0;
                        assert(next[w] == pairs[w]);
                    } else {
                        assert((next[pairs.len() as int].local, next[pairs.len() as int].remote)
                            == key);
                    }
                }
            },
        }
    }
}

/// `find_pair` gives the first pair with the key, if there is one.
proof fn lemma_find_pair_spec(pairs: Seq<PairView>, key: (Seq<char>, Seq<char>))
    ensures
        match find_pair(pairs, key) {
            Some(i) => 0 <= i < pairs.len() && (pairs[i].local, pairs[i].remote) == key
                && forall|j: int| 0 <= j < i ==> (pairs[j].local, pairs[j].remote) != key,
            None => forall|j: int| 0 <= j < pairs.len() ==> (pairs[j].local, pairs[j].remote) != key,
        },
    decreases pairs.len(),
{
    if pairs.len() > 0 {
        let front = pairs.drop_last();
        lemma_find_pair_spec(front, key);
        assert forall|j: int| 0 <= j < front.len() implies front[j] == pairs[j] by {}
    }
}

/// The three message classes are told apart.
proof fn lemma_classes_differ()
    ensures
        "Request"@ != "Success Response"@,
        "Request"@ != "Error Response"@,
        "Success Response"@ != "Error Response"@,
{
    reveal_strlit("Request");
    reveal_strlit("Success Response");
    reveal_strlit("Error Response");
    assert("Request"@.len() != "Success Response"@.len());
    assert("Request"@.len() != "Error Response"@.len());
    assert("Success Response"@[0] != "Error Response"@[0]);
}

/// An error response counts one more failure, and fails the pair unless
/// the pair is nominated or the response answers a gathering request (one
/// to or from a STUN server without `USERNAME`); nothing else changes.
pub proof fn lemma_error_response(p: PairView, attributes: Seq<Seq<char>>, involves_server: bool)
    requires
        counters_below_max(p),
    ensures
        ({
            let q = updated_pair(p, "Error Response"@, message_role(attributes, involves_server));
            let kept = p.state == CandidatePairState::Nominated || (involves_server
                && !attributes.contains("USERNAME"@));
            &&& q.failures == p.failures + 1
            &&& q.state == (if kept {
                p.state
            } else {
                CandidatePairState::Failed
            })
            &&& q == (PairView { failures: q.failures, state: q.state, ..p })
        }),
{
    lemma_classes_differ();
}

/// A request to or from a STUN server that carries no `USERNAME`,
/// `XOR-MAPPED-ADDRESS` or `USE-CANDIDATE` counts one more check sent and
/// puts the pair in gathering; nothing else changes.
pub proof fn lemma_gathering_request(p: PairView, attributes: Seq<Seq<char>>)
    requires
        counters_below_max(p),
        !attributes.contains("USERNAME"@),
        !attributes.contains("XOR-MAPPED-ADDRESS"@),
        !attributes.contains("USE-CANDIDATE"@),
    ensures
        updated_pair(p, "Request"@, message_role(attributes, true)) == (PairView {
            checks_sent: (p.checks_sent + 1) as u32,
            state: CandidatePairState::Gathering,
            ..p
        }),
{
}

/// A success response from or to a STUN server that carries an
/// `XOR-MAPPED-ADDRESS` and neither `USERNAME` nor `USE-CANDIDATE` counts
/// one more response received and marks the pair gathered; nothing else
/// changes.
pub proof fn lemma_gathered_response(p: PairView, attributes: Seq<Seq<char>>)
    requires
        counters_below_max(p),
        !attributes.contains("USERNAME"@),
        attributes.contains("XOR-MAPPED-ADDRESS"@),
        !attributes.contains("USE-CANDIDATE"@),
    ensures
        updated_pair(p, "Success Response"@, message_role(attributes, true)) == (PairView {
            responses_received: (p.responses_received + 1) as u32,
            state: CandidatePairState::Gathered,
            ..p
        }),
{
    lemma_classes_differ();
}

/// Whether the attributes mark a connectivity check between peers.
pub open spec fn has_check_attribute(attributes: Seq<Seq<char>>) -> bool {
    attributes.contains("USERNAME"@) || attributes.contains("PRIORITY"@) || attributes.contains(
        "ICE-CONTROLLING"@,
    ) || attributes.contains("ICE-CONTROLLED"@)
}

/// Between peers, a check request without `USE-CANDIDATE`, or a check
/// success response with `USE-CANDIDATE`, counts one more check received
/// and puts the pair in progress, a nominated pair staying nominated;
/// nothing else changes.
pub proof fn lemma_peer_check(p: PairView, class: Seq<char>, attributes: Seq<Seq<char>>)
    requires
        counters_below_max(p),
        has_check_attribute(attributes),
        (class == "Request"@ && !attributes.contains("USE-CANDIDATE"@)) || (class
            == "Success Response"@ && attributes.contains("USE-CANDIDATE"@)),
    ensures
        updated_pair(p, class, message_role(attributes, false)) == (PairView {
            checks_received: (p.checks_received + 1) as u32,
            state: if p.state == CandidatePairState::Nominated {
                CandidatePairState::Nominated
            } else {
                CandidatePairState::InProgress
            },
            ..p
        }),
{
    lemma_classes_differ();
}

/// A request with `USE-CANDIDATE` that is not a gathering request counts
/// one more check received and nominates the pair; nothing else changes.
pub proof fn lemma_nominating_request(p: PairView, attributes: Seq<Seq<char>>, involves_server: bool)
    requires
        counters_below_max(p),
        attributes.contains("USE-CANDIDATE"@),
        !(involves_server && !attributes.contains("USERNAME"@)),
    ensures
        updated_pair(p, "Request"@, message_role(attributes, involves_server)) == (PairView {
            checks_received: (p.checks_received + 1) as u32,
            state: CandidatePairState::Nominated,
            ..p
        }),
{
    lemma_classes_differ();
}

/// A message of any other class leaves the pair as it was.
pub proof fn lemma_other_classes(p: PairView, class: Seq<char>, r: MessageRole)
    requires
        class != "Request"@,
        class != "Success Response"@,
        class != "Error Response"@,
    ensures
        updated_pair(p, class, r) == p,
{
}

} // verus!
