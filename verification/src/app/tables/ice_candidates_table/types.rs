//! Candidate pairs and the states they go through.
use vstd::prelude::*;

verus! {

/// A local and a remote candidate, as their addresses are written.
#[derive(Debug, PartialEq, Eq, Hash)]
pub struct CandidatePairKey {
    pub local_candidate: String,
    pub remote_candidate: String,
}

impl Clone for CandidatePairKey {
    fn clone(&self) -> (k: CandidatePairKey)
        ensures
            k == *self,
    {
        CandidatePairKey {
            local_candidate: self.local_candidate.clone(),
            remote_candidate: self.remote_candidate.clone(),
        }
    }
}

/// Where a candidate pair stands in connectivity establishment.
#[derive(Debug, Clone, Copy, PartialEq, Eq, Structural)]
pub enum CandidatePairState {
    Gathering,
    Gathered,
    InProgress,
    Nominated,
    SendingMedia,
    Failed,
    Frozen,
    Disconnected,
}

/// The short label shown for a state.
pub open spec fn state_label(s: CandidatePairState) -> Seq<char> {
    match s {
        CandidatePairState::Gathering => "> Gathering"@,
        CandidatePairState::Nominated => "+ Nominated"@,
        CandidatePairState::SendingMedia => "\u{25b6} Sending Media"@,
        CandidatePairState::InProgress => "~ Checking"@,
        CandidatePairState::Failed => "X Failed"@,
        CandidatePairState::Gathered => "* Gathered"@,
        CandidatePairState::Frozen => "# Frozen"@,
        CandidatePairState::Disconnected => "- Disconnected"@,
    }
}

/// The sentence that explains a state.
pub open spec fn state_description(s: CandidatePairState) -> Seq<char> {
    match s {
        CandidatePairState::Gathering => "Discovering public IP/port via STUN server"@,
        CandidatePairState::Gathered => "Gathered server reflexive address"@,
        CandidatePairState::InProgress => "Performing peer-to-peer connectivity checks"@,
        CandidatePairState::Nominated => "Pair nominated for communication"@,
        CandidatePairState::SendingMedia => "Actively sending RTP/RTCP media"@,
        CandidatePairState::Failed => "Connectivity check failed"@,
        CandidatePairState::Frozen => "No information yet"@,
        CandidatePairState::Disconnected => "Connection lost"@,
    }
}

impl CandidatePairState {
    pub fn label(&self) -> (r: &'static str)
        ensures
            r@ == state_label(*self),
    {
        match self {
            CandidatePairState::Gathering => "> Gathering",
            CandidatePairState::Nominated => "+ Nominated",
            CandidatePairState::SendingMedia => "\u{25b6} Sending Media",
            CandidatePairState::InProgress => "~ Checking",
            CandidatePairState::Failed => "X Failed",
            CandidatePairState::Gathered => "* Gathered",
            CandidatePairState::Frozen => "# Frozen",
            CandidatePairState::Disconnected => "- Disconnected",
        }
    }

    pub fn description(&self) -> (r: &'static str)
        ensures
            r@ == state_description(*self),
    {
        match self {
            CandidatePairState::Gathering => "Discovering public IP/port via STUN server",
            CandidatePairState::Gathered => "Gathered server reflexive address",
            CandidatePairState::InProgress => "Performing peer-to-peer connectivity checks",
            CandidatePairState::Nominated => "Pair nominated for communication",
            CandidatePairState::SendingMedia => "Actively sending RTP/RTCP media",
            CandidatePairState::Failed => "Connectivity check failed",
            CandidatePairState::Frozen => "No information yet",
            CandidatePairState::Disconnected => "Connection lost",
        }
    }
}

} // verus!

verus! {

/// What is known of a candidate pair from the STUN messages seen so far:
/// the state it reached, how many messages of each kind it exchanged, and
/// when it was first and last seen (in nanoseconds since the capture
/// started).
#[derive(Debug)]
pub struct CandidatePairStats {
    pub key: CandidatePairKey,
    pub state: CandidatePairState,
    pub checks_sent: u32,
    pub checks_received: u32,
    pub responses_received: u32,
    pub responses_sent: u32,
    pub failures: u32,
    pub first_seen: u128,
    pub last_seen: u128,
}

/// A [`CandidatePairStats`] with its addresses as characters.
pub struct PairView {
    pub local: Seq<char>,
    pub remote: Seq<char>,
    pub state: CandidatePairState,
    pub checks_sent: u32,
    pub checks_received: u32,
    pub responses_received: u32,
    pub responses_sent: u32,
    pub failures: u32,
    pub first_seen: u128,
    pub last_seen: u128,
}

impl View for CandidatePairStats {
    type V = PairView;

    open spec fn view(&self) -> PairView {
        PairView {
            local: self.key.local_candidate@,
            remote: self.key.remote_candidate@,
            state: self.state,
            checks_sent: self.checks_sent,
            checks_received: self.checks_received,
            responses_received: self.responses_received,
            responses_sent: self.responses_sent,
            failures: self.failures,
            first_seen: self.first_seen,
            last_seen: self.last_seen,
        }
    }
}

/// Every candidate pair seen, each once, in the order first seen.
pub struct IceCandidatesData {
    pub candidate_pairs: Vec<CandidatePairStats>,
}

impl View for IceCandidatesData {
    type V = Seq<PairView>;

    open spec fn view(&self) -> Seq<PairView> {
        self.candidate_pairs@.map_values(|p: CandidatePairStats| p@)
    }
}

impl IceCandidatesData {
    /// No pair seen yet.
    pub fn new() -> (d: IceCandidatesData)
        ensures
            d@ == Seq::<PairView>::empty(),
    {
        let d = IceCandidatesData { candidate_pairs: Vec::new() };
        assert(d@ =~= Seq::<PairView>::empty());
        d
    }
}

impl Default for IceCandidatesData {
    fn default() -> (d: IceCandidatesData)
        ensures
            d@ == Seq::<PairView>::empty(),
    {
        IceCandidatesData::new()
    }
}

} // verus!
