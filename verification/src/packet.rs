//! Plain values that the filters read from captured packets.
//!
//! The packet types themselves come from the capture server; these structs
//! hold, as text and numbers, exactly what the table filters look at.
use vstd::prelude::*;
use crate::text::str_eq;

verus! {

/// The application-level protocol that a packet was decoded as.
#[derive(Debug, Clone, Copy, PartialEq, Eq, Structural)]
pub enum SessionProtocol {
    Unknown,
    Rtp,
    Rtcp,
    Mpegts,
}

/// The protocol that `text` names, if any: `Unknown`, `RTP`, `RTCP` or
/// `MPEG-TS`, written exactly so.
pub open spec fn session_protocol_named(text: Seq<char>) -> Option<SessionProtocol> {
    if text == "Unknown"@ {
        Some(SessionProtocol::Unknown)
    } else if text == "RTP"@ {
        Some(SessionProtocol::Rtp)
    } else if text == "RTCP"@ {
        Some(SessionProtocol::Rtcp)
    } else if text == "MPEG-TS"@ {
        Some(SessionProtocol::Mpegts)
    } else {
        None
    }
}

impl SessionProtocol {
    /// Reads a protocol name (see [`session_protocol_named`]).
    pub fn from_name(text: &str) -> (r: Option<SessionProtocol>)
        ensures
            r == session_protocol_named(text@),
    {
        if str_eq(text, "Unknown") {
            Some(SessionProtocol::Unknown)
        } else if str_eq(text, "RTP") {
            Some(SessionProtocol::Rtp)
        } else if str_eq(text, "RTCP") {
            Some(SessionProtocol::Rtcp)
        } else if str_eq(text, "MPEG-TS") {
            Some(SessionProtocol::Mpegts)
        } else {
            None
        }
    }
}

/// What the packet filters read of a captured packet: the addresses and
/// protocol names as they are displayed, the session protocol, and the
/// captured length in bytes.
pub struct PacketFields {
    pub source_addr: String,
    pub destination_addr: String,
    pub transport_protocol: String,
    pub session_protocol_name: String,
    pub session_protocol: SessionProtocol,
    pub length: u32,
}

} // verus!

verus! {

/// What the RTP filters read of an RTP packet's header.
pub struct RtpPacketFields {
    pub ssrc: u32,
    pub padding: bool,
    pub extension: bool,
    pub marker: bool,
    pub sequence_number: u16,
    pub timestamp: u32,
    pub payload_length: usize,
}

/// A `+` or `-` flag filter: `+` asks for the flag set, `-` for it clear,
/// anything else accepts either.
pub open spec fn flag_matches(flag: bool, wanted: Seq<char>) -> bool {
    if wanted == "+"@ {
        flag
    } else if wanted == "-"@ {
        !flag
    } else {
        true
    }
}

/// Checks [`flag_matches`].
pub fn flag_filter_holds(flag: bool, wanted: &str) -> (r: bool)
    ensures
        r == flag_matches(flag, wanted@),
{
    if str_eq(wanted, "+") {
        flag
    } else if str_eq(wanted, "-") {
        !flag
    } else {
        true
    }
}

} // verus!

verus! {

/// What the STUN filters read of a STUN message: its type as the two
/// tables display it, its transaction id, its magic cookie and its declared
/// length.
pub struct StunPacketFields {
    pub message_type: String,
    pub message_type_name: String,
    pub transaction_id: Vec<u8>,
    pub magic_cookie: u32,
    pub message_length: u16,
}

/// A byte as two lower-case hexadecimal digits (`{:02x}`).
pub open spec fn byte_hex(b: u8) -> Seq<char> {
    seq![crate::text::hex_char((b / 16) as nat), crate::text::hex_char((b % 16) as nat)]
}

/// Bytes as lower-case hexadecimal, two digits each.
pub open spec fn bytes_hex(bytes: Seq<u8>) -> Seq<char>
    decreases bytes.len(),
{
    if bytes.len() == 0 {
        Seq::empty()
    } else {
        bytes_hex(bytes.drop_last()) + byte_hex(bytes.last())
    }
}

/// The characters of [`bytes_hex`].
pub fn bytes_hex_chars(bytes: &Vec<u8>) -> (v: Vec<char>)
    ensures
        v@ == bytes_hex(bytes@),
{
    let mut v: Vec<char> = Vec::new();
    let mut i: usize = 0;
    assert(bytes@.subrange(0, 0) =~= Seq::<u8>::empty());
    while i < bytes.len()
        invariant
            i <= bytes@.len(),
            v@ == bytes_hex(bytes@.subrange(0, i as int)),
        decreases bytes.len() - i,
    {
        let b = bytes[i];
        let high = b / 16;
        let low = b % 16;
        let h = if high < 10 {
            (48u8 + high) as char
        } else {
            (87u8 + high) as char
        };
        let l = if low < 10 {
            (48u8 + low) as char
        } else {
            (87u8 + low) as char
        };
        let ghost before = v@;
        v.push(h);
        v.push(l);
        assert(bytes@.subrange(0, i + 1).drop_last() =~= bytes@.subrange(0, i as int));
        assert(v@ =~= before + byte_hex(b));
        i = i + 1;
    }
    assert(bytes@.subrange(0, bytes.len() as int) =~= bytes@);
    v
}

/// Whether the hexadecimal transaction id contains `value`; an empty
/// value matches every id.
pub fn transaction_matches(transaction_id: &Vec<u8>, value: &str) -> (r: bool)
    ensures
        r == (value@.len() == 0 || crate::text::has_substring(bytes_hex(transaction_id@), value@)),
{
    if value.is_empty() {
        return true;
    }
    let hex = bytes_hex_chars(transaction_id);
    let needle = crate::text::chars_of(value);
    crate::text::chars_contain(&hex, &needle)
}

} // verus!

verus! {

/// The program identifier in an MPEG-TS fragment header.
#[allow(non_camel_case_types)]
#[derive(Debug, Clone, Copy, PartialEq, Eq, Structural)]
pub enum PIDTable {
    ProgramAssociation,
    ConditionalAccess,
    TransportStreamDescription,
    IPMPControlInformation,
    AdaptiveStreaming,
    PID(u16),
    NullPacket,
}

/// What the MPEG-TS filters read of one fragment: its PID, the PID as
/// displayed, whether the adaptation field fills the whole fragment, and
/// the length of its payload when it has one.
pub struct MpegtsFragmentFields {
    pub pid: PIDTable,
    pub pid_text: String,
    pub adaptation_field_only: bool,
    pub payload_len: Option<usize>,
}

/// What the MPEG-TS packet filters read of a transport packet.
pub struct MpegtsPacketFields {
    pub fragments: Vec<MpegtsFragmentFields>,
    pub number_of_fragments: usize,
}

/// Some fragment carries the program identifier `pid`.
pub open spec fn has_pid(fragments: Seq<MpegtsFragmentFields>, pid: u16) -> bool {
    exists|i: int| 0 <= i < fragments.len() && #[trigger] fragments[i].pid == PIDTable::PID(pid)
}

/// Checks [`has_pid`].
pub fn fragments_have_pid(fragments: &Vec<MpegtsFragmentFields>, pid: u16) -> (r: bool)
    ensures
        r == has_pid(fragments@, pid),
{
    let mut i: usize = 0;
    while i < fragments.len()
        invariant
            i <= fragments@.len(),
            forall|k: int| 0 <= k < i ==> #[trigger] fragments@[k].pid != PIDTable::PID(pid),
        decreases fragments.len() - i,
    {
        if fragments[i].pid == PIDTable::PID(pid) {
            assert(fragments@[i as int].pid == PIDTable::PID(pid));
            return true;
        }
        i = i + 1;
    }
    false
}

} // verus!

verus! {

/// What the MPEG-TS stream filters read of a stream: its alias, its
/// addresses as displayed, and how many substreams and packets it has.
pub struct MpegtsStreamFields {
    pub alias: String,
    pub source_addr: String,
    pub destination_addr: String,
    pub substream_count: usize,
    pub packet_count: usize,
}

} // verus!

verus! {

/// What the MPEG-TS packet table filters read of a transport packet: its
/// ID, the addresses of the stream it belongs to, as displayed, and its
/// fragments.
pub struct MpegTsPacketInfoFields {
    pub id: usize,
    pub source_addr: String,
    pub destination_addr: String,
    pub fragments: Vec<MpegtsFragmentFields>,
}

/// Total payload bytes of the fragments that carry a payload and are not
/// filled by their adaptation field.
pub open spec fn payload_size(fragments: Seq<MpegtsFragmentFields>) -> nat
    decreases fragments.len(),
{
    if fragments.len() == 0 {
        0
    } else {
        let last = fragments.last();
        let own: nat = if !last.adaptation_field_only && last.payload_len is Some {
            last.payload_len->0 as nat
        } else {
            0
        };
        payload_size(fragments.drop_last()) + own
    }
}

/// The payload bytes of fragments: none for no fragment, and one more
/// fragment adds its payload length when it carries a payload and is not
/// filled by its adaptation field.
pub proof fn lemma_payload_size_step(fragments: Seq<MpegtsFragmentFields>, f: MpegtsFragmentFields)
    ensures
        payload_size(Seq::empty()) == 0,
        payload_size(fragments.push(f)) == payload_size(fragments) + (if !f.adaptation_field_only
            && f.payload_len is Some {
            f.payload_len->0 as nat
        } else {
            0
        }),
{
    assert(fragments.push(f).drop_last() =~= fragments);
}

/// A byte in hexadecimal is two lower-case digits, high half first, and
/// bytes are written one after another.
pub proof fn lemma_bytes_hex_step(bytes: Seq<u8>, b: u8)
    ensures
        bytes_hex(Seq::empty()) == Seq::<char>::empty(),
        bytes_hex(bytes.push(b)) == bytes_hex(bytes) + seq![
            crate::text::hex_char((b / 16) as nat),
            crate::text::hex_char((b % 16) as nat),
        ],
{
    assert(bytes.push(b).drop_last() =~= bytes);
}

} // verus!
