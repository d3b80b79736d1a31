//! Filters for the MPEG-TS packets table.
//!
//! - `desc:value`: the packet's ID, in decimal, contains the value
//! - `source:value`, `dest:value`: the lower-cased address contains the
//!   (lower-cased) value, which must contain a `.`
//! - `alias:value`: the lower-cased stream alias contains the value; a
//!   packet of a stream without alias never matches
//! - `payload:N`, `payload:>N`, `payload:>=N`, `payload:<N`,
//!   `payload:<=N`: the payload bytes of the fragments that carry payload
//! - `p1:value` .. `p7:value`: the PID of that fragment, as displayed,
//!   contains the value
//! - `pid:N`: some fragment carries PID `N`
//! - `type:PAT|PMT|PCR+ES|ES|PCR` and `stream:audio|video|other` (any case)
use vstd::prelude::*;
use crate::filter_system::comparison::{ComparisonFilter, ComparisonValue, ComparisonView};
use crate::filter_system::error::{
    result_view, syntax_error, syntax_error_around, ParseError, ParseErrorView,
};
use crate::filter_system::parser::spec_parse_filter;
use crate::filter_system::traits::{
    CommonFilterParser, FilterCombinator, FilterExpression, FilterLogic, FilterParser,
};
use crate::packet::{
    fragments_have_pid, has_pid, payload_size, MpegTsPacketInfoFields, MpegtsFragmentFields,
    PIDTable,
};
use crate::text::{
    decimal, decimal_chars, chars_contain, chars_of, contains_char, has_substring, lower_contains,
    parse_u16, parse_unsigned, spec_parse_u16, str_eq, lowercased, str_trim, uppercased,
    string_from_literal, to_lowercase, to_uppercase, trim, decimal_matches, decimal_string,
    str_contains,
};

verus! {

pub const INVALID_SOURCE: &'static str = "Invalid IP address format (e.g. source:192.168.1.1)";

pub const INVALID_DEST: &'static str = "Invalid IP address format (e.g. dest:192.168.1.1)";

pub const INVALID_ALIAS: &'static str = "Alias filter cannot be empty (e.g. alias:stream_a)";

pub const INVALID_PAYLOAD: &'static str = "Invalid payload filter format.\nExamples:\n\
                     - payload:188 (exact match)\n\
                     - payload:>100 (greater than)\n\
                     - payload:<=188 (less or equal)\n\
                     - payload:<150 (less than)\n\
                     - payload:>=100 (greater or equal)";

pub const EMPTY_PID_VALUE: &'static str = "PID filter value cannot be empty (e.g. p1:256)";

pub const INVALID_PID_POSITION: &'static str =
    "Invalid PID position. Must be p1 through p7 (e.g. p1:256)";

pub const INVALID_PID: &'static str = "Invalid PID number. Must be 0-8191 (e.g. pid:256)";

pub const INVALID_TYPE: &'static str = "Invalid packet type.\nMust be one of:\n\
                     - type:PAT (Program Association Table)\n\
                     - type:PMT (Program Map Table)\n\
                     - type:PCR+ES (PCR and Elementary Stream)\n\
                     - type:ES (Elementary Stream)\n\
                     - type:PCR (Program Clock Reference)";

pub const INVALID_STREAM: &'static str = "Invalid stream type. Must be one of:\n\
                         - stream:audio (Audio streams)\n\
                         - stream:video (Video streams)\n\
                         - stream:other (Other streams)";

pub const UNKNOWN_LEAD: &'static str = "Unknown filter type: '";

pub const UNKNOWN_TAIL: &'static str = "'.\nAvailable filters:\n\
                 - source: Source IP filter\n\
                 - dest: Destination IP filter\n\
                 - alias: Stream alias filter\n\
                 - payload: Payload size filter\n\
                 - p1-p7: PID position filter\n\
                 - pid: PID number filter\n\
                 - type: Packet type filter\n\
                 - stream: Stream type filter";

/// The row a filter is checked against, with the PIDs that the stream's
/// program tables name and the category (`Audio`, `Video`, `Other`) of each
/// elementary stream PID.
pub struct FilterContext<'a> {
    pub packet: &'a MpegTsPacketInfoFields,
    pub pmt_pids: &'a [PIDTable],
    pub es_pids: &'a [PIDTable],
    pub pcr_pids: &'a [PIDTable],
    pub stream_alias: Option<String>,
    pub es_pids_info: &'a [(u16, &'a str)],
}

/// The role of a fragment's PID.
#[derive(Debug, Clone, Copy, PartialEq, Eq, Structural)]
pub enum PacketType {
    Pat,
    Pmt,
    PcrEs,
    Es,
    Pcr,
}

/// The kind of an elementary stream.
#[derive(Debug, Clone, Copy, PartialEq, Eq, Structural)]
pub enum StreamType {
    Audio,
    Video,
    Other,
}

/// The PID role named by an upper-cased text.
pub open spec fn packet_type_from_upper(upper: Seq<char>) -> Option<PacketType> {
    if upper == "PAT"@ {
        Some(PacketType::Pat)
    } else if upper == "PMT"@ {
        Some(PacketType::Pmt)
    } else if upper == "PCR+ES"@ {
        Some(PacketType::PcrEs)
    } else if upper == "ES"@ {
        Some(PacketType::Es)
    } else if upper == "PCR"@ {
        Some(PacketType::Pcr)
    } else {
        None
    }
}

/// The stream kind named by an upper-cased text.
pub open spec fn stream_type_from_upper(upper: Seq<char>) -> Option<StreamType> {
    if upper == "AUDIO"@ {
        Some(StreamType::Audio)
    } else if upper == "VIDEO"@ {
        Some(StreamType::Video)
    } else if upper == "OTHER"@ {
        Some(StreamType::Other)
    } else {
        None
    }
}

impl PacketType {
    /// The PID role that `text` names, in any case.
    pub fn from_name(text: &str) -> (r: Option<PacketType>)
        ensures
            r == packet_type_from_upper(uppercased(text@)),
    {
        let upper = to_uppercase(text);
        Self::from_upper(upper.as_str())
    }

    /// The PID role named by an upper-cased text.
    pub fn from_upper(upper: &str) -> (r: Option<PacketType>)
        ensures
            r == packet_type_from_upper(upper@),
    {
        if str_eq(upper, "PAT") {
            Some(PacketType::Pat)
        } else if str_eq(upper, "PMT") {
            Some(PacketType::Pmt)
        } else if str_eq(upper, "PCR+ES") {
            Some(PacketType::PcrEs)
        } else if str_eq(upper, "ES") {
            Some(PacketType::Es)
        } else if str_eq(upper, "PCR") {
            Some(PacketType::Pcr)
        } else {
            None
        }
    }
}

impl StreamType {
    /// The stream kind that `text` names, in any case.
    pub fn from_name(text: &str) -> (r: Option<StreamType>)
        ensures
            r == stream_type_from_upper(uppercased(text@)),
    {
        let upper = to_uppercase(text);
        Self::from_upper(upper.as_str())
    }

    /// The stream kind named by an upper-cased text.
    pub fn from_upper(upper: &str) -> (r: Option<StreamType>)
        ensures
            r == stream_type_from_upper(upper@),
    {
        if str_eq(upper, "AUDIO") {
            Some(StreamType::Audio)
        } else if str_eq(upper, "VIDEO") {
            Some(StreamType::Video)
        } else if str_eq(upper, "OTHER") {
            Some(StreamType::Other)
        } else {
            None
        }
    }
}

/// A filter over MPEG-TS packets.
pub enum FilterType {
    Desc(String),
    Source(String),
    Destination(String),
    Alias(String),
    Payload(ComparisonFilter<usize>),
    PacketPid(usize, String),
    Pid(u16),
    Type(PacketType),
    StreamType(StreamType),
    And(Box<FilterType>, Box<FilterType>),
    Or(Box<FilterType>, Box<FilterType>),
    Not(Box<FilterType>),
}

/// A [`FilterType`] with its texts as characters.
pub enum FilterView {
    Desc(Seq<char>),
    Source(Seq<char>),
    Destination(Seq<char>),
    Alias(Seq<char>),
    Payload(ComparisonView<usize>),
    PacketPid(usize, Seq<char>),
    Pid(u16),
    Type(PacketType),
    StreamType(StreamType),
    And(Box<FilterView>, Box<FilterView>),
    Or(Box<FilterView>, Box<FilterView>),
    Not(Box<FilterView>),
}

pub open spec fn filter_view(f: FilterType) -> FilterView
    decreases f,
{
    match f {
        FilterType::Desc(s) => FilterView::Desc(s@),
        FilterType::Source(s) => FilterView::Source(s@),
        FilterType::Destination(s) => FilterView::Destination(s@),
        FilterType::Alias(s) => FilterView::Alias(s@),
        FilterType::Payload(c) => FilterView::Payload(c@),
        FilterType::PacketPid(i, s) => FilterView::PacketPid(i, s@),
        FilterType::Pid(n) => FilterView::Pid(n),
        FilterType::Type(t) => FilterView::Type(t),
        FilterType::StreamType(t) => FilterView::StreamType(t),
        FilterType::And(l, r) => FilterView::And(Box::new(filter_view(*l)), Box::new(filter_view(*r))),
        FilterType::Or(l, r) => FilterView::Or(Box::new(filter_view(*l)), Box::new(filter_view(*r))),
        FilterType::Not(e) => FilterView::Not(Box::new(filter_view(*e))),
    }
}

impl View for FilterType {
    type V = FilterView;

    open spec fn view(&self) -> FilterView {
        filter_view(*self)
    }
}

/// The payload comparison that `value` denotes: `>=N`, `>N`, `<=N`, `<N`
/// (with `N` read after trimming) or an exact `N`.
pub open spec fn payload_comparison(value: Seq<char>) -> Option<ComparisonView<usize>> {
    if value.len() >= 2 && value[0] == '>' && value[1] == '=' {
        match usize::spec_from_text(str_trim(value.subrange(2, value.len() as int))) {
            Some(v) => Some(ComparisonView::GreaterOrEqualThan(v)),
            None => None,
        }
    } else if value.len() > 0 && value[0] == '>' {
        match usize::spec_from_text(str_trim(value.drop_first())) {
            Some(v) => Some(ComparisonView::GreaterThan(v)),
            None => None,
        }
    } else if value.len() >= 2 && value[0] == '<' && value[1] == '=' {
        match usize::spec_from_text(str_trim(value.subrange(2, value.len() as int))) {
            Some(v) => Some(ComparisonView::LessOrEqualThan(v)),
            None => None,
        }
    } else if value.len() > 0 && value[0] == '<' {
        match usize::spec_from_text(str_trim(value.drop_first())) {
            Some(v) => Some(ComparisonView::LessThan(v)),
            None => None,
        }
    } else if parse_unsigned(value, usize::MAX as nat) is Some {
        Some(ComparisonView::Equals(value))
    } else {
        None
    }
}

/// The key names a fragment position: `p` followed by one ASCII character.
pub open spec fn is_position_key(key: Seq<char>) -> bool {
    key.len() == 2 && key[0] == 'p' && (key[1] as u32) < 128
}

/// The filter that `prefix:value` denotes.
pub open spec fn filter_from(prefix: Seq<char>, value: Seq<char>) -> Result<FilterView, ParseErrorView> {
    let key = str_trim(prefix);
    let lower = lowercased(value);
    if key == "desc"@ {
        Ok(FilterView::Desc(value))
    } else if key == "source"@ {
        if value.contains('.') {
            Ok(FilterView::Source(lower))
        } else {
            Err(ParseErrorView::InvalidSyntax(INVALID_SOURCE@))
        }
    } else if key == "dest"@ {
        if value.contains('.') {
            Ok(FilterView::Destination(lower))
        } else {
            Err(ParseErrorView::InvalidSyntax(INVALID_DEST@))
        }
    } else if key == "alias"@ {
        if value.len() == 0 {
            Err(ParseErrorView::InvalidSyntax(INVALID_ALIAS@))
        } else {
            Ok(FilterView::Alias(lower))
        }
    } else if key == "payload"@ {
        match payload_comparison(value) {
            Some(c) => Ok(FilterView::Payload(c)),
            None => Err(ParseErrorView::InvalidSyntax(INVALID_PAYLOAD@)),
        }
    } else if is_position_key(key) {
        if '1' <= key[1] <= '7' {
            if value.len() > 0 {
                Ok(FilterView::PacketPid((key[1] as int - 49) as usize, value))
            } else {
                Err(ParseErrorView::InvalidSyntax(EMPTY_PID_VALUE@))
            }
        } else {
            Err(ParseErrorView::InvalidSyntax(INVALID_PID_POSITION@))
        }
    } else if key == "pid"@ {
        match spec_parse_u16(value) {
            Some(n) => Ok(FilterView::Pid(n)),
            None => Err(ParseErrorView::InvalidSyntax(INVALID_PID@)),
        }
    } else if key == "type"@ {
        match packet_type_from_upper(uppercased(value)) {
            Some(t) => Ok(FilterView::Type(t)),
            None => Err(ParseErrorView::InvalidSyntax(INVALID_TYPE@)),
        }
    } else if key == "stream"@ {
        match stream_type_from_upper(uppercased(value)) {
            Some(t) => Ok(FilterView::StreamType(t)),
            None => Err(ParseErrorView::InvalidSyntax(INVALID_STREAM@)),
        }
    } else {
        Err(ParseErrorView::InvalidSyntax(UNKNOWN_LEAD@ + key + UNKNOWN_TAIL@))
    }
}

/// Whether `n` satisfies a payload comparison.
pub open spec fn compares_size(n: nat, c: ComparisonView<usize>) -> bool {
    match c {
        ComparisonView::GreaterThan(v) => n > v,
        ComparisonView::GreaterOrEqualThan(v) => n >= v,
        ComparisonView::LessThan(v) => n < v,
        ComparisonView::LessOrEqualThan(v) => n <= v,
        ComparisonView::Equals(s) => decimal(n) == s,
    }
}

/// Whether the fragment at `index` exists and its PID, as displayed,
/// contains `value` (a non-numeric PID is compared lower-cased).
pub open spec fn position_matches(fragments: Seq<MpegtsFragmentFields>, index: usize, value: Seq<char>) -> bool {
    index < fragments.len() && match fragments[index as int].pid {
        PIDTable::PID(p) => has_substring(decimal(p as nat), value),
        _ => has_substring(lowercased(fragments[index as int].pid_text@), value),
    }
}

/// Whether a fragment with this PID has the role `t`, given the PIDs that
/// the program tables name.
pub open spec fn fragment_has_type(
    pid: PIDTable,
    t: PacketType,
    pmt_pids: Seq<PIDTable>,
    es_pids: Seq<PIDTable>,
    pcr_pids: Seq<PIDTable>,
) -> bool {
    match pid {
        PIDTable::ProgramAssociation => t == PacketType::Pat,
        PIDTable::PID(p) => {
            let is_pmt = pmt_pids.contains(PIDTable::PID(p));
            let is_es = es_pids.contains(PIDTable::PID(p));
            let is_pcr = pcr_pids.contains(PIDTable::PID(p));
            match t {
                PacketType::Pat => false,
                PacketType::Pmt => is_pmt,
                PacketType::PcrEs => is_es && is_pcr,
                PacketType::Es => is_es && !is_pcr,
                PacketType::Pcr => !is_es && is_pcr,
            }
        },
        _ => false,
    }
}

/// The category of the first entry for `pid`, if any.
pub open spec fn category_of(info: Seq<(u16, &str)>, pid: u16) -> Option<Seq<char>>
    decreases info.len(),
{
    if info.len() == 0 {
        None
    } else if info[0].0 == pid {
        Some(info[0].1@)
    } else {
        category_of(info.drop_first(), pid)
    }
}

/// Whether a stream kind and a category name agree.
pub open spec fn category_matches(t: StreamType, category: Option<Seq<char>>) -> bool {
    match category {
        Some(c) => match t {
            StreamType::Audio => c == "Audio"@,
            StreamType::Video => c == "Video"@,
            StreamType::Other => c == "Other"@,
        },
        None => false,
    }
}

/// Whether a fragment with this PID belongs to an elementary stream of kind
/// `t`.
pub open spec fn fragment_has_stream_type(pid: PIDTable, t: StreamType, info: Seq<(u16, &str)>) -> bool {
    match pid {
        PIDTable::PID(p) => category_matches(t, category_of(info, p)),
        _ => false,
    }
}

/// Whether a filter holds of a packet.
pub open spec fn holds(f: FilterView, ctx: FilterContext) -> bool
    decreases f,
{
    let fragments = ctx.packet.fragments@;
    match f {
        FilterView::Desc(v) => has_substring(decimal(ctx.packet.id as nat), v),
        FilterView::Source(v) => has_substring(lowercased(ctx.packet.source_addr@), v),
        FilterView::Destination(v) => has_substring(lowercased(ctx.packet.destination_addr@), v),
        FilterView::Alias(v) => match ctx.stream_alias {
            Some(a) => has_substring(lowercased(a@), v),
            None => false,
        },
        FilterView::Payload(c) => compares_size(payload_size(fragments), c),
        FilterView::PacketPid(i, v) => position_matches(fragments, i, v),
        FilterView::Pid(n) => has_pid(fragments, n),
        FilterView::Type(t) => exists|i: int|
            0 <= i < fragments.len() && fragment_has_type(
                #[trigger] fragments[i].pid,
                t,
                ctx.pmt_pids@,
                ctx.es_pids@,
                ctx.pcr_pids@,
            ),
        FilterView::StreamType(t) => exists|i: int|
            0 <= i < fragments.len() && fragment_has_stream_type(
                #[trigger] fragments[i].pid,
                t,
                ctx.es_pids_info@,
            ),
        FilterView::And(l, r) => holds(*l, ctx) && holds(*r, ctx),
        FilterView::Or(l, r) => holds(*l, ctx) || holds(*r, ctx),
        FilterView::Not(e) => !holds(*e, ctx),
    }
}

impl CommonFilterParser for FilterType {
    open spec fn spec_not(expr: FilterView) -> FilterView {
        FilterView::Not(Box::new(expr))
    }

    fn not(expr: Self) -> (r: Self) {
        FilterType::Not(Box::new(expr))
    }
}

impl<'a> FilterCombinator<'a> for FilterType {
    open spec fn spec_and(left: FilterView, right: FilterView) -> FilterView {
        FilterView::And(Box::new(left), Box::new(right))
    }

    open spec fn spec_or(left: FilterView, right: FilterView) -> FilterView {
        FilterView::Or(Box::new(left), Box::new(right))
    }

    fn and(left: Self, right: Self) -> (r: Self) {
        FilterType::And(Box::new(left), Box::new(right))
    }

    fn or(left: Self, right: Self) -> (r: Self) {
        FilterType::Or(Box::new(left), Box::new(right))
    }
}

/// Parses a filter for the MPEG-TS packets table.
pub fn parse_filter(filter: &str) -> (r: Result<FilterType, ParseError>)
    ensures
        result_view(r) == spec_parse_filter::<FilterType>(filter@),
{
    crate::filter_system::parse_filter(filter)
}

/// Reads a payload comparison (see [`payload_comparison`]).
fn parse_payload_filter(value: &str) -> (r: Option<FilterType>)
    ensures
        match payload_comparison(value@) {
            Some(c) => r matches Some(f) && f@ == FilterView::Payload(c),
            None => r is None,
        },
{
    let n = value.unicode_len();
    let result: Option<ComparisonFilter<usize>> = if n >= 2 && value.get_char(0) == '>'
        && value.get_char(1) == '=' {
        let rest = value.substring_char(2, n);
        match usize::from_text(trim(rest)) {
            Some(v) => Some(ComparisonFilter::GreaterOrEqualThan(v)),
            None => None,
        }
    } else if n > 0 && value.get_char(0) == '>' {
        let rest = value.substring_char(1, n);
        assert(rest@ =~= value@.drop_first());
        match usize::from_text(trim(rest)) {
            Some(v) => Some(ComparisonFilter::GreaterThan(v)),
            None => None,
        }
    } else if n >= 2 && value.get_char(0) == '<' && value.get_char(1) == '=' {
        let rest = value.substring_char(2, n);
        match usize::from_text(trim(rest)) {
            Some(v) => Some(ComparisonFilter::LessOrEqualThan(v)),
            None => None,
        }
    } else if n > 0 && value.get_char(0) == '<' {
        let rest = value.substring_char(1, n);
        assert(rest@ =~= value@.drop_first());
        match usize::from_text(trim(rest)) {
            Some(v) => Some(ComparisonFilter::LessThan(v)),
            None => None,
        }
    } else {
        match usize::from_text(value) {
            Some(_) => Some(ComparisonFilter::Equals(string_from_literal(value))),
            None => None,
        }
    };
    match result {
        Some(c) => Some(FilterType::Payload(c)),
        None => None,
    }
}

proof fn lemma_payload_size_bound(fragments: Seq<MpegtsFragmentFields>)
    ensures
        payload_size(fragments) <= fragments.len() * (usize::MAX as nat),
    decreases fragments.len(),
{
    if fragments.len() > 0 {
        lemma_payload_size_bound(fragments.drop_last());
        let n = fragments.len() as int;
        assert((n - 1) * (usize::MAX as int) + (usize::MAX as int) == n * (usize::MAX as int))
            by (nonlinear_arith);
    }
}

/// Computes [`payload_size`].
fn calculate_payload_size(packet: &MpegTsPacketInfoFields) -> (total: u128)
    ensures
        total as nat == payload_size(packet.fragments@),
{
    let fragments = &packet.fragments;
    let mut total: u128 = 0;
    let mut i: usize = 0;
    while i < fragments.len()
        invariant
            i <= fragments@.len(),
            total as nat == payload_size(fragments@.subrange(0, i as int)),
        decreases fragments.len() - i,
    {
        let fragment = &fragments[i];
        proof {
            assert(fragments@.subrange(0, i + 1).drop_last() =~= fragments@.subrange(0, i as int));
            lemma_payload_size_bound(fragments@.subrange(0, i as int));
            assert((i as int) * (usize::MAX as int) <= (usize::MAX as int) * (usize::MAX as int))
                by (nonlinear_arith)
                requires
                    i <= usize::MAX,
            ;
            assert((usize::MAX as int) * (usize::MAX as int) + (usize::MAX as int) <= u128::MAX)
                by (nonlinear_arith)
                requires
                    usize::MAX <= u64::MAX,
            ;
        }
        if !fragment.adaptation_field_only {
            match fragment.payload_len {
                Some(n) => {
                    total = total + n as u128;
                },
                None => {},
            }
        }
        i = i + 1;
    }
    assert(fragments@.subrange(0, fragments.len() as int) =~= fragments@);
    total
}

/// Checks [`compares_size`].
fn size_holds(total: u128, c: &ComparisonFilter<usize>) -> (r: bool)
    ensures
        r == compares_size(total as nat, c@),
{
    match c {
        ComparisonFilter::GreaterThan(v) => total > *v as u128,
        ComparisonFilter::GreaterOrEqualThan(v) => total >= *v as u128,
        ComparisonFilter::LessThan(v) => total < *v as u128,
        ComparisonFilter::LessOrEqualThan(v) => total <= *v as u128,
        ComparisonFilter::Equals(s) => decimal_matches(total, s.as_str()),
    }
}

/// Checks [`position_matches`].
fn position_holds(fragments: &Vec<MpegtsFragmentFields>, index: usize, value: &str) -> (r: bool)
    ensures
        r == position_matches(fragments@, index, value@),
{
    if index >= fragments.len() {
        return false;
    }
    let fragment = &fragments[index];
    match fragment.pid {
        PIDTable::PID(p) => {
            let digits = decimal_chars(p as u128);
            let wanted = chars_of(value);
            chars_contain(&digits, &wanted)
        },
        _ => lower_contains(fragment.pid_text.as_str(), value),
    }
}

/// Whether the slice holds this PID.
fn pids_contain(pids: &[PIDTable], pid: PIDTable) -> (r: bool)
    ensures
        r == pids@.contains(pid),
{
    let mut i: usize = 0;
    while i < pids.len()
        invariant
            i <= pids@.len(),
            forall|k: int| 0 <= k < i ==> pids@[k] != pid,
        decreases pids.len() - i,
    {
        if pids[i] == pid {
            assert(pids@[i as int] == pid);
            return true;
        }
        i = i + 1;
    }
    false
}

/// Checks [`fragment_has_type`].
fn fragment_type_holds(pid: PIDTable, t: PacketType, ctx: &FilterContext) -> (r: bool)
    ensures
        r == fragment_has_type(pid, t, ctx.pmt_pids@, ctx.es_pids@, ctx.pcr_pids@),
{
    match pid {
        PIDTable::ProgramAssociation => t == PacketType::Pat,
        PIDTable::PID(p) => {
            let is_pmt = pids_contain(ctx.pmt_pids, PIDTable::PID(p));
            let is_es = pids_contain(ctx.es_pids, PIDTable::PID(p));
            let is_pcr = pids_contain(ctx.pcr_pids, PIDTable::PID(p));
            match t {
                PacketType::Pat => false,
                PacketType::Pmt => is_pmt,
                PacketType::PcrEs => is_es && is_pcr,
                PacketType::Es => is_es && !is_pcr,
                PacketType::Pcr => !is_es && is_pcr,
            }
        },
        _ => false,
    }
}

/// Finds [`category_of`].
fn find_category<'b>(info: &'b [(u16, &'b str)], pid: u16) -> (r: Option<&'b str>)
    ensures
        match category_of(info@, pid) {
            Some(c) => r matches Some(s) && s@ == c,
            None => r is None,
        },
{
    let mut i: usize = 0;
    assert(info@.subrange(0, info@.len() as int) =~= info@);
    while i < info.len()
        invariant
            i <= info@.len(),
            category_of(info@, pid) == category_of(info@.subrange(i as int, info@.len() as int), pid),
        decreases info.len() - i,
    {
        let ghost rest = info@.subrange(i as int, info@.len() as int);
        assert(rest.drop_first() =~= info@.subrange(i + 1, info@.len() as int));
        if info[i].0 == pid {
            return Some(info[i].1);
        }
        i = i + 1;
    }
    None
}

/// Checks [`fragment_has_stream_type`].
fn fragment_stream_holds(pid: PIDTable, t: StreamType, info: &[(u16, &str)]) -> (r: bool)
    ensures
        r == fragment_has_stream_type(pid, t, info@),
{
    match pid {
        PIDTable::PID(p) => match find_category(info, p) {
            Some(c) => match t {
                StreamType::Audio => str_eq(c, "Audio"),
                StreamType::Video => str_eq(c, "Video"),
                StreamType::Other => str_eq(c, "Other"),
            },
            None => false,
        },
        _ => false,
    }
}

/// Some fragment of the packet has the role `t`.
fn any_fragment_has_type(ctx: &FilterContext, t: PacketType) -> (r: bool)
    ensures
        r == exists|i: int|
            0 <= i < ctx.packet.fragments@.len() && fragment_has_type(
                #[trigger] ctx.packet.fragments@[i].pid,
                t,
                ctx.pmt_pids@,
                ctx.es_pids@,
                ctx.pcr_pids@,
            ),
{
    let fragments = &ctx.packet.fragments;
    let mut i: usize = 0;
    while i < fragments.len()
        invariant
            fragments@ == ctx.packet.fragments@,
            i <= fragments@.len(),
            forall|k: int|
                0 <= k < i ==> !fragment_has_type(
                    #[trigger] fragments@[k].pid,
                    t,
                    ctx.pmt_pids@,
                    ctx.es_pids@,
                    ctx.pcr_pids@,
                ),
        decreases fragments.len() - i,
    {
        if fragment_type_holds(fragments[i].pid, t, ctx) {
            return true;
        }
        i = i + 1;
    }
    false
}

/// Some fragment of the packet belongs to an elementary stream of kind `t`.
fn any_fragment_has_stream_type(ctx: &FilterContext, t: StreamType) -> (r: bool)
    ensures
        r == exists|i: int|
            0 <= i < ctx.packet.fragments@.len() && fragment_has_stream_type(
                #[trigger] ctx.packet.fragments@[i].pid,
                t,
                ctx.es_pids_info@,
            ),
{
    let fragments = &ctx.packet.fragments;
    let mut i: usize = 0;
    while i < fragments.len()
        invariant
            fragments@ == ctx.packet.fragments@,
            i <= fragments@.len(),
            forall|k: int|
                0 <= k < i ==> !fragment_has_stream_type(
                    #[trigger] fragments@[k].pid,
                    t,
                    ctx.es_pids_info@,
                ),
        decreases fragments.len() - i,
    {
        if fragment_stream_holds(fragments[i].pid, t, ctx.es_pids_info) {
            return true;
        }
        i = i + 1;
    }
    false
}

fn holds_for(f: &FilterType, ctx: &FilterContext) -> (r: bool)
    ensures
        r == holds(f@, *ctx),
    decreases f,
{
    let fragments = &ctx.packet.fragments;
    match f {
        FilterType::Desc(v) => {
            let id = decimal_string(ctx.packet.id as u128);
            str_contains(id.as_str(), v.as_str())
        },
        FilterType::Source(v) => lower_contains(ctx.packet.source_addr.as_str(), v.as_str()),
        FilterType::Destination(v) => lower_contains(
            ctx.packet.destination_addr.as_str(),
            v.as_str(),
        ),
        FilterType::Alias(v) => match &ctx.stream_alias {
            Some(a) => lower_contains(a.as_str(), v.as_str()),
            None => false,
        },
        FilterType::Payload(c) => size_holds(calculate_payload_size(ctx.packet), c),
        FilterType::PacketPid(i, v) => position_holds(fragments, *i, v.as_str()),
        FilterType::Pid(n) => fragments_have_pid(fragments, *n),
        FilterType::Type(t) => any_fragment_has_type(ctx, *t),
        FilterType::StreamType(t) => any_fragment_has_stream_type(ctx, *t),
        FilterType::And(l, r) => holds_for(l, ctx) && holds_for(r, ctx),
        FilterType::Or(l, r) => holds_for(l, ctx) || holds_for(r, ctx),
        FilterType::Not(e) => !holds_for(e, ctx),
    }
}

impl<'a> FilterExpression<'a> for FilterType {
    type Context = FilterContext<'a>;

    open spec fn spec_matches(f: FilterView, ctx: &FilterContext<'a>) -> bool {
        holds(f, *ctx)
    }

    fn matches(&self, ctx: &FilterContext<'a>) -> (r: bool) {
        holds_for(self, ctx)
    }
}

impl FilterParser for FilterType {
    open spec fn spec_parse_filter_value(prefix: Seq<char>, value: Seq<char>) -> Result<
        FilterView,
        ParseErrorView,
    > {
        filter_from(prefix, value)
    }

    fn parse_filter_value(prefix: &str, value: &str) -> (r: Result<Self, ParseError>) {
        let key = trim(prefix);
        if str_eq(key, "desc") {
            Ok(FilterType::Desc(string_from_literal(value)))
        } else if str_eq(key, "source") {
            if contains_char(value, '.') {
                Ok(FilterType::Source(to_lowercase(value)))
            } else {
                Err(syntax_error(INVALID_SOURCE))
            }
        } else if str_eq(key, "dest") {
            if contains_char(value, '.') {
                Ok(FilterType::Destination(to_lowercase(value)))
            } else {
                Err(syntax_error(INVALID_DEST))
            }
        } else if str_eq(key, "alias") {
            if value.is_empty() {
                Err(syntax_error(INVALID_ALIAS))
            } else {
                Ok(FilterType::Alias(to_lowercase(value)))
            }
        } else if str_eq(key, "payload") {
            match parse_payload_filter(value) {
                Some(f) => Ok(f),
                None => Err(syntax_error(INVALID_PAYLOAD)),
            }
        } else if key.unicode_len() == 2 && key.get_char(0) == 'p' && (key.get_char(1) as u32)
            < 128 {
            let index_char = key.get_char(1);
            if '1' <= index_char && index_char <= '7' {
                let packet_index = (index_char as u32 - 49) as usize;
                if !value.is_empty() {
                    Ok(FilterType::PacketPid(packet_index, string_from_literal(value)))
                } else {
                    Err(syntax_error(EMPTY_PID_VALUE))
                }
            } else {
                Err(syntax_error(INVALID_PID_POSITION))
            }
        } else if str_eq(key, "pid") {
            match parse_u16(value) {
                Some(n) => Ok(FilterType::Pid(n)),
                None => Err(syntax_error(INVALID_PID)),
            }
        } else if str_eq(key, "type") {
            match PacketType::from_name(value) {
                Some(t) => Ok(FilterType::Type(t)),
                None => Err(syntax_error(INVALID_TYPE)),
            }
        } else if str_eq(key, "stream") {
            match StreamType::from_name(value) {
                Some(t) => Ok(FilterType::StreamType(t)),
                None => Err(syntax_error(INVALID_STREAM)),
            }
        } else {
            Err(syntax_error_around(UNKNOWN_LEAD, key, UNKNOWN_TAIL))
        }
    }
}

} // verus!

verus! {

impl<'a> FilterLogic<'a> for FilterType {
    proof fn lemma_not_matches(f: <Self as View>::V, ctx: &Self::Context) {
    }

    proof fn lemma_and_matches(
        left: <Self as View>::V,
        right: <Self as View>::V,
        ctx: &Self::Context,
    ) {
    }

    proof fn lemma_or_matches(
        left: <Self as View>::V,
        right: <Self as View>::V,
        ctx: &Self::Context,
    ) {
    }
}

} // verus!

verus! {

impl std::str::FromStr for PacketType {
    type Err = ();

    fn from_str(s: &str) -> (r: Result<PacketType, ()>)
        ensures
            match r {
                Ok(t) => packet_type_from_upper(uppercased(s@)) == Some(t),
                Err(_) => packet_type_from_upper(uppercased(s@)) is None,
            },
    {
        match PacketType::from_name(s) {
            Some(t) => Ok(t),
            None => Err(()),
        }
    }
}

impl std::str::FromStr for StreamType {
    type Err = ();

    fn from_str(s: &str) -> (r: Result<StreamType, ()>)
        ensures
            match r {
                Ok(t) => stream_type_from_upper(uppercased(s@)) == Some(t),
                Err(_) => stream_type_from_upper(uppercased(s@)) is None,
            },
    {
        match StreamType::from_name(s) {
            Some(t) => Ok(t),
            None => Err(()),
        }
    }
}

/// Whether `n` satisfies a payload comparison: `>`, `>=`, `<` and `<=`
/// compare numbers, and an exact comparison the decimal text of `n`.
pub proof fn lemma_payload_comparisons(n: nat, v: usize, s: Seq<char>)
    ensures
        compares_size(n, ComparisonView::GreaterThan(v)) == (n > v),
        compares_size(n, ComparisonView::GreaterOrEqualThan(v)) == (n >= v),
        compares_size(n, ComparisonView::LessThan(v)) == (n < v),
        compares_size(n, ComparisonView::LessOrEqualThan(v)) == (n <= v),
        compares_size(n, ComparisonView::Equals(s)) == (decimal(n) == s),
{
}

/// What each single filter keeps: `desc:v` a packet whose ID in decimal
/// contains `v`; `source:v` and `dest:v` one whose lower-cased address
/// contains `v`; `alias:v` one of a stream with an alias that, lower-cased,
/// contains `v`; `payload:c` one whose payload bytes satisfy `c`; `pN:v` one
/// with an `N`-th fragment whose PID, as displayed, contains `v`; `pid:n` one
/// of which some fragment, at any position, carries PID `n`; `type:pat` one
/// with a PAT fragment and `type:pmt` one with a fragment whose numbered PID
/// a program table names as a PMT.
pub proof fn lemma_single_filters<'a>(
    ctx: FilterContext<'a>,
    v: Seq<char>,
    n: u16,
    i: usize,
    c: ComparisonView<usize>,
)
    ensures
        <FilterType as FilterExpression<'a>>::spec_matches(FilterView::Desc(v), &ctx)
            == has_substring(decimal(ctx.packet.id as nat), v),
        <FilterType as FilterExpression<'a>>::spec_matches(FilterView::Source(v), &ctx)
            == has_substring(lowercased(ctx.packet.source_addr@), v),
        <FilterType as FilterExpression<'a>>::spec_matches(FilterView::Destination(v), &ctx)
            == has_substring(lowercased(ctx.packet.destination_addr@), v),
        <FilterType as FilterExpression<'a>>::spec_matches(FilterView::Alias(v), &ctx) == (
        ctx.stream_alias is Some && has_substring(lowercased(ctx.stream_alias->0@), v)),
        <FilterType as FilterExpression<'a>>::spec_matches(FilterView::Payload(c), &ctx)
            == compares_size(payload_size(ctx.packet.fragments@), c),
        <FilterType as FilterExpression<'a>>::spec_matches(FilterView::PacketPid(i, v), &ctx) == (i
            < ctx.packet.fragments@.len() && match ctx.packet.fragments@[i as int].pid {
            PIDTable::PID(p) => has_substring(decimal(p as nat), v),
            _ => has_substring(lowercased(ctx.packet.fragments@[i as int].pid_text@), v),
        }),
        <FilterType as FilterExpression<'a>>::spec_matches(FilterView::Pid(n), &ctx) == exists|
            k: int,
        | 0 <= k < ctx.packet.fragments@.len() && #[trigger] ctx.packet.fragments@[k].pid == PIDTable::PID(n),
        <FilterType as FilterExpression<'a>>::spec_matches(FilterView::Type(PacketType::Pat), &ctx)
            == exists|k: int|
            0 <= k < ctx.packet.fragments@.len() && #[trigger] ctx.packet.fragments@[k].pid
                == PIDTable::ProgramAssociation,
        <FilterType as FilterExpression<'a>>::spec_matches(FilterView::Type(PacketType::Pmt), &ctx)
            == exists|k: int, p: u16|
            0 <= k < ctx.packet.fragments@.len() && #[trigger] ctx.packet.fragments@[k].pid
                == PIDTable::PID(p) && #[trigger] ctx.pmt_pids@.contains(PIDTable::PID(p)),
{
    let fr = ctx.packet.fragments@;
    let t = <FilterType as FilterExpression<'a>>::spec_matches(
        FilterView::Type(PacketType::Pat),
        &ctx,
    );
    if t {
        let k = choose|k: int|
            0 <= k < fr.len() && fragment_has_type(
                #[trigger] fr[k].pid,
                PacketType::Pat,
                ctx.pmt_pids@,
                ctx.es_pids@,
                ctx.pcr_pids@,
            );
        assert(fr[k].pid == PIDTable::ProgramAssociation);
    }
    if exists|k: int| 0 <= k < fr.len() && #[trigger] fr[k].pid == PIDTable::ProgramAssociation {
        let k = choose|k: int|
            0 <= k < fr.len() && #[trigger] fr[k].pid == PIDTable::ProgramAssociation;
        assert(fragment_has_type(fr[k].pid, PacketType::Pat, ctx.pmt_pids@, ctx.es_pids@, ctx.pcr_pids@));
    }
    let m = <FilterType as FilterExpression<'a>>::spec_matches(
        FilterView::Type(PacketType::Pmt),
        &ctx,
    );
    if m {
        let k = choose|k: int|
            0 <= k < fr.len() && fragment_has_type(
                #[trigger] fr[k].pid,
                PacketType::Pmt,
                ctx.pmt_pids@,
                ctx.es_pids@,
                ctx.pcr_pids@,
            );
        if let PIDTable::PID(p) = fr[k].pid {
            assert(fr[k].pid == PIDTable::PID(p) && ctx.pmt_pids@.contains(PIDTable::PID(p)));
        }
    }
    if exists|k: int, p: u16|
        0 <= k < fr.len() && #[trigger] fr[k].pid == PIDTable::PID(p) && #[trigger] ctx.pmt_pids@.contains(
            PIDTable::PID(p),
        ) {
        let (k, p) = choose|k: int, p: u16|
            0 <= k < fr.len() && #[trigger] fr[k].pid == PIDTable::PID(p) && #[trigger] ctx.pmt_pids@.contains(
                PIDTable::PID(p),
            );
        assert(fragment_has_type(fr[k].pid, PacketType::Pmt, ctx.pmt_pids@, ctx.es_pids@, ctx.pcr_pids@));
    }
}

/// What each `key:value` filter stands for: the filter it denotes when its
/// value is acceptable, and an error otherwise.
pub proof fn lemma_filter_keys(v: Seq<char>)
    ensures
        <FilterType as FilterParser>::spec_parse_filter_value("desc"@, v) == Ok::<FilterView, ParseErrorView>(FilterView::Desc(v)),
        v.contains('.') ==> <FilterType as FilterParser>::spec_parse_filter_value(
            "source"@,
            v,
        ) == Ok::<FilterView, ParseErrorView>(FilterView::Source(crate::text::lowercased(v))),
        !(v.contains('.')) ==> <FilterType as FilterParser>::spec_parse_filter_value("source"@, v) is Err,
        v.contains('.') ==> <FilterType as FilterParser>::spec_parse_filter_value(
            "dest"@,
            v,
        ) == Ok::<FilterView, ParseErrorView>(FilterView::Destination(crate::text::lowercased(v))),
        !(v.contains('.')) ==> <FilterType as FilterParser>::spec_parse_filter_value("dest"@, v) is Err,
        v.len() > 0 ==> <FilterType as FilterParser>::spec_parse_filter_value(
            "alias"@,
            v,
        ) == Ok::<FilterView, ParseErrorView>(FilterView::Alias(crate::text::lowercased(v))),
        !(v.len() > 0) ==> <FilterType as FilterParser>::spec_parse_filter_value("alias"@, v) is Err,
        payload_comparison(v) is Some ==> <FilterType as FilterParser>::spec_parse_filter_value(
            "payload"@,
            v,
        ) == Ok::<FilterView, ParseErrorView>(FilterView::Payload(payload_comparison(v)->0)),
        !(payload_comparison(v) is Some) ==> <FilterType as FilterParser>::spec_parse_filter_value("payload"@, v) is Err,
        v.len() > 0 ==> <FilterType as FilterParser>::spec_parse_filter_value(
            "p1"@,
            v,
        ) == Ok::<FilterView, ParseErrorView>(FilterView::PacketPid(0usize, v)),
        !(v.len() > 0) ==> <FilterType as FilterParser>::spec_parse_filter_value("p1"@, v) is Err,
        v.len() > 0 ==> <FilterType as FilterParser>::spec_parse_filter_value(
            "p2"@,
            v,
        ) == Ok::<FilterView, ParseErrorView>(FilterView::PacketPid(1usize, v)),
        !(v.len() > 0) ==> <FilterType as FilterParser>::spec_parse_filter_value("p2"@, v) is Err,
        v.len() > 0 ==> <FilterType as FilterParser>::spec_parse_filter_value(
            "p3"@,
            v,
        ) == Ok::<FilterView, ParseErrorView>(FilterView::PacketPid(2usize, v)),
        !(v.len() > 0) ==> <FilterType as FilterParser>::spec_parse_filter_value("p3"@, v) is Err,
        v.len() > 0 ==> <FilterType as FilterParser>::spec_parse_filter_value(
            "p4"@,
            v,
        ) == Ok::<FilterView, ParseErrorView>(FilterView::PacketPid(3usize, v)),
        !(v.len() > 0) ==> <FilterType as FilterParser>::spec_parse_filter_value("p4"@, v) is Err,
        v.len() > 0 ==> <FilterType as FilterParser>::spec_parse_filter_value(
            "p5"@,
            v,
        ) == Ok::<FilterView, ParseErrorView>(FilterView::PacketPid(4usize, v)),
        !(v.len() > 0) ==> <FilterType as FilterParser>::spec_parse_filter_value("p5"@, v) is Err,
        v.len() > 0 ==> <FilterType as FilterParser>::spec_parse_filter_value(
            "p6"@,
            v,
        ) == Ok::<FilterView, ParseErrorView>(FilterView::PacketPid(5usize, v)),
        !(v.len() > 0) ==> <FilterType as FilterParser>::spec_parse_filter_value("p6"@, v) is Err,
        v.len() > 0 ==> <FilterType as FilterParser>::spec_parse_filter_value(
            "p7"@,
            v,
        ) == Ok::<FilterView, ParseErrorView>(FilterView::PacketPid(6usize, v)),
        !(v.len() > 0) ==> <FilterType as FilterParser>::spec_parse_filter_value("p7"@, v) is Err,
        spec_parse_u16(v) is Some ==> <FilterType as FilterParser>::spec_parse_filter_value(
            "pid"@,
            v,
        ) == Ok::<FilterView, ParseErrorView>(FilterView::Pid(spec_parse_u16(v)->0)),
        !(spec_parse_u16(v) is Some) ==> <FilterType as FilterParser>::spec_parse_filter_value("pid"@, v) is Err,
        packet_type_from_upper(crate::text::uppercased(v)) is Some ==> <FilterType as FilterParser>::spec_parse_filter_value(
            "type"@,
            v,
        ) == Ok::<FilterView, ParseErrorView>(FilterView::Type(packet_type_from_upper(crate::text::uppercased(v))->0)),
        !(packet_type_from_upper(crate::text::uppercased(v)) is Some) ==> <FilterType as FilterParser>::spec_parse_filter_value("type"@, v) is Err,
        stream_type_from_upper(crate::text::uppercased(v)) is Some ==> <FilterType as FilterParser>::spec_parse_filter_value(
            "stream"@,
            v,
        ) == Ok::<FilterView, ParseErrorView>(FilterView::StreamType(stream_type_from_upper(crate::text::uppercased(v))->0)),
        !(stream_type_from_upper(crate::text::uppercased(v)) is Some) ==> <FilterType as FilterParser>::spec_parse_filter_value("stream"@, v) is Err,
{
    reveal_strlit("desc");
    reveal_strlit("source");
    reveal_strlit("dest");
    reveal_strlit("alias");
    reveal_strlit("payload");
    reveal_strlit("p1");
    reveal_strlit("p2");
    reveal_strlit("p3");
    reveal_strlit("p4");
    reveal_strlit("p5");
    reveal_strlit("p6");
    reveal_strlit("p7");
    reveal_strlit("pid");
    reveal_strlit("type");
    reveal_strlit("stream");
    crate::text::lemma_trim_unchanged("desc"@);
    crate::text::lemma_trim_unchanged("source"@);
    crate::text::lemma_trim_unchanged("dest"@);
    crate::text::lemma_trim_unchanged("alias"@);
    crate::text::lemma_trim_unchanged("payload"@);
    crate::text::lemma_trim_unchanged("p1"@);
    crate::text::lemma_trim_unchanged("p2"@);
    crate::text::lemma_trim_unchanged("p3"@);
    crate::text::lemma_trim_unchanged("p4"@);
    crate::text::lemma_trim_unchanged("p5"@);
    crate::text::lemma_trim_unchanged("p6"@);
    crate::text::lemma_trim_unchanged("p7"@);
    crate::text::lemma_trim_unchanged("pid"@);
    crate::text::lemma_trim_unchanged("type"@);
    crate::text::lemma_trim_unchanged("stream"@);
}

} // verus!
