//! Filters for the table of all captured packets.
//!
//! Filters are `field:value`, joined by `AND`, `OR`, `NOT` and parentheses:
//! - `source:value`, `dest:value`: the displayed address contains the
//!   (lower-cased) value; the value must contain a `.`
//! - `proto:value` or `protocol:value`: the transport or the session
//!   protocol name contains the value
//! - `length:N`, `length:>N`, `length:>=N`, `length:<N`, `length:<=N`
//! - `type:value`: the session protocol is the one named
use vstd::prelude::*;
use crate::filter_system::comparison::{compares_usize, spec_comparison, ComparisonFilter, ComparisonView};
use crate::filter_system::error::{
    empty_value_error, empty_value_message, result_view, syntax_error, ParseError, ParseErrorView,
};
use crate::filter_system::parser::{parsed_filter_matches, shows_row, spec_parse_filter};
use crate::filter_system::traits::{
    CommonFilterParser, FilterCombinator, FilterExpression, FilterLogic, FilterParser,
};
use crate::packet::{session_protocol_named, PacketFields, SessionProtocol};
use crate::text::{
    contains_char, has_substring, lower_contains, str_eq, lowercased, str_trim, to_lowercase,
    trim,
};

verus! {

pub const INVALID_SOURCE: &'static str = "Invalid IP address format (e.g. source:192.168.1.1)";

pub const INVALID_DEST: &'static str = "Invalid IP address format (e.g. dest:192.168.1.1)";

pub const INVALID_PROTOCOL: &'static str = "Invalid protocol filter format.\nAvailable filters:\n\
                         - proto:udp (UDP protocol)\n\
                         - proto:tcp (TCP protocol)\n\
                         - proto:rtp (RTP protocol)\n\
                         - proto:rtcp (RTCP protocol)\n
                         - proto:mpeg-ts (MPEG Transport Stream)";

pub const INVALID_LENGTH: &'static str = "Invalid length filter format.\nExamples:\n\
                         - length:188 (exact match)\n\
                         - length:>100 (greater than)\n\
                         - length:<=188 (less or equal)\n\
                         - length:<150 (less than)\n\
                         - length:>=100 (greater or equal)";

pub const INVALID_TYPE: &'static str = "Invalid packet type.\nMust be one of:\n\
                     - type:RTP (Real-time Transport Protocol)\n\
                     - type:RTCP (Real-time Control Protocol)\n\
                     - type:MPEG-TS (MPEG Transport Stream)\n";

pub const UNKNOWN_FILTER: &'static str = "Unknown filter type.\nAvailable filters:\n\
                - source: Match source IP (e.g., source:192.168)\n\
                - dest: Match destination IP (e.g., dest:10.0.0)\n\
                - proto/protocol: Match protocol (e.g., proto:udp)\n\
                - length: Match packet size (e.g., length:>100)\n\
                - type: Match session type (e.g., type:rtp)";

/// A filter over captured packets.
pub enum FilterType {
    Source(String),
    Destination(String),
    Protocol(String),
    Length(ComparisonFilter<usize>),
    Type(SessionProtocol),
    And(Box<FilterType>, Box<FilterType>),
    Or(Box<FilterType>, Box<FilterType>),
    Not(Box<FilterType>),
}

/// A [`FilterType`] with its texts as characters.
pub enum FilterView {
    Source(Seq<char>),
    Destination(Seq<char>),
    Protocol(Seq<char>),
    Length(ComparisonView<usize>),
    Type(SessionProtocol),
    And(Box<FilterView>, Box<FilterView>),
    Or(Box<FilterView>, Box<FilterView>),
    Not(Box<FilterView>),
}

pub open spec fn filter_view(f: FilterType) -> FilterView
    decreases f,
{
    match f {
        FilterType::Source(s) => FilterView::Source(s@),
        FilterType::Destination(s) => FilterView::Destination(s@),
        FilterType::Protocol(s) => FilterView::Protocol(s@),
        FilterType::Length(c) => FilterView::Length(c@),
        FilterType::Type(p) => FilterView::Type(p),
        FilterType::And(l, r) => FilterView::And(Box::new(filter_view(*l)), Box::new(filter_view(*r))),
        FilterType::Or(l, r) => FilterView::Or(Box::new(filter_view(*l)), Box::new(filter_view(*r))),
        FilterType::Not(e) => FilterView::Not(Box::new(filter_view(*e))),
    }
}

impl View for FilterType {
    type V = FilterView;

    open spec fn view(&self) -> FilterView {
        filter_view(*self)
    }
}

/// The filter that `prefix:value` denotes.  A blank value is refused
/// first; the prefix is read after trimming.
pub open spec fn filter_from(prefix: Seq<char>, value: Seq<char>) -> Result<FilterView, ParseErrorView> {
    let key = str_trim(prefix);
    if str_trim(value).len() == 0 {
        Err(ParseErrorView::InvalidSyntax(empty_value_message(prefix)))
    } else if key == "source"@ {
        if value.contains('.') {
            Ok(FilterView::Source(lowercased(value)))
        } else {
            Err(ParseErrorView::InvalidSyntax(INVALID_SOURCE@))
        }
    } else if key == "dest"@ {
        if value.contains('.') {
            Ok(FilterView::Destination(lowercased(value)))
        } else {
            Err(ParseErrorView::InvalidSyntax(INVALID_DEST@))
        }
    } else if key == "proto"@ || key == "protocol"@ {
        if value.len() > 0 {
            Ok(FilterView::Protocol(lowercased(value)))
        } else {
            Err(ParseErrorView::InvalidSyntax(INVALID_PROTOCOL@))
        }
    } else if key == "length"@ {
        match spec_comparison::<usize>(value) {
            Some(c) => Ok(FilterView::Length(c)),
            None => Err(ParseErrorView::InvalidSyntax(INVALID_LENGTH@)),
        }
    } else if key == "type"@ {
        match session_protocol_named(value) {
            Some(p) => Ok(FilterView::Type(p)),
            None => Err(ParseErrorView::InvalidSyntax(INVALID_TYPE@)),
        }
    } else {
        Err(ParseErrorView::InvalidSyntax(UNKNOWN_FILTER@))
    }
}

/// Whether a filter holds of a packet.  Address and protocol filters look
/// for their value in the lower-cased displayed text.
pub open spec fn holds(f: FilterView, p: PacketFields) -> bool
    decreases f,
{
    match f {
        FilterView::Source(v) => has_substring(lowercased(p.source_addr@), v),
        FilterView::Destination(v) => has_substring(lowercased(p.destination_addr@), v),
        FilterView::Protocol(v) => has_substring(lowercased(p.transport_protocol@), v)
            || has_substring(lowercased(p.session_protocol_name@), v),
        FilterView::Length(c) => compares_usize(p.length as usize, c),
        FilterView::Type(t) => p.session_protocol == t,
        FilterView::And(l, r) => holds(*l, p) && holds(*r, p),
        FilterView::Or(l, r) => holds(*l, p) || holds(*r, p),
        FilterView::Not(e) => !holds(*e, p),
    }
}

/// The row a filter is checked against.
pub struct FilterContext<'a> {
    pub packet: &'a PacketFields,
}

impl CommonFilterParser for FilterType {
    open spec fn spec_not(expr: FilterView) -> FilterView {
        FilterView::Not(Box::new(expr))
    }

    fn not(expr: Self) -> (r: Self) {
        FilterType::Not(Box::new(expr))
    }
}

impl<'a> FilterCombinator<'a> for FilterType {
    open spec fn spec_and(left: FilterView, right: FilterView) -> FilterView {
        FilterView::And(Box::new(left), Box::new(right))
    }

    open spec fn spec_or(left: FilterView, right: FilterView) -> FilterView {
        FilterView::Or(Box::new(left), Box::new(right))
    }

    fn and(left: Self, right: Self) -> (r: Self) {
        FilterType::And(Box::new(left), Box::new(right))
    }

    fn or(left: Self, right: Self) -> (r: Self) {
        FilterType::Or(Box::new(left), Box::new(right))
    }
}

/// Parses a filter for the packets table.
pub fn parse_filter(filter: &str) -> (r: Result<FilterType, ParseError>)
    ensures
        result_view(r) == spec_parse_filter::<FilterType>(filter@),
{
    crate::filter_system::parse_filter(filter)
}

fn holds_for_packet(f: &FilterType, p: &PacketFields) -> (r: bool)
    ensures
        r == holds(f@, *p),
    decreases f,
{
    match f {
        FilterType::Source(value) => lower_contains(p.source_addr.as_str(), value.as_str()),
        FilterType::Destination(value) => lower_contains(
            p.destination_addr.as_str(),
            value.as_str(),
        ),
        FilterType::Protocol(value) => lower_contains(p.transport_protocol.as_str(), value.as_str())
            || lower_contains(p.session_protocol_name.as_str(), value.as_str()),
        FilterType::Length(c) => c.holds_for(p.length as usize),
        FilterType::Type(t) => p.session_protocol == *t,
        FilterType::And(l, r) => holds_for_packet(l, p) && holds_for_packet(r, p),
        FilterType::Or(l, r) => holds_for_packet(l, p) || holds_for_packet(r, p),
        FilterType::Not(e) => !holds_for_packet(e, p),
    }
}

impl<'a> FilterExpression<'a> for FilterType {
    type Context = FilterContext<'a>;

    open spec fn spec_matches(f: FilterView, ctx: &FilterContext<'a>) -> bool {
        holds(f, *ctx.packet)
    }

    fn matches(&self, ctx: &FilterContext<'a>) -> (r: bool) {
        holds_for_packet(self, ctx.packet)
    }
}

impl FilterParser for FilterType {
    open spec fn spec_parse_filter_value(prefix: Seq<char>, value: Seq<char>) -> Result<
        FilterView,
        ParseErrorView,
    > {
        filter_from(prefix, value)
    }

    fn parse_filter_value(prefix: &str, value: &str) -> (r: Result<Self, ParseError>) {
        if trim(value).is_empty() {
            return Err(empty_value_error(prefix));
        }
        let key = trim(prefix);
        if str_eq(key, "source") {
            if contains_char(value, '.') {
                Ok(FilterType::Source(to_lowercase(value)))
            } else {
                Err(syntax_error(INVALID_SOURCE))
            }
        } else if str_eq(key, "dest") {
            if contains_char(value, '.') {
                Ok(FilterType::Destination(to_lowercase(value)))
            } else {
                Err(syntax_error(INVALID_DEST))
            }
        } else if str_eq(key, "proto") || str_eq(key, "protocol") {
            if !value.is_empty() {
                Ok(FilterType::Protocol(to_lowercase(value)))
            } else {
                Err(syntax_error(INVALID_PROTOCOL))
            }
        } else if str_eq(key, "length") {
            match ComparisonFilter::<usize>::parse(value) {
                Some(c) => Ok(FilterType::Length(c)),
                None => Err(syntax_error(INVALID_LENGTH)),
            }
        } else if str_eq(key, "type") {
            match SessionProtocol::from_name(value) {
                Some(p) => Ok(FilterType::Type(p)),
                None => Err(syntax_error(INVALID_TYPE)),
            }
        } else {
            Err(syntax_error(UNKNOWN_FILTER))
        }
    }
}

/// Whether the table shows `ctx` under the filter text typed by the user:
/// an empty text shows every row; otherwise the trimmed text is parsed and
/// a text that does not parse shows every row.
pub fn packet_matches_filter(filter_text: &str, ctx: &FilterContext) -> (r: bool)
    ensures
        r == (filter_text@.len() == 0 || shows_row::<FilterType>(str_trim(filter_text@), ctx)),
{
    if filter_text.is_empty() {
        return true;
    }
    parsed_filter_matches::<FilterType>(trim(filter_text), ctx)
}

} // verus!

verus! {

impl<'a> FilterLogic<'a> for FilterType {
    proof fn lemma_not_matches(f: <Self as View>::V, ctx: &Self::Context) {
    }

    proof fn lemma_and_matches(
        left: <Self as View>::V,
        right: <Self as View>::V,
        ctx: &Self::Context,
    ) {
    }

    proof fn lemma_or_matches(
        left: <Self as View>::V,
        right: <Self as View>::V,
        ctx: &Self::Context,
    ) {
    }
}

/// What each single filter keeps: `source:v` and `dest:v` a packet whose
/// lower-cased source or destination address contains `v`; a protocol
/// filter one whose lower-cased transport or session protocol name
/// contains `v`; `length:c` one whose length satisfies `c`; `type:`
/// one of that session protocol.
pub proof fn lemma_single_filters<'a>(
    ctx: FilterContext<'a>,
    v: Seq<char>,
    c: ComparisonView<usize>,
    s: SessionProtocol,
)
    ensures
        <FilterType as FilterExpression<'a>>::spec_matches(FilterView::Source(v), &ctx) == crate::text::has_substring(crate::text::lowercased(ctx.packet.source_addr@), v),
        <FilterType as FilterExpression<'a>>::spec_matches(FilterView::Destination(v), &ctx) == crate::text::has_substring(crate::text::lowercased(ctx.packet.destination_addr@), v),
        <FilterType as FilterExpression<'a>>::spec_matches(FilterView::Protocol(v), &ctx) == (crate::text::has_substring(
            crate::text::lowercased(ctx.packet.transport_protocol@),
            v,
        ) || crate::text::has_substring(crate::text::lowercased(ctx.packet.session_protocol_name@), v)),
        <FilterType as FilterExpression<'a>>::spec_matches(FilterView::Length(c), &ctx) == compares_usize(ctx.packet.length as usize, c),
        <FilterType as FilterExpression<'a>>::spec_matches(FilterView::Type(s), &ctx) == (ctx.packet.session_protocol == s),
{
}

/// What each `key:value` filter stands for: the filter it denotes when its
/// value is acceptable, and an error otherwise.
pub proof fn lemma_filter_keys(v: Seq<char>)
    ensures
        (crate::text::str_trim(v).len() > 0) && (v.contains('.')) ==> <FilterType as FilterParser>::spec_parse_filter_value(
            "source"@,
            v,
        ) == Ok::<FilterView, ParseErrorView>(FilterView::Source(crate::text::lowercased(v))),
        !((crate::text::str_trim(v).len() > 0) && (v.contains('.'))) ==> <FilterType as FilterParser>::spec_parse_filter_value("source"@, v) is Err,
        (crate::text::str_trim(v).len() > 0) && (v.contains('.')) ==> <FilterType as FilterParser>::spec_parse_filter_value(
            "dest"@,
            v,
        ) == Ok::<FilterView, ParseErrorView>(FilterView::Destination(crate::text::lowercased(v))),
        !((crate::text::str_trim(v).len() > 0) && (v.contains('.'))) ==> <FilterType as FilterParser>::spec_parse_filter_value("dest"@, v) is Err,
        (crate::text::str_trim(v).len() > 0) && (v.len() > 0) ==> <FilterType as FilterParser>::spec_parse_filter_value(
            "protocol"@,
            v,
        ) == Ok::<FilterView, ParseErrorView>(FilterView::Protocol(crate::text::lowercased(v))),
        !((crate::text::str_trim(v).len() > 0) && (v.len() > 0)) ==> <FilterType as FilterParser>::spec_parse_filter_value("protocol"@, v) is Err,
        (crate::text::str_trim(v).len() > 0) && (spec_comparison::<usize>(v) is Some) ==> <FilterType as FilterParser>::spec_parse_filter_value(
            "length"@,
            v,
        ) == Ok::<FilterView, ParseErrorView>(FilterView::Length(spec_comparison::<usize>(v)->0)),
        !((crate::text::str_trim(v).len() > 0) && (spec_comparison::<usize>(v) is Some)) ==> <FilterType as FilterParser>::spec_parse_filter_value("length"@, v) is Err,
        (crate::text::str_trim(v).len() > 0) && (session_protocol_named(v) is Some) ==> <FilterType as FilterParser>::spec_parse_filter_value(
            "type"@,
            v,
        ) == Ok::<FilterView, ParseErrorView>(FilterView::Type(session_protocol_named(v)->0)),
        !((crate::text::str_trim(v).len() > 0) && (session_protocol_named(v) is Some)) ==> <FilterType as FilterParser>::spec_parse_filter_value("type"@, v) is Err,
        (crate::text::str_trim(v).len() > 0) && (v.len() > 0) ==> <FilterType as FilterParser>::spec_parse_filter_value(
            "proto"@,
            v,
        ) == Ok::<FilterView, ParseErrorView>(FilterView::Protocol(crate::text::lowercased(v))),
        !((crate::text::str_trim(v).len() > 0) && (v.len() > 0)) ==> <FilterType as FilterParser>::spec_parse_filter_value("proto"@, v) is Err,
{
    reveal_strlit("source");
    reveal_strlit("dest");
    reveal_strlit("protocol");
    reveal_strlit("length");
    reveal_strlit("type");
    reveal_strlit("proto");
    crate::text::lemma_trim_unchanged("source"@);
    crate::text::lemma_trim_unchanged("dest"@);
    crate::text::lemma_trim_unchanged("protocol"@);
    crate::text::lemma_trim_unchanged("length"@);
    crate::text::lemma_trim_unchanged("type"@);
    crate::text::lemma_trim_unchanged("proto"@);
}

} // verus!
