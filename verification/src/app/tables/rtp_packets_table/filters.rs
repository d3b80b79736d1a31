//! Filters for the RTP packets table.
//!
//! - `source:value`, `dest:value`, `alias:value`: the lower-cased text
//!   contains the (lower-cased) value; an address value must contain a
//!   `.`, an alias value must not be empty
//! - `padding:+`, `padding:-`, `extension:+|-`, `marker:+|-`: the header
//!   flag is set (`+`) or clear (`-`)
//! - `ssrc:N`: the stream's SSRC is `N` (in decimal)
//! - `seq:N`: the sequence number is `N`
//! - `timestamp:...`, `payload:...`: comparisons on the RTP timestamp and
//!   the payload length
use vstd::prelude::*;
use crate::filter_system::comparison::{
    compares_u32, compares_usize, spec_comparison, ComparisonFilter, ComparisonValue,
    ComparisonView,
};
use crate::filter_system::error::{
    result_view, syntax_error, syntax_error_around, ParseError, ParseErrorView,
};
use crate::filter_system::parser::spec_parse_filter;
use crate::filter_system::traits::{
    CommonFilterParser, FilterCombinator, FilterExpression, FilterLogic, FilterParser,
};
use crate::packet::{flag_filter_holds, flag_matches, RtpPacketFields};
use crate::text::{
    contains_char, lower_contains_unless_empty, matches_text, parse_u16, spec_parse_u16, str_eq, lowercased,
    str_trim, string_from_literal, to_lowercase, trim,
};

verus! {

pub const INVALID_SSRC: &'static str = "Invalid SSRC value (e.g. ssrc:1234)";

pub const INVALID_SOURCE: &'static str = "Invalid IP address format (e.g. source:192.168.1.1)";

pub const INVALID_DEST: &'static str = "Invalid IP address format (e.g. dest:192.168.1.1)";

pub const INVALID_ALIAS: &'static str = "Alias filter cannot be empty (e.g. alias:stream_a)";

pub const INVALID_TIMESTAMP: &'static str = "Invalid timestamp filter format.\nExamples:\n\
                         - timestamp:1234 (exact match)\n\
                         - timestamp:>1000 (greater than)\n\
                         - timestamp:<=2000 (less or equal)";

pub const INVALID_PAYLOAD: &'static str = "Invalid payload filter format.\nExamples:\n\
                         - payload:1000 (exact match)\n\
                         - payload:>500 (greater than)\n\
                         - payload:<=1500 (less or equal)";

pub const UNKNOWN_LEAD: &'static str = "Unknown filter type: '";

pub const UNKNOWN_TAIL: &'static str = "'.\nAvailable filters:\n\
                 - source: Source IP filter\n\
                 - dest: Destination IP filter\n\
                 - alias: Stream alias filter\n\
                 - ssrc: SSRC value filter\n\
                 - seq: Sequence number filter\n\
                 - timestamp: RTP timestamp filter\n\
                 - payload: Payload size filter";

/// The row a filter is checked against.
pub struct RtpFilterContext<'a> {
    pub packet: &'a RtpPacketFields,
    pub source_addr: &'a str,
    pub destination_addr: &'a str,
    pub alias: &'a str,
}

/// A filter over RTP packets.
pub enum FilterType {
    Source(String),
    Destination(String),
    Alias(String),
    Padding(String),
    Extension(String),
    Marker(String),
    Ssrc(u32),
    SequenceNumber(u16),
    Timestamp(ComparisonFilter<u32>),
    Payload(ComparisonFilter<usize>),
    And(Box<FilterType>, Box<FilterType>),
    Or(Box<FilterType>, Box<FilterType>),
    Not(Box<FilterType>),
}

/// A [`FilterType`] with its texts as characters.
pub enum FilterView {
    Source(Seq<char>),
    Destination(Seq<char>),
    Alias(Seq<char>),
    Padding(Seq<char>),
    Extension(Seq<char>),
    Marker(Seq<char>),
    Ssrc(u32),
    SequenceNumber(u16),
    Timestamp(ComparisonView<u32>),
    Payload(ComparisonView<usize>),
    And(Box<FilterView>, Box<FilterView>),
    Or(Box<FilterView>, Box<FilterView>),
    Not(Box<FilterView>),
}

pub open spec fn filter_view(f: FilterType) -> FilterView
    decreases f,
{
    match f {
        FilterType::Source(s) => FilterView::Source(s@),
        FilterType::Destination(s) => FilterView::Destination(s@),
        FilterType::Alias(s) => FilterView::Alias(s@),
        FilterType::Padding(s) => FilterView::Padding(s@),
        FilterType::Extension(s) => FilterView::Extension(s@),
        FilterType::Marker(s) => FilterView::Marker(s@),
        FilterType::Ssrc(n) => FilterView::Ssrc(n),
        FilterType::SequenceNumber(n) => FilterView::SequenceNumber(n),
        FilterType::Timestamp(c) => FilterView::Timestamp(c@),
        FilterType::Payload(c) => FilterView::Payload(c@),
        FilterType::And(l, r) => FilterView::And(Box::new(filter_view(*l)), Box::new(filter_view(*r))),
        FilterType::Or(l, r) => FilterView::Or(Box::new(filter_view(*l)), Box::new(filter_view(*r))),
        FilterType::Not(e) => FilterView::Not(Box::new(filter_view(*e))),
    }
}

impl View for FilterType {
    type V = FilterView;

    open spec fn view(&self) -> FilterView {
        filter_view(*self)
    }
}

/// The filter that `prefix:value` denotes.
pub open spec fn filter_from(prefix: Seq<char>, value: Seq<char>) -> Result<FilterView, ParseErrorView> {
    let key = str_trim(prefix);
    let lower = lowercased(value);
    if key == "source"@ {
        if value.contains('.') {
            Ok(FilterView::Source(lower))
        } else {
            Err(ParseErrorView::InvalidSyntax(INVALID_SOURCE@))
        }
    } else if key == "dest"@ {
        if value.contains('.') {
            Ok(FilterView::Destination(lower))
        } else {
            Err(ParseErrorView::InvalidSyntax(INVALID_DEST@))
        }
    } else if key == "alias"@ {
        if value.len() > 0 {
            Ok(FilterView::Alias(lower))
        } else {
            Err(ParseErrorView::InvalidSyntax(INVALID_ALIAS@))
        }
    } else if key == "padding"@ {
        if value == "+"@ || value == "-"@ {
            Ok(FilterView::Padding(value))
        } else {
            Err(ParseErrorView::InvalidSyntax("Invalid padding filter value (e.g. padding:+)"@))
        }
    } else if key == "extension"@ {
        if value == "+"@ || value == "-"@ {
            Ok(FilterView::Extension(value))
        } else {
            Err(ParseErrorView::InvalidSyntax("Invalid extension filter value (e.g. extension:+)"@))
        }
    } else if key == "marker"@ {
        if value == "+"@ || value == "-"@ {
            Ok(FilterView::Marker(value))
        } else {
            Err(ParseErrorView::InvalidSyntax("Invalid marker filter value (e.g. marker:+)"@))
        }
    } else if key == "ssrc"@ {
        match u32::spec_from_text(value) {
            Some(n) => Ok(FilterView::Ssrc(n)),
            None => Err(ParseErrorView::InvalidSyntax(INVALID_SSRC@)),
        }
    } else if key == "seq"@ {
        match spec_parse_u16(value) {
            Some(n) => Ok(FilterView::SequenceNumber(n)),
            None => Err(ParseErrorView::InvalidSyntax("Invalid sequence number"@)),
        }
    } else if key == "timestamp"@ {
        match spec_comparison::<u32>(value) {
            Some(c) => Ok(FilterView::Timestamp(c)),
            None => Err(ParseErrorView::InvalidSyntax(INVALID_TIMESTAMP@)),
        }
    } else if key == "payload"@ {
        match spec_comparison::<usize>(value) {
            Some(c) => Ok(FilterView::Payload(c)),
            None => Err(ParseErrorView::InvalidSyntax(INVALID_PAYLOAD@)),
        }
    } else {
        Err(ParseErrorView::InvalidSyntax(UNKNOWN_LEAD@ + key + UNKNOWN_TAIL@))
    }
}

/// Whether a filter holds of a packet.
pub open spec fn holds(f: FilterView, ctx: RtpFilterContext) -> bool
    decreases f,
{
    match f {
        FilterView::Source(v) => matches_text(ctx.source_addr@, v),
        FilterView::Destination(v) => matches_text(ctx.destination_addr@, v),
        FilterView::Alias(v) => matches_text(ctx.alias@, v),
        FilterView::Padding(v) => flag_matches(ctx.packet.padding, v),
        FilterView::Extension(v) => flag_matches(ctx.packet.extension, v),
        FilterView::Marker(v) => flag_matches(ctx.packet.marker, v),
        FilterView::Ssrc(n) => ctx.packet.ssrc == n,
        FilterView::SequenceNumber(n) => ctx.packet.sequence_number == n,
        FilterView::Timestamp(c) => compares_u32(ctx.packet.timestamp, c),
        FilterView::Payload(c) => compares_usize(ctx.packet.payload_length, c),
        FilterView::And(l, r) => holds(*l, ctx) && holds(*r, ctx),
        FilterView::Or(l, r) => holds(*l, ctx) || holds(*r, ctx),
        FilterView::Not(e) => !holds(*e, ctx),
    }
}

impl CommonFilterParser for FilterType {
    open spec fn spec_not(expr: FilterView) -> FilterView {
        FilterView::Not(Box::new(expr))
    }

    fn not(expr: Self) -> (r: Self) {
        FilterType::Not(Box::new(expr))
    }
}

impl<'a> FilterCombinator<'a> for FilterType {
    open spec fn spec_and(left: FilterView, right: FilterView) -> FilterView {
        FilterView::And(Box::new(left), Box::new(right))
    }

    open spec fn spec_or(left: FilterView, right: FilterView) -> FilterView {
        FilterView::Or(Box::new(left), Box::new(right))
    }

    fn and(left: Self, right: Self) -> (r: Self) {
        FilterType::And(Box::new(left), Box::new(right))
    }

    fn or(left: Self, right: Self) -> (r: Self) {
        FilterType::Or(Box::new(left), Box::new(right))
    }
}

/// Parses a filter for the RTP packets table.
pub fn parse_filter(filter: &str) -> (r: Result<FilterType, ParseError>)
    ensures
        result_view(r) == spec_parse_filter::<FilterType>(filter@),
{
    crate::filter_system::parse_filter(filter)
}

fn holds_for(f: &FilterType, ctx: &RtpFilterContext) -> (r: bool)
    ensures
        r == holds(f@, *ctx),
    decreases f,
{
    match f {
        FilterType::Source(v) => lower_contains_unless_empty(ctx.source_addr, v.as_str()),
        FilterType::Destination(v) => lower_contains_unless_empty(ctx.destination_addr, v.as_str()),
        FilterType::Alias(v) => lower_contains_unless_empty(ctx.alias, v.as_str()),
        FilterType::Padding(v) => flag_filter_holds(ctx.packet.padding, v.as_str()),
        FilterType::Extension(v) => flag_filter_holds(ctx.packet.extension, v.as_str()),
        FilterType::Marker(v) => flag_filter_holds(ctx.packet.marker, v.as_str()),
        FilterType::Ssrc(n) => ctx.packet.ssrc == *n,
        FilterType::SequenceNumber(n) => ctx.packet.sequence_number == *n,
        FilterType::Timestamp(c) => c.holds_for(ctx.packet.timestamp),
        FilterType::Payload(c) => c.holds_for(ctx.packet.payload_length),
        FilterType::And(l, r) => holds_for(l, ctx) && holds_for(r, ctx),
        FilterType::Or(l, r) => holds_for(l, ctx) || holds_for(r, ctx),
        FilterType::Not(e) => !holds_for(e, ctx),
    }
}

impl<'a> FilterExpression<'a> for FilterType {
    type Context = RtpFilterContext<'a>;

    open spec fn spec_matches(f: FilterView, ctx: &RtpFilterContext<'a>) -> bool {
        holds(f, *ctx)
    }

    fn matches(&self, ctx: &RtpFilterContext<'a>) -> (r: bool) {
        holds_for(self, ctx)
    }
}

impl FilterParser for FilterType {
    open spec fn spec_parse_filter_value(prefix: Seq<char>, value: Seq<char>) -> Result<
        FilterView,
        ParseErrorView,
    > {
        filter_from(prefix, value)
    }

    fn parse_filter_value(prefix: &str, value: &str) -> (r: Result<Self, ParseError>) {
        let key = trim(prefix);
        if str_eq(key, "source") {
            if contains_char(value, '.') {
                Ok(FilterType::Source(to_lowercase(value)))
            } else {
                Err(syntax_error(INVALID_SOURCE))
            }
        } else if str_eq(key, "dest") {
            if contains_char(value, '.') {
                Ok(FilterType::Destination(to_lowercase(value)))
            } else {
                Err(syntax_error(INVALID_DEST))
            }
        } else if str_eq(key, "alias") {
            if !value.is_empty() {
                Ok(FilterType::Alias(to_lowercase(value)))
            } else {
                Err(syntax_error(INVALID_ALIAS))
            }
        } else if str_eq(key, "padding") {
            if str_eq(value, "+") || str_eq(value, "-") {
                Ok(FilterType::Padding(string_from_literal(value)))
            } else {
                Err(syntax_error("Invalid padding filter value (e.g. padding:+)"))
            }
        } else if str_eq(key, "extension") {
            if str_eq(value, "+") || str_eq(value, "-") {
                Ok(FilterType::Extension(string_from_literal(value)))
            } else {
                Err(syntax_error("Invalid extension filter value (e.g. extension:+)"))
            }
        } else if str_eq(key, "marker") {
            if str_eq(value, "+") || str_eq(value, "-") {
                Ok(FilterType::Marker(string_from_literal(value)))
            } else {
                Err(syntax_error("Invalid marker filter value (e.g. marker:+)"))
            }
        } else if str_eq(key, "ssrc") {
            match u32::from_text(value) {
                Some(n) => Ok(FilterType::Ssrc(n)),
                None => Err(syntax_error(INVALID_SSRC)),
            }
        } else if str_eq(key, "seq") {
            match parse_u16(value) {
                Some(n) => Ok(FilterType::SequenceNumber(n)),
                None => Err(syntax_error("Invalid sequence number")),
            }
        } else if str_eq(key, "timestamp") {
            match ComparisonFilter::<u32>::parse(value) {
                Some(c) => Ok(FilterType::Timestamp(c)),
                None => Err(syntax_error(INVALID_TIMESTAMP)),
            }
        } else if str_eq(key, "payload") {
            match ComparisonFilter::<usize>::parse(value) {
                Some(c) => Ok(FilterType::Payload(c)),
                None => Err(syntax_error(INVALID_PAYLOAD)),
            }
        } else {
            Err(syntax_error_around(UNKNOWN_LEAD, key, UNKNOWN_TAIL))
        }
    }
}

} // verus!

verus! {

impl<'a> FilterLogic<'a> for FilterType {
    proof fn lemma_not_matches(f: <Self as View>::V, ctx: &Self::Context) {
    }

    proof fn lemma_and_matches(
        left: <Self as View>::V,
        right: <Self as View>::V,
        ctx: &Self::Context,
    ) {
    }

    proof fn lemma_or_matches(
        left: <Self as View>::V,
        right: <Self as View>::V,
        ctx: &Self::Context,
    ) {
    }
}

/// What each single filter keeps: `source:v`, `dest:v` and `alias:v` a
/// packet whose lower-cased source, destination or stream alias contains
/// `v` (an empty value keeps every packet); `padding:`, `extension:` and
/// `marker:` with `+` a packet whose flag is set, with `-` one whose flag
/// is clear, and with anything else every packet; `ssrc:x` a packet whose
/// SSRC is `x`; `seq:n` a packet whose sequence number is `n`;
/// `timestamp:` and `payload:` comparisons on the RTP timestamp and the
/// payload length.
pub proof fn lemma_single_filters<'a>(
    ctx: RtpFilterContext<'a>,
    v: Seq<char>,
    x: u32,
    n: u16,
    t: ComparisonView<u32>,
    c: ComparisonView<usize>,
)
    ensures
        <FilterType as FilterExpression<'a>>::spec_matches(FilterView::Source(v), &ctx) == (v.len() == 0 || crate::text::has_substring(crate::text::lowercased(ctx.source_addr@), v)),
        <FilterType as FilterExpression<'a>>::spec_matches(FilterView::Destination(v), &ctx) == (v.len() == 0 || crate::text::has_substring(crate::text::lowercased(ctx.destination_addr@), v)),
        <FilterType as FilterExpression<'a>>::spec_matches(FilterView::Alias(v), &ctx) == (v.len() == 0 || crate::text::has_substring(crate::text::lowercased(ctx.alias@), v)),
        <FilterType as FilterExpression<'a>>::spec_matches(FilterView::Padding(v), &ctx) == (if v == "+"@ {
            ctx.packet.padding
        } else if v == "-"@ {
            !ctx.packet.padding
        } else {
            true
        }),
        <FilterType as FilterExpression<'a>>::spec_matches(FilterView::Extension(v), &ctx) == (if v == "+"@ {
            ctx.packet.extension
        } else if v == "-"@ {
            !ctx.packet.extension
        } else {
            true
        }),
        <FilterType as FilterExpression<'a>>::spec_matches(FilterView::Marker(v), &ctx) == (if v == "+"@ {
            ctx.packet.marker
        } else if v == "-"@ {
            !ctx.packet.marker
        } else {
            true
        }),
        <FilterType as FilterExpression<'a>>::spec_matches(FilterView::Ssrc(x), &ctx) == (ctx.packet.ssrc == x),
        <FilterType as FilterExpression<'a>>::spec_matches(FilterView::SequenceNumber(n), &ctx) == (ctx.packet.sequence_number == n),
        <FilterType as FilterExpression<'a>>::spec_matches(FilterView::Timestamp(t), &ctx) == compares_u32(ctx.packet.timestamp, t),
        <FilterType as FilterExpression<'a>>::spec_matches(FilterView::Payload(c), &ctx) == compares_usize(ctx.packet.payload_length, c),
{
    reveal_strlit("+");
    reveal_strlit("-");
}

/// What each `key:value` filter stands for: the filter it denotes when its
/// value is acceptable, and an error otherwise.
pub proof fn lemma_filter_keys(v: Seq<char>)
    ensures
        v.contains('.') ==> <FilterType as FilterParser>::spec_parse_filter_value(
            "source"@,
            v,
        ) == Ok::<FilterView, ParseErrorView>(FilterView::Source(crate::text::lowercased(v))),
        !(v.contains('.')) ==> <FilterType as FilterParser>::spec_parse_filter_value("source"@, v) is Err,
        v.contains('.') ==> <FilterType as FilterParser>::spec_parse_filter_value(
            "dest"@,
            v,
        ) == Ok::<FilterView, ParseErrorView>(FilterView::Destination(crate::text::lowercased(v))),
        !(v.contains('.')) ==> <FilterType as FilterParser>::spec_parse_filter_value("dest"@, v) is Err,
        v.len() > 0 ==> <FilterType as FilterParser>::spec_parse_filter_value(
            "alias"@,
            v,
        ) == Ok::<FilterView, ParseErrorView>(FilterView::Alias(crate::text::lowercased(v))),
        !(v.len() > 0) ==> <FilterType as FilterParser>::spec_parse_filter_value("alias"@, v) is Err,
        <u32 as ComparisonValue>::spec_from_text(v) is Some ==> <FilterType as FilterParser>::spec_parse_filter_value(
            "ssrc"@,
            v,
        ) == Ok::<FilterView, ParseErrorView>(FilterView::Ssrc(<u32 as ComparisonValue>::spec_from_text(v)->0)),
        !(<u32 as ComparisonValue>::spec_from_text(v) is Some) ==> <FilterType as FilterParser>::spec_parse_filter_value("ssrc"@, v) is Err,
        v == "+"@ || v == "-"@ ==> <FilterType as FilterParser>::spec_parse_filter_value(
            "padding"@,
            v,
        ) == Ok::<FilterView, ParseErrorView>(FilterView::Padding(v)),
        !(v == "+"@ || v == "-"@) ==> <FilterType as FilterParser>::spec_parse_filter_value("padding"@, v) is Err,
        v == "+"@ || v == "-"@ ==> <FilterType as FilterParser>::spec_parse_filter_value(
            "extension"@,
            v,
        ) == Ok::<FilterView, ParseErrorView>(FilterView::Extension(v)),
        !(v == "+"@ || v == "-"@) ==> <FilterType as FilterParser>::spec_parse_filter_value("extension"@, v) is Err,
        v == "+"@ || v == "-"@ ==> <FilterType as FilterParser>::spec_parse_filter_value(
            "marker"@,
            v,
        ) == Ok::<FilterView, ParseErrorView>(FilterView::Marker(v)),
        !(v == "+"@ || v == "-"@) ==> <FilterType as FilterParser>::spec_parse_filter_value("marker"@, v) is Err,
        spec_parse_u16(v) is Some ==> <FilterType as FilterParser>::spec_parse_filter_value(
            "seq"@,
            v,
        ) == Ok::<FilterView, ParseErrorView>(FilterView::SequenceNumber(spec_parse_u16(v)->0)),
        !(spec_parse_u16(v) is Some) ==> <FilterType as FilterParser>::spec_parse_filter_value("seq"@, v) is Err,
        spec_comparison::<u32>(v) is Some ==> <FilterType as FilterParser>::spec_parse_filter_value(
            "timestamp"@,
            v,
        ) == Ok::<FilterView, ParseErrorView>(FilterView::Timestamp(spec_comparison::<u32>(v)->0)),
        !(spec_comparison::<u32>(v) is Some) ==> <FilterType as FilterParser>::spec_parse_filter_value("timestamp"@, v) is Err,
        spec_comparison::<usize>(v) is Some ==> <FilterType as FilterParser>::spec_parse_filter_value(
            "payload"@,
            v,
        ) == Ok::<FilterView, ParseErrorView>(FilterView::Payload(spec_comparison::<usize>(v)->0)),
        !(spec_comparison::<usize>(v) is Some) ==> <FilterType as FilterParser>::spec_parse_filter_value("payload"@, v) is Err,
{
    reveal_strlit("source");
    reveal_strlit("dest");
    reveal_strlit("alias");
    reveal_strlit("ssrc");
    reveal_strlit("padding");
    reveal_strlit("extension");
    reveal_strlit("marker");
    reveal_strlit("seq");
    reveal_strlit("timestamp");
    reveal_strlit("payload");
    crate::text::lemma_trim_unchanged("source"@);
    crate::text::lemma_trim_unchanged("dest"@);
    crate::text::lemma_trim_unchanged("alias"@);
    crate::text::lemma_trim_unchanged("ssrc"@);
    crate::text::lemma_trim_unchanged("padding"@);
    crate::text::lemma_trim_unchanged("extension"@);
    crate::text::lemma_trim_unchanged("marker"@);
    crate::text::lemma_trim_unchanged("seq"@);
    crate::text::lemma_trim_unchanged("timestamp"@);
    crate::text::lemma_trim_unchanged("payload"@);
}

} // verus!
