//! Filters over RTP packets.
//!
//! - `source:value`, `dest:value`, `alias:value`: the lower-cased text
//!   contains the (lower-cased) value; an empty value matches everything
//! - `padding:+`, `padding:-`, `extension:+|-`, `marker:+|-`: the header
//!   flag is set (`+`) or clear (`-`)
//! - `seq:N`: the sequence number is `N`
//! - `timestamp:...`, `payload:...`: comparisons on the RTP timestamp and
//!   the payload length
use vstd::prelude::*;
use crate::filter_system::comparison::{
    compares_u32, compares_usize, spec_comparison, ComparisonFilter, ComparisonView,
};
use crate::filter_system::error::{
    result_view, syntax_error, syntax_error_around, ParseError, ParseErrorView,
};
use crate::filter_system::parser::spec_parse_filter;
use crate::filter_system::traits::{
    CommonFilterParser, FilterCombinator, FilterExpression, FilterLogic, FilterParser,
};
use crate::packet::{flag_filter_holds, flag_matches, RtpPacketFields};
use crate::text::{
    lower_contains_unless_empty, matches_text, parse_u16, spec_parse_u16, str_eq, lowercased,
    str_trim, string_from_literal, to_lowercase, trim,
};

verus! {

pub const UNKNOWN_TAIL: &'static str =
    ". Use: source, dest, alias, padding, extension, marker, seq, timestamp, payload";

/// The row a filter is checked against.
pub struct FilterContext<'a> {
    pub source_addr: &'a str,
    pub destination_addr: &'a str,
    pub alias: &'a str,
    pub packet: &'a RtpPacketFields,
}

/// A filter over RTP packets.
pub enum FilterType {
    Source(String),
    Destination(String),
    Alias(String),
    Padding(String),
    Extension(String),
    Marker(String),
    SequenceNumber(u16),
    Timestamp(ComparisonFilter<u32>),
    Payload(ComparisonFilter<usize>),
    And(Box<FilterType>, Box<FilterType>),
    Or(Box<FilterType>, Box<FilterType>),
    Not(Box<FilterType>),
}

/// A [`FilterType`] with its texts as characters.
pub enum FilterView {
    Source(Seq<char>),
    Destination(Seq<char>),
    Alias(Seq<char>),
    Padding(Seq<char>),
    Extension(Seq<char>),
    Marker(Seq<char>),
    SequenceNumber(u16),
    Timestamp(ComparisonView<u32>),
    Payload(ComparisonView<usize>),
    And(Box<FilterView>, Box<FilterView>),
    Or(Box<FilterView>, Box<FilterView>),
    Not(Box<FilterView>),
}

pub open spec fn filter_view(f: FilterType) -> FilterView
    decreases f,
{
    match f {
        FilterType::Source(s) => FilterView::Source(s@),
        FilterType::Destination(s) => FilterView::Destination(s@),
        FilterType::Alias(s) => FilterView::Alias(s@),
        FilterType::Padding(s) => FilterView::Padding(s@),
        FilterType::Extension(s) => FilterView::Extension(s@),
        FilterType::Marker(s) => FilterView::Marker(s@),
        FilterType::SequenceNumber(n) => FilterView::SequenceNumber(n),
        FilterType::Timestamp(c) => FilterView::Timestamp(c@),
        FilterType::Payload(c) => FilterView::Payload(c@),
        FilterType::And(l, r) => FilterView::And(Box::new(filter_view(*l)), Box::new(filter_view(*r))),
        FilterType::Or(l, r) => FilterView::Or(Box::new(filter_view(*l)), Box::new(filter_view(*r))),
        FilterType::Not(e) => FilterView::Not(Box::new(filter_view(*e))),
    }
}

impl View for FilterType {
    type V = FilterView;

    open spec fn view(&self) -> FilterView {
        filter_view(*self)
    }
}

/// The filter that `prefix:value` denotes.
pub open spec fn filter_from(prefix: Seq<char>, value: Seq<char>) -> Result<FilterView, ParseErrorView> {
    let key = str_trim(prefix);
    let lower = lowercased(value);
    if key == "source"@ {
        Ok(FilterView::Source(lower))
    } else if key == "dest"@ {
        Ok(FilterView::Destination(lower))
    } else if key == "alias"@ {
        Ok(FilterView::Alias(lower))
    } else if key == "padding"@ {
        if value == "+"@ || value == "-"@ {
            Ok(FilterView::Padding(value))
        } else {
            Err(ParseErrorView::InvalidSyntax("Use padding:+ or padding:-"@))
        }
    } else if key == "extension"@ {
        if value == "+"@ || value == "-"@ {
            Ok(FilterView::Extension(value))
        } else {
            Err(ParseErrorView::InvalidSyntax("Use extension:+ or extension:-"@))
        }
    } else if key == "marker"@ {
        if value == "+"@ || value == "-"@ {
            Ok(FilterView::Marker(value))
        } else {
            Err(ParseErrorView::InvalidSyntax("Use marker:+ or marker:-"@))
        }
    } else if key == "seq"@ {
        match spec_parse_u16(value) {
            Some(n) => Ok(FilterView::SequenceNumber(n)),
            None => Err(ParseErrorView::InvalidSyntax("Invalid sequence number"@)),
        }
    } else if key == "timestamp"@ {
        match spec_comparison::<u32>(value) {
            Some(c) => Ok(FilterView::Timestamp(c)),
            None => Err(ParseErrorView::InvalidSyntax("Invalid timestamp filter"@)),
        }
    } else if key == "payload"@ {
        match spec_comparison::<usize>(value) {
            Some(c) => Ok(FilterView::Payload(c)),
            None => Err(ParseErrorView::InvalidSyntax("Invalid payload filter"@)),
        }
    } else {
        Err(ParseErrorView::InvalidSyntax("Unknown filter: "@ + prefix + UNKNOWN_TAIL@))
    }
}

/// Whether a filter holds of a packet.
pub open spec fn holds(f: FilterView, ctx: FilterContext) -> bool
    decreases f,
{
    match f {
        FilterView::Source(v) => matches_text(ctx.source_addr@, v),
        FilterView::Destination(v) => matches_text(ctx.destination_addr@, v),
        FilterView::Alias(v) => matches_text(ctx.alias@, v),
        FilterView::Padding(v) => flag_matches(ctx.packet.padding, v),
        FilterView::Extension(v) => flag_matches(ctx.packet.extension, v),
        FilterView::Marker(v) => flag_matches(ctx.packet.marker, v),
        FilterView::SequenceNumber(n) => ctx.packet.sequence_number == n,
        FilterView::Timestamp(c) => compares_u32(ctx.packet.timestamp, c),
        FilterView::Payload(c) => compares_usize(ctx.packet.payload_length, c),
        FilterView::And(l, r) => holds(*l, ctx) && holds(*r, ctx),
        FilterView::Or(l, r) => holds(*l, ctx) || holds(*r, ctx),
        FilterView::Not(e) => !holds(*e, ctx),
    }
}

impl CommonFilterParser for FilterType {
    open spec fn spec_not(expr: FilterView) -> FilterView {
        FilterView::Not(Box::new(expr))
    }

    fn not(expr: Self) -> (r: Self) {
        FilterType::Not(Box::new(expr))
    }
}

impl<'a> FilterCombinator<'a> for FilterType {
    open spec fn spec_and(left: FilterView, right: FilterView) -> FilterView {
        FilterView::And(Box::new(left), Box::new(right))
    }

    open spec fn spec_or(left: FilterView, right: FilterView) -> FilterView {
        FilterView::Or(Box::new(left), Box::new(right))
    }

    fn and(left: Self, right: Self) -> (r: Self) {
        FilterType::And(Box::new(left), Box::new(right))
    }

    fn or(left: Self, right: Self) -> (r: Self) {
        FilterType::Or(Box::new(left), Box::new(right))
    }
}

/// Parses an RTP packet filter.
pub fn parse_filter(filter: &str) -> (r: Result<FilterType, ParseError>)
    ensures
        result_view(r) == spec_parse_filter::<FilterType>(filter@),
{
    crate::filter_system::parse_filter(filter)
}

fn holds_for(f: &FilterType, ctx: &FilterContext) -> (r: bool)
    ensures
        r == holds(f@, *ctx),
    decreases f,
{
    match f {
        FilterType::Source(v) => lower_contains_unless_empty(ctx.source_addr, v.as_str()),
        FilterType::Destination(v) => lower_contains_unless_empty(ctx.destination_addr, v.as_str()),
        FilterType::Alias(v) => lower_contains_unless_empty(ctx.alias, v.as_str()),
        FilterType::Padding(v) => flag_filter_holds(ctx.packet.padding, v.as_str()),
        FilterType::Extension(v) => flag_filter_holds(ctx.packet.extension, v.as_str()),
        FilterType::Marker(v) => flag_filter_holds(ctx.packet.marker, v.as_str()),
        FilterType::SequenceNumber(n) => ctx.packet.sequence_number == *n,
        FilterType::Timestamp(c) => c.holds_for(ctx.packet.timestamp),
        FilterType::Payload(c) => c.holds_for(ctx.packet.payload_length),
        FilterType::And(l, r) => holds_for(l, ctx) && holds_for(r, ctx),
        FilterType::Or(l, r) => holds_for(l, ctx) || holds_for(r, ctx),
        FilterType::Not(e) => !holds_for(e, ctx),
    }
}

impl<'a> FilterExpression<'a> for FilterType {
    type Context = FilterContext<'a>;

    open spec fn spec_matches(f: FilterView, ctx: &FilterContext<'a>) -> bool {
        holds(f, *ctx)
    }

    fn matches(&self, ctx: &FilterContext<'a>) -> (r: bool) {
        holds_for(self, ctx)
    }
}

impl FilterParser for FilterType {
    open spec fn spec_parse_filter_value(prefix: Seq<char>, value: Seq<char>) -> Result<
        FilterView,
        ParseErrorView,
    > {
        filter_from(prefix, value)
    }

    fn parse_filter_value(prefix: &str, value: &str) -> (r: Result<Self, ParseError>) {
        let key = trim(prefix);
        if str_eq(key, "source") {
            Ok(FilterType::Source(to_lowercase(value)))
        } else if str_eq(key, "dest") {
            Ok(FilterType::Destination(to_lowercase(value)))
        } else if str_eq(key, "alias") {
            Ok(FilterType::Alias(to_lowercase(value)))
        } else if str_eq(key, "padding") {
            if str_eq(value, "+") || str_eq(value, "-") {
                Ok(FilterType::Padding(string_from_literal(value)))
            } else {
                Err(syntax_error("Use padding:+ or padding:-"))
            }
        } else if str_eq(key, "extension") {
            if str_eq(value, "+") || str_eq(value, "-") {
                Ok(FilterType::Extension(string_from_literal(value)))
            } else {
                Err(syntax_error("Use extension:+ or extension:-"))
            }
        } else if str_eq(key, "marker") {
            if str_eq(value, "+") || str_eq(value, "-") {
                Ok(FilterType::Marker(string_from_literal(value)))
            } else {
                Err(syntax_error("Use marker:+ or marker:-"))
            }
        } else if str_eq(key, "seq") {
            match parse_u16(value) {
                Some(n) => Ok(FilterType::SequenceNumber(n)),
                None => Err(syntax_error("Invalid sequence number")),
            }
        } else if str_eq(key, "timestamp") {
            match ComparisonFilter::<u32>::parse(value) {
                Some(c) => Ok(FilterType::Timestamp(c)),
                None => Err(syntax_error("Invalid timestamp filter")),
            }
        } else if str_eq(key, "payload") {
            match ComparisonFilter::<usize>::parse(value) {
                Some(c) => Ok(FilterType::Payload(c)),
                None => Err(syntax_error("Invalid payload filter")),
            }
        } else {
            Err(syntax_error_around("Unknown filter: ", prefix, UNKNOWN_TAIL))
        }
    }
}

} // verus!

verus! {

impl<'a> FilterLogic<'a> for FilterType {
    proof fn lemma_not_matches(f: <Self as View>::V, ctx: &Self::Context) {
    }

    proof fn lemma_and_matches(
        left: <Self as View>::V,
        right: <Self as View>::V,
        ctx: &Self::Context,
    ) {
    }

    proof fn lemma_or_matches(
        left: <Self as View>::V,
        right: <Self as View>::V,
        ctx: &Self::Context,
    ) {
    }
}

/// What each single filter keeps: `source:v`, `dest:v` and `alias:v` a
/// packet whose lower-cased source, destination or stream alias contains
/// `v` (an empty value keeps every packet); `padding:`, `extension:` and
/// `marker:` with `+` a packet whose flag is set, with `-` one whose flag
/// is clear, and with anything else every packet; `seq:n` a packet whose sequence number is `n`;
/// `timestamp:` and `payload:` comparisons on the RTP timestamp and the
/// payload length.
pub proof fn lemma_single_filters<'a>(
    ctx: FilterContext<'a>,
    v: Seq<char>,
    x: u32,
    n: u16,
    t: ComparisonView<u32>,
    c: ComparisonView<usize>,
)
    ensures
        <FilterType as FilterExpression<'a>>::spec_matches(FilterView::Source(v), &ctx) == (v.len() == 0 || crate::text::has_substring(crate::text::lowercased(ctx.source_addr@), v)),
        <FilterType as FilterExpression<'a>>::spec_matches(FilterView::Destination(v), &ctx) == (v.len() == 0 || crate::text::has_substring(crate::text::lowercased(ctx.destination_addr@), v)),
        <FilterType as FilterExpression<'a>>::spec_matches(FilterView::Alias(v), &ctx) == (v.len() == 0 || crate::text::has_substring(crate::text::lowercased(ctx.alias@), v)),
        <FilterType as FilterExpression<'a>>::spec_matches(FilterView::Padding(v), &ctx) == (if v == "+"@ {
            ctx.packet.padding
        } else if v == "-"@ {
            !ctx.packet.padding
        } else {
            true
        }),
        <FilterType as FilterExpression<'a>>::spec_matches(FilterView::Extension(v), &ctx) == (if v == "+"@ {
            ctx.packet.extension
        } else if v == "-"@ {
            !ctx.packet.extension
        } else {
            true
        }),
        <FilterType as FilterExpression<'a>>::spec_matches(FilterView::Marker(v), &ctx) == (if v == "+"@ {
            ctx.packet.marker
        } else if v == "-"@ {
            !ctx.packet.marker
        } else {
            true
        }),
        <FilterType as FilterExpression<'a>>::spec_matches(FilterView::SequenceNumber(n), &ctx) == (ctx.packet.sequence_number == n),
        <FilterType as FilterExpression<'a>>::spec_matches(FilterView::Timestamp(t), &ctx) == compares_u32(ctx.packet.timestamp, t),
        <FilterType as FilterExpression<'a>>::spec_matches(FilterView::Payload(c), &ctx) == compares_usize(ctx.packet.payload_length, c),
{
    reveal_strlit("+");
    reveal_strlit("-");
}

/// What each `key:value` filter stands for: the filter it denotes when its
/// value is acceptable, and an error otherwise.
pub proof fn lemma_filter_keys(v: Seq<char>)
    ensures
        <FilterType as FilterParser>::spec_parse_filter_value("source"@, v) == Ok::<FilterView, ParseErrorView>(FilterView::Source(crate::text::lowercased(v))),
        <FilterType as FilterParser>::spec_parse_filter_value("dest"@, v) == Ok::<FilterView, ParseErrorView>(FilterView::Destination(crate::text::lowercased(v))),
        <FilterType as FilterParser>::spec_parse_filter_value("alias"@, v) == Ok::<FilterView, ParseErrorView>(FilterView::Alias(crate::text::lowercased(v))),
        v == "+"@ || v == "-"@ ==> <FilterType as FilterParser>::spec_parse_filter_value(
            "padding"@,
            v,
        ) == Ok::<FilterView, ParseErrorView>(FilterView::Padding(v)),
        !(v == "+"@ || v == "-"@) ==> <FilterType as FilterParser>::spec_parse_filter_value("padding"@, v) is Err,
        v == "+"@ || v == "-"@ ==> <FilterType as FilterParser>::spec_parse_filter_value(
            "extension"@,
            v,
        ) == Ok::<FilterView, ParseErrorView>(FilterView::Extension(v)),
        !(v == "+"@ || v == "-"@) ==> <FilterType as FilterParser>::spec_parse_filter_value("extension"@, v) is Err,
        v == "+"@ || v == "-"@ ==> <FilterType as FilterParser>::spec_parse_filter_value(
            "marker"@,
            v,
        ) == Ok::<FilterView, ParseErrorView>(FilterView::Marker(v)),
        !(v == "+"@ || v == "-"@) ==> <FilterType as FilterParser>::spec_parse_filter_value("marker"@, v) is Err,
        spec_parse_u16(v) is Some ==> <FilterType as FilterParser>::spec_parse_filter_value(
            "seq"@,
            v,
        ) == Ok::<FilterView, ParseErrorView>(FilterView::SequenceNumber(spec_parse_u16(v)->0)),
        !(spec_parse_u16(v) is Some) ==> <FilterType as FilterParser>::spec_parse_filter_value("seq"@, v) is Err,
        spec_comparison::<u32>(v) is Some ==> <FilterType as FilterParser>::spec_parse_filter_value(
            "timestamp"@,
            v,
        ) == Ok::<FilterView, ParseErrorView>(FilterView::Timestamp(spec_comparison::<u32>(v)->0)),
        !(spec_comparison::<u32>(v) is Some) ==> <FilterType as FilterParser>::spec_parse_filter_value("timestamp"@, v) is Err,
        spec_comparison::<usize>(v) is Some ==> <FilterType as FilterParser>::spec_parse_filter_value(
            "payload"@,
            v,
        ) == Ok::<FilterView, ParseErrorView>(FilterView::Payload(spec_comparison::<usize>(v)->0)),
        !(spec_comparison::<usize>(v) is Some) ==> <FilterType as FilterParser>::spec_parse_filter_value("payload"@, v) is Err,
{
    reveal_strlit("source");
    reveal_strlit("dest");
    reveal_strlit("alias");
    reveal_strlit("padding");
    reveal_strlit("extension");
    reveal_strlit("marker");
    reveal_strlit("seq");
    reveal_strlit("timestamp");
    reveal_strlit("payload");
    crate::text::lemma_trim_unchanged("source"@);
    crate::text::lemma_trim_unchanged("dest"@);
    crate::text::lemma_trim_unchanged("alias"@);
    crate::text::lemma_trim_unchanged("padding"@);
    crate::text::lemma_trim_unchanged("extension"@);
    crate::text::lemma_trim_unchanged("marker"@);
    crate::text::lemma_trim_unchanged("seq"@);
    crate::text::lemma_trim_unchanged("timestamp"@);
    crate::text::lemma_trim_unchanged("payload"@);
}

} // verus!
