//! Filters over MPEG-TS streams.
//!
//! - `alias:value` or `name:value`: the alias contains the value, ignoring
//!   case
//! - `source:value`, `dest:value`: the lower-cased address contains the
//!   (lower-cased) value
//! - `substreams:...` or `subs:...`, `packets:...` or `pkts:...`:
//!   comparisons on the number of substreams and of packets
//!
//! A blank value is refused.
use vstd::prelude::*;
use crate::filter_system::comparison::{compares_usize, spec_comparison, ComparisonFilter, ComparisonView};
use crate::filter_system::error::{
    empty_value_error, empty_value_message, result_view, syntax_error, ParseError, ParseErrorView,
};
use crate::filter_system::parser::spec_parse_filter;
use crate::filter_system::traits::{
    CommonFilterParser, FilterCombinator, FilterExpression, FilterLogic, FilterParser,
};
use crate::packet::MpegtsStreamFields;
use crate::text::{
    has_substring, lower_contains, str_eq, lowercased, str_trim, string_from_literal,
    to_lowercase, trim,
};

verus! {

pub const INVALID_SUBSTREAMS: &'static str = "Invalid substreams filter format.\nExamples:\n\
                         - substreams:5 (exact match)\n\
                         - substreams:>3 (greater than)\n\
                         - substreams:<10 (less than)";

pub const INVALID_PACKETS: &'static str = "Invalid packets filter format.\nExamples:\n\
                         - packets:100 (exact match)\n\
                         - packets:>50 (greater than)";

pub const UNKNOWN_FILTER: &'static str = "Unknown filter type.\nAvailable filters:\n\
                - alias: Match stream alias (e.g., alias:stream1)\n\
                - source: Match source IP (e.g., source:192.168)\n\
                - dest: Match destination IP (e.g., dest:10.0.0)\n\
                - substreams: Match substream count (e.g., substreams:>5)\n\
                - packets: Match packet count (e.g., packets:>100)";

pub const FILTER_HELP: &'static str = r#"MPEG-TS Streams Filter Help:
    
• alias:<name> - Filter by stream alias
• source:<ip> - Filter by source IP address
• dest:<ip> - Filter by destination IP address  
• substreams:<num> - Filter by substream count
• substreams:>N - More than N substreams
• packets:<num> - Filter by packet count
• packets:>N - More than N packets

Operators: AND, OR, NOT, parentheses

Examples:
• alias:stream1 AND substreams:>5
• source:192.168 OR dest:10.0
• packets:>100"#;

/// The row a filter is checked against.
pub struct FilterContext<'a> {
    pub stream: &'a MpegtsStreamFields,
}

/// A filter over MPEG-TS streams.
pub enum FilterType {
    Alias(String),
    Source(String),
    Destination(String),
    Substreams(ComparisonFilter<usize>),
    Packets(ComparisonFilter<usize>),
    And(Box<FilterType>, Box<FilterType>),
    Or(Box<FilterType>, Box<FilterType>),
    Not(Box<FilterType>),
}

/// A [`FilterType`] with its texts as characters.
pub enum FilterView {
    Alias(Seq<char>),
    Source(Seq<char>),
    Destination(Seq<char>),
    Substreams(ComparisonView<usize>),
    Packets(ComparisonView<usize>),
    And(Box<FilterView>, Box<FilterView>),
    Or(Box<FilterView>, Box<FilterView>),
    Not(Box<FilterView>),
}

pub open spec fn filter_view(f: FilterType) -> FilterView
    decreases f,
{
    match f {
        FilterType::Alias(s) => FilterView::Alias(s@),
        FilterType::Source(s) => FilterView::Source(s@),
        FilterType::Destination(s) => FilterView::Destination(s@),
        FilterType::Substreams(c) => FilterView::Substreams(c@),
        FilterType::Packets(c) => FilterView::Packets(c@),
        FilterType::And(l, r) => FilterView::And(Box::new(filter_view(*l)), Box::new(filter_view(*r))),
        FilterType::Or(l, r) => FilterView::Or(Box::new(filter_view(*l)), Box::new(filter_view(*r))),
        FilterType::Not(e) => FilterView::Not(Box::new(filter_view(*e))),
    }
}

impl View for FilterType {
    type V = FilterView;

    open spec fn view(&self) -> FilterView {
        filter_view(*self)
    }
}

/// The filter that `prefix:value` denotes; an alias keeps its case.
pub open spec fn filter_from(prefix: Seq<char>, value: Seq<char>) -> Result<FilterView, ParseErrorView> {
    let key = str_trim(prefix);
    if str_trim(value).len() == 0 {
        Err(ParseErrorView::InvalidSyntax(empty_value_message(prefix)))
    } else if key == "alias"@ || key == "name"@ {
        Ok(FilterView::Alias(value))
    } else if key == "source"@ {
        Ok(FilterView::Source(lowercased(value)))
    } else if key == "dest"@ {
        Ok(FilterView::Destination(lowercased(value)))
    } else if key == "substreams"@ || key == "subs"@ {
        match spec_comparison::<usize>(value) {
            Some(c) => Ok(FilterView::Substreams(c)),
            None => Err(ParseErrorView::InvalidSyntax(INVALID_SUBSTREAMS@)),
        }
    } else if key == "packets"@ || key == "pkts"@ {
        match spec_comparison::<usize>(value) {
            Some(c) => Ok(FilterView::Packets(c)),
            None => Err(ParseErrorView::InvalidSyntax(INVALID_PACKETS@)),
        }
    } else {
        Err(ParseErrorView::InvalidSyntax(UNKNOWN_FILTER@))
    }
}

/// Whether a filter holds of a stream.
pub open spec fn holds(f: FilterView, ctx: FilterContext) -> bool
    decreases f,
{
    match f {
        FilterView::Alias(v) => has_substring(lowercased(ctx.stream.alias@), lowercased(v)),
        FilterView::Source(v) => has_substring(lowercased(ctx.stream.source_addr@), v),
        FilterView::Destination(v) => has_substring(lowercased(ctx.stream.destination_addr@), v),
        FilterView::Substreams(c) => compares_usize(ctx.stream.substream_count, c),
        FilterView::Packets(c) => compares_usize(ctx.stream.packet_count, c),
        FilterView::And(l, r) => holds(*l, ctx) && holds(*r, ctx),
        FilterView::Or(l, r) => holds(*l, ctx) || holds(*r, ctx),
        FilterView::Not(e) => !holds(*e, ctx),
    }
}

impl CommonFilterParser for FilterType {
    open spec fn spec_not(expr: FilterView) -> FilterView {
        FilterView::Not(Box::new(expr))
    }

    fn not(expr: Self) -> (r: Self) {
        FilterType::Not(Box::new(expr))
    }
}

impl<'a> FilterCombinator<'a> for FilterType {
    open spec fn spec_and(left: FilterView, right: FilterView) -> FilterView {
        FilterView::And(Box::new(left), Box::new(right))
    }

    open spec fn spec_or(left: FilterView, right: FilterView) -> FilterView {
        FilterView::Or(Box::new(left), Box::new(right))
    }

    fn and(left: Self, right: Self) -> (r: Self) {
        FilterType::And(Box::new(left), Box::new(right))
    }

    fn or(left: Self, right: Self) -> (r: Self) {
        FilterType::Or(Box::new(left), Box::new(right))
    }
}

/// Parses an MPEG-TS stream filter.
pub fn parse_filter(filter: &str) -> (r: Result<FilterType, ParseError>)
    ensures
        result_view(r) == spec_parse_filter::<FilterType>(filter@),
{
    crate::filter_system::parse_filter(filter)
}

/// The help text of this filter language.
pub fn build_filter_help() -> (help: &'static str)
    ensures
        help@ == FILTER_HELP@,
{
    FILTER_HELP
}

fn holds_for(f: &FilterType, ctx: &FilterContext) -> (r: bool)
    ensures
        r == holds(f@, *ctx),
    decreases f,
{
    match f {
        FilterType::Alias(v) => {
            let wanted = to_lowercase(v.as_str());
            lower_contains(ctx.stream.alias.as_str(), wanted.as_str())
        },
        FilterType::Source(v) => lower_contains(ctx.stream.source_addr.as_str(), v.as_str()),
        FilterType::Destination(v) => lower_contains(
            ctx.stream.destination_addr.as_str(),
            v.as_str(),
        ),
        FilterType::Substreams(c) => c.holds_for(ctx.stream.substream_count),
        FilterType::Packets(c) => c.holds_for(ctx.stream.packet_count),
        FilterType::And(l, r) => holds_for(l, ctx) && holds_for(r, ctx),
        FilterType::Or(l, r) => holds_for(l, ctx) || holds_for(r, ctx),
        FilterType::Not(e) => !holds_for(e, ctx),
    }
}

impl<'a> FilterExpression<'a> for FilterType {
    type Context = FilterContext<'a>;

    open spec fn spec_matches(f: FilterView, ctx: &FilterContext<'a>) -> bool {
        holds(f, *ctx)
    }

    fn matches(&self, ctx: &FilterContext<'a>) -> (r: bool) {
        holds_for(self, ctx)
    }
}

impl FilterParser for FilterType {
    open spec fn spec_parse_filter_value(prefix: Seq<char>, value: Seq<char>) -> Result<
        FilterView,
        ParseErrorView,
    > {
        filter_from(prefix, value)
    }

    fn parse_filter_value(prefix: &str, value: &str) -> (r: Result<Self, ParseError>) {
        if trim(value).is_empty() {
            return Err(empty_value_error(prefix));
        }
        let key = trim(prefix);
        if str_eq(key, "alias") || str_eq(key, "name") {
            Ok(FilterType::Alias(string_from_literal(value)))
        } else if str_eq(key, "source") {
            Ok(FilterType::Source(to_lowercase(value)))
        } else if str_eq(key, "dest") {
            Ok(FilterType::Destination(to_lowercase(value)))
        } else if str_eq(key, "substreams") || str_eq(key, "subs") {
            match ComparisonFilter::<usize>::parse(value) {
                Some(c) => Ok(FilterType::Substreams(c)),
                None => Err(syntax_error(INVALID_SUBSTREAMS)),
            }
        } else if str_eq(key, "packets") || str_eq(key, "pkts") {
            match ComparisonFilter::<usize>::parse(value) {
                Some(c) => Ok(FilterType::Packets(c)),
                None => Err(syntax_error(INVALID_PACKETS)),
            }
        } else {
            Err(syntax_error(UNKNOWN_FILTER))
        }
    }
}

} // verus!

verus! {

impl<'a> FilterLogic<'a> for FilterType {
    proof fn lemma_not_matches(f: <Self as View>::V, ctx: &Self::Context) {
    }

    proof fn lemma_and_matches(
        left: <Self as View>::V,
        right: <Self as View>::V,
        ctx: &Self::Context,
    ) {
    }

    proof fn lemma_or_matches(
        left: <Self as View>::V,
        right: <Self as View>::V,
        ctx: &Self::Context,
    ) {
    }
}

/// What each single filter keeps: `alias:v` a stream whose alias contains
/// `v`, both lower-cased; `source:v` and `dest:v` one whose lower-cased
/// address contains `v`; `substreams:c` and `packets:c` one whose number
/// of substreams or packets satisfies `c`.
pub proof fn lemma_single_filters<'a>(ctx: FilterContext<'a>, v: Seq<char>, c: ComparisonView<usize>)
    ensures
        <FilterType as FilterExpression<'a>>::spec_matches(FilterView::Alias(v), &ctx) == crate::text::has_substring(
            crate::text::lowercased(ctx.stream.alias@),
            lowercased(v),
        ),
        <FilterType as FilterExpression<'a>>::spec_matches(FilterView::Source(v), &ctx) == crate::text::has_substring(crate::text::lowercased(ctx.stream.source_addr@), v),
        <FilterType as FilterExpression<'a>>::spec_matches(FilterView::Destination(v), &ctx) == crate::text::has_substring(crate::text::lowercased(ctx.stream.destination_addr@), v),
        <FilterType as FilterExpression<'a>>::spec_matches(FilterView::Substreams(c), &ctx) == compares_usize(ctx.stream.substream_count, c),
        <FilterType as FilterExpression<'a>>::spec_matches(FilterView::Packets(c), &ctx) == compares_usize(ctx.stream.packet_count, c),
{
}

/// What each `key:value` filter stands for: the filter it denotes when its
/// value is acceptable, and an error otherwise.
pub proof fn lemma_filter_keys(v: Seq<char>)
    ensures
        crate::text::str_trim(v).len() > 0 ==> <FilterType as FilterParser>::spec_parse_filter_value(
            "alias"@,
            v,
        ) == Ok::<FilterView, ParseErrorView>(FilterView::Alias(v)),
        !(crate::text::str_trim(v).len() > 0) ==> <FilterType as FilterParser>::spec_parse_filter_value("alias"@, v) is Err,
        crate::text::str_trim(v).len() > 0 ==> <FilterType as FilterParser>::spec_parse_filter_value(
            "name"@,
            v,
        ) == Ok::<FilterView, ParseErrorView>(FilterView::Alias(v)),
        !(crate::text::str_trim(v).len() > 0) ==> <FilterType as FilterParser>::spec_parse_filter_value("name"@, v) is Err,
        crate::text::str_trim(v).len() > 0 ==> <FilterType as FilterParser>::spec_parse_filter_value(
            "source"@,
            v,
        ) == Ok::<FilterView, ParseErrorView>(FilterView::Source(crate::text::lowercased(v))),
        !(crate::text::str_trim(v).len() > 0) ==> <FilterType as FilterParser>::spec_parse_filter_value("source"@, v) is Err,
        crate::text::str_trim(v).len() > 0 ==> <FilterType as FilterParser>::spec_parse_filter_value(
            "dest"@,
            v,
        ) == Ok::<FilterView, ParseErrorView>(FilterView::Destination(crate::text::lowercased(v))),
        !(crate::text::str_trim(v).len() > 0) ==> <FilterType as FilterParser>::spec_parse_filter_value("dest"@, v) is Err,
        (crate::text::str_trim(v).len() > 0) && (spec_comparison::<usize>(v) is Some) ==> <FilterType as FilterParser>::spec_parse_filter_value(
            "substreams"@,
            v,
        ) == Ok::<FilterView, ParseErrorView>(FilterView::Substreams(spec_comparison::<usize>(v)->0)),
        !((crate::text::str_trim(v).len() > 0) && (spec_comparison::<usize>(v) is Some)) ==> <FilterType as FilterParser>::spec_parse_filter_value("substreams"@, v) is Err,
        (crate::text::str_trim(v).len() > 0) && (spec_comparison::<usize>(v) is Some) ==> <FilterType as FilterParser>::spec_parse_filter_value(
            "subs"@,
            v,
        ) == Ok::<FilterView, ParseErrorView>(FilterView::Substreams(spec_comparison::<usize>(v)->0)),
        !((crate::text::str_trim(v).len() > 0) && (spec_comparison::<usize>(v) is Some)) ==> <FilterType as FilterParser>::spec_parse_filter_value("subs"@, v) is Err,
        (crate::text::str_trim(v).len() > 0) && (spec_comparison::<usize>(v) is Some) ==> <FilterType as FilterParser>::spec_parse_filter_value(
            "packets"@,
            v,
        ) == Ok::<FilterView, ParseErrorView>(FilterView::Packets(spec_comparison::<usize>(v)->0)),
        !((crate::text::str_trim(v).len() > 0) && (spec_comparison::<usize>(v) is Some)) ==> <FilterType as FilterParser>::spec_parse_filter_value("packets"@, v) is Err,
        (crate::text::str_trim(v).len() > 0) && (spec_comparison::<usize>(v) is Some) ==> <FilterType as FilterParser>::spec_parse_filter_value(
            "pkts"@,
            v,
        ) == Ok::<FilterView, ParseErrorView>(FilterView::Packets(spec_comparison::<usize>(v)->0)),
        !((crate::text::str_trim(v).len() > 0) && (spec_comparison::<usize>(v) is Some)) ==> <FilterType as FilterParser>::spec_parse_filter_value("pkts"@, v) is Err,
{
    reveal_strlit("alias");
    reveal_strlit("name");
    reveal_strlit("source");
    reveal_strlit("dest");
    reveal_strlit("substreams");
    reveal_strlit("subs");
    reveal_strlit("packets");
    reveal_strlit("pkts");
    crate::text::lemma_trim_unchanged("alias"@);
    crate::text::lemma_trim_unchanged("name"@);
    crate::text::lemma_trim_unchanged("source"@);
    crate::text::lemma_trim_unchanged("dest"@);
    crate::text::lemma_trim_unchanged("substreams"@);
    crate::text::lemma_trim_unchanged("subs"@);
    crate::text::lemma_trim_unchanged("packets"@);
    crate::text::lemma_trim_unchanged("pkts"@);
}

} // verus!
