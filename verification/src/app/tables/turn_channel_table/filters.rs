//! Filters for the TURN channel data table.
//!
//! - `source:value`, `dest:value`: the lower-cased address contains the
//!   value, which must contain a `.`; an empty value matches every row
//! - `channel_id:N`, `channel_id:>N`, `channel_id:>=N`, `channel_id:<N`,
//!   `channel_id:<=N`: a comparison on the channel number
//! - `timestamp:...`, `data:...`: a row carries neither a timestamp nor a
//!   data length, so these filters are unsupported and match every row
use vstd::prelude::*;
use crate::filter_system::comparison::{compares_u32, spec_comparison, ComparisonFilter, ComparisonView};
use crate::filter_system::error::{
    result_view, syntax_error, syntax_error_around, ParseError, ParseErrorView,
};
use crate::filter_system::parser::{parsed_filter_matches, shows_row, spec_parse_filter};
use crate::filter_system::traits::{
    CommonFilterParser, FilterCombinator, FilterExpression, FilterLogic, FilterParser,
};
use crate::text::{
    contains_char, lower_contains_unless_empty, matches_text, str_eq, lowercased, str_trim,
    to_lowercase, trim,
};

verus! {

pub const INVALID_SOURCE: &'static str = "Invalid IP address format (e.g. source:192.168.1.1)";

pub const INVALID_DEST: &'static str = "Invalid IP address format (e.g. dest:192.168.1.1)";

pub const INVALID_TIMESTAMP: &'static str = "Invalid timestamp filter format.\nExamples:\n\
                         - timestamp:1234 (exact match)\n\
                         - timestamp:>1000 (greater than)\n\
                         - timestamp:<=2000 (less or equal)";

pub const INVALID_DATA: &'static str = "Invalid payload filter format.\nExamples:\n\
                         - data:1000 (exact match)\n\
                         - data:>500 (greater than)\n\
                         - data:<=1500 (less or equal)";

pub const INVALID_CHANNEL_ID: &'static str =
    "Invalid channel_id filter format (e.g. channel_id:<=100)";

pub const UNKNOWN_LEAD: &'static str = "Unknown filter type: '";

pub const UNKNOWN_TAIL: &'static str = "'.\nAvailable filters:\n\
                 - source: Source IP filter\n\
                 - dest: Destination IP filter\n\
                 - channel_id: Channel ID filter\n\
                 - timestamp: Packet timestamp filter\n\
                 - data: Data size filter";

/// A row of the TURN channel table as the filters see it.
pub struct TurnChannelFilterContext<'a> {
    pub channel_number: &'a u16,
    pub source_addr: &'a str,
    pub destination_addr: &'a str,
}

/// A filter over TURN channel data packets.
pub enum FilterType {
    Source(String),
    Destination(String),
    ChannelId(ComparisonFilter<u32>),
    Data(ComparisonFilter<u32>),
    Timestamp(ComparisonFilter<u32>),
    And(Box<FilterType>, Box<FilterType>),
    Or(Box<FilterType>, Box<FilterType>),
    Not(Box<FilterType>),
}

/// A [`FilterType`] with its texts as characters.
pub enum FilterView {
    Source(Seq<char>),
    Destination(Seq<char>),
    ChannelId(ComparisonView<u32>),
    Data(ComparisonView<u32>),
    Timestamp(ComparisonView<u32>),
    And(Box<FilterView>, Box<FilterView>),
    Or(Box<FilterView>, Box<FilterView>),
    Not(Box<FilterView>),
}

pub open spec fn filter_view(f: FilterType) -> FilterView
    decreases f,
{
    match f {
        FilterType::Source(s) => FilterView::Source(s@),
        FilterType::Destination(s) => FilterView::Destination(s@),
        FilterType::ChannelId(c) => FilterView::ChannelId(c@),
        FilterType::Data(c) => FilterView::Data(c@),
        FilterType::Timestamp(c) => FilterView::Timestamp(c@),
        FilterType::And(l, r) => FilterView::And(Box::new(filter_view(*l)), Box::new(filter_view(*r))),
        FilterType::Or(l, r) => FilterView::Or(Box::new(filter_view(*l)), Box::new(filter_view(*r))),
        FilterType::Not(e) => FilterView::Not(Box::new(filter_view(*e))),
    }
}

impl View for FilterType {
    type V = FilterView;

    open spec fn view(&self) -> FilterView {
        filter_view(*self)
    }
}

/// The filter that `prefix:value` denotes.
pub open spec fn filter_from(prefix: Seq<char>, value: Seq<char>) -> Result<FilterView, ParseErrorView> {
    let key = str_trim(prefix);
    if key == "source"@ {
        if value.contains('.') {
            Ok(FilterView::Source(lowercased(value)))
        } else {
            Err(ParseErrorView::InvalidSyntax(INVALID_SOURCE@))
        }
    } else if key == "dest"@ {
        if value.contains('.') {
            Ok(FilterView::Destination(lowercased(value)))
        } else {
            Err(ParseErrorView::InvalidSyntax(INVALID_DEST@))
        }
    } else if key == "channel_id"@ {
        match spec_comparison::<u32>(value) {
            Some(c) => Ok(FilterView::ChannelId(c)),
            None => Err(ParseErrorView::InvalidSyntax(INVALID_CHANNEL_ID@)),
        }
    } else if key == "timestamp"@ {
        match spec_comparison::<u32>(value) {
            Some(c) => Ok(FilterView::Timestamp(c)),
            None => Err(ParseErrorView::InvalidSyntax(INVALID_TIMESTAMP@)),
        }
    } else if key == "data"@ {
        match spec_comparison::<u32>(value) {
            Some(c) => Ok(FilterView::Data(c)),
            None => Err(ParseErrorView::InvalidSyntax(INVALID_DATA@)),
        }
    } else {
        Err(ParseErrorView::InvalidSyntax(UNKNOWN_LEAD@ + key + UNKNOWN_TAIL@))
    }
}

/// Whether a filter holds of a row.
pub open spec fn holds(f: FilterView, ctx: TurnChannelFilterContext) -> bool
    decreases f,
{
    match f {
        FilterView::Source(v) => matches_text(ctx.source_addr@, v),
        FilterView::Destination(v) => matches_text(ctx.destination_addr@, v),
        FilterView::ChannelId(c) => compares_u32(*ctx.channel_number as u32, c),
        FilterView::Data(_) => true,
        FilterView::Timestamp(_) => true,
        FilterView::And(l, r) => holds(*l, ctx) && holds(*r, ctx),
        FilterView::Or(l, r) => holds(*l, ctx) || holds(*r, ctx),
        FilterView::Not(e) => !holds(*e, ctx),
    }
}

impl CommonFilterParser for FilterType {
    open spec fn spec_not(expr: FilterView) -> FilterView {
        FilterView::Not(Box::new(expr))
    }

    fn not(expr: Self) -> (r: Self) {
        FilterType::Not(Box::new(expr))
    }
}

impl<'a> FilterCombinator<'a> for FilterType {
    open spec fn spec_and(left: FilterView, right: FilterView) -> FilterView {
        FilterView::And(Box::new(left), Box::new(right))
    }

    open spec fn spec_or(left: FilterView, right: FilterView) -> FilterView {
        FilterView::Or(Box::new(left), Box::new(right))
    }

    fn and(left: Self, right: Self) -> (r: Self) {
        FilterType::And(Box::new(left), Box::new(right))
    }

    fn or(left: Self, right: Self) -> (r: Self) {
        FilterType::Or(Box::new(left), Box::new(right))
    }
}

/// Parses a filter for the TURN channel table.
pub fn parse_filter(filter: &str) -> (r: Result<FilterType, ParseError>)
    ensures
        result_view(r) == spec_parse_filter::<FilterType>(filter@),
{
    crate::filter_system::parse_filter(filter)
}

fn holds_for(f: &FilterType, ctx: &TurnChannelFilterContext) -> (r: bool)
    ensures
        r == holds(f@, *ctx),
    decreases f,
{
    match f {
        FilterType::Source(v) => lower_contains_unless_empty(ctx.source_addr, v.as_str()),
        FilterType::Destination(v) => lower_contains_unless_empty(ctx.destination_addr, v.as_str()),
        FilterType::ChannelId(c) => c.holds_for(*ctx.channel_number as u32),
        FilterType::Data(_) => true,
        FilterType::Timestamp(_) => true,
        FilterType::And(l, r) => holds_for(l, ctx) && holds_for(r, ctx),
        FilterType::Or(l, r) => holds_for(l, ctx) || holds_for(r, ctx),
        FilterType::Not(e) => !holds_for(e, ctx),
    }
}

impl<'a> FilterExpression<'a> for FilterType {
    type Context = TurnChannelFilterContext<'a>;

    open spec fn spec_matches(f: FilterView, ctx: &TurnChannelFilterContext<'a>) -> bool {
        holds(f, *ctx)
    }

    fn matches(&self, ctx: &TurnChannelFilterContext<'a>) -> (r: bool) {
        holds_for(self, ctx)
    }
}

impl FilterParser for FilterType {
    open spec fn spec_parse_filter_value(prefix: Seq<char>, value: Seq<char>) -> Result<
        FilterView,
        ParseErrorView,
    > {
        filter_from(prefix, value)
    }

    fn parse_filter_value(prefix: &str, value: &str) -> (r: Result<Self, ParseError>) {
        let key = trim(prefix);
        if str_eq(key, "source") {
            if contains_char(value, '.') {
                Ok(FilterType::Source(to_lowercase(value)))
            } else {
                Err(syntax_error(INVALID_SOURCE))
            }
        } else if str_eq(key, "dest") {
            if contains_char(value, '.') {
                Ok(FilterType::Destination(to_lowercase(value)))
            } else {
                Err(syntax_error(INVALID_DEST))
            }
        } else if str_eq(key, "channel_id") {
            match ComparisonFilter::<u32>::parse(value) {
                Some(c) => Ok(FilterType::ChannelId(c)),
                None => Err(syntax_error(INVALID_CHANNEL_ID)),
            }
        } else if str_eq(key, "timestamp") {
            match ComparisonFilter::<u32>::parse(value) {
                Some(c) => Ok(FilterType::Timestamp(c)),
                None => Err(syntax_error(INVALID_TIMESTAMP)),
            }
        } else if str_eq(key, "data") {
            match ComparisonFilter::<u32>::parse(value) {
                Some(c) => Ok(FilterType::Data(c)),
                None => Err(syntax_error(INVALID_DATA)),
            }
        } else {
            Err(syntax_error_around(UNKNOWN_LEAD, key, UNKNOWN_TAIL))
        }
    }
}

/// Whether the table shows a row under the filter text typed by the user:
/// an empty text shows every row; otherwise the trimmed text is parsed and
/// a text that does not parse shows every row.
pub fn packet_matches_filter(filter_text: &str, ctx: &TurnChannelFilterContext) -> (r: bool)
    ensures
        r == (filter_text@.len() == 0 || shows_row::<FilterType>(str_trim(filter_text@), ctx)),
{
    if filter_text.is_empty() {
        return true;
    }
    parsed_filter_matches::<FilterType>(trim(filter_text), ctx)
}

} // verus!

verus! {

impl<'a> FilterLogic<'a> for FilterType {
    proof fn lemma_not_matches(f: <Self as View>::V, ctx: &Self::Context) {
    }

    proof fn lemma_and_matches(
        left: <Self as View>::V,
        right: <Self as View>::V,
        ctx: &Self::Context,
    ) {
    }

    proof fn lemma_or_matches(
        left: <Self as View>::V,
        right: <Self as View>::V,
        ctx: &Self::Context,
    ) {
    }
}

/// What each single filter keeps: `source:v` and `dest:v` a row whose
/// lower-cased source or destination address contains `v` (an empty value
/// keeps every row); `channel_id:c` a row whose channel number satisfies
/// `c`; `data:` and `timestamp:` every row.
pub proof fn lemma_single_filters<'a>(ctx: TurnChannelFilterContext<'a>, v: Seq<char>, c: ComparisonView<u32>)
    ensures
        <FilterType as FilterExpression<'a>>::spec_matches(FilterView::Source(v), &ctx) == (v.len() == 0 || crate::text::has_substring(crate::text::lowercased(ctx.source_addr@), v)),
        <FilterType as FilterExpression<'a>>::spec_matches(FilterView::Destination(v), &ctx) == (v.len() == 0 || crate::text::has_substring(crate::text::lowercased(ctx.destination_addr@), v)),
        <FilterType as FilterExpression<'a>>::spec_matches(FilterView::ChannelId(c), &ctx) == compares_u32(*ctx.channel_number as u32, c),
        <FilterType as FilterExpression<'a>>::spec_matches(FilterView::Data(c), &ctx),
        <FilterType as FilterExpression<'a>>::spec_matches(FilterView::Timestamp(c), &ctx),
{
}

/// What each `key:value` filter stands for: the filter it denotes when its
/// value is acceptable, and an error otherwise.
pub proof fn lemma_filter_keys(v: Seq<char>)
    ensures
        v.contains('.') ==> <FilterType as FilterParser>::spec_parse_filter_value(
            "source"@,
            v,
        ) == Ok::<FilterView, ParseErrorView>(FilterView::Source(crate::text::lowercased(v))),
        !(v.contains('.')) ==> <FilterType as FilterParser>::spec_parse_filter_value("source"@, v) is Err,
        v.contains('.') ==> <FilterType as FilterParser>::spec_parse_filter_value(
            "dest"@,
            v,
        ) == Ok::<FilterView, ParseErrorView>(FilterView::Destination(crate::text::lowercased(v))),
        !(v.contains('.')) ==> <FilterType as FilterParser>::spec_parse_filter_value("dest"@, v) is Err,
        spec_comparison::<u32>(v) is Some ==> <FilterType as FilterParser>::spec_parse_filter_value(
            "channel_id"@,
            v,
        ) == Ok::<FilterView, ParseErrorView>(FilterView::ChannelId(spec_comparison::<u32>(v)->0)),
        !(spec_comparison::<u32>(v) is Some) ==> <FilterType as FilterParser>::spec_parse_filter_value("channel_id"@, v) is Err,
        spec_comparison::<u32>(v) is Some ==> <FilterType as FilterParser>::spec_parse_filter_value(
            "timestamp"@,
            v,
        ) == Ok::<FilterView, ParseErrorView>(FilterView::Timestamp(spec_comparison::<u32>(v)->0)),
        !(spec_comparison::<u32>(v) is Some) ==> <FilterType as FilterParser>::spec_parse_filter_value("timestamp"@, v) is Err,
        spec_comparison::<u32>(v) is Some ==> <FilterType as FilterParser>::spec_parse_filter_value(
            "data"@,
            v,
        ) == Ok::<FilterView, ParseErrorView>(FilterView::Data(spec_comparison::<u32>(v)->0)),
        !(spec_comparison::<u32>(v) is Some) ==> <FilterType as FilterParser>::spec_parse_filter_value("data"@, v) is Err,
{
    reveal_strlit("source");
    reveal_strlit("dest");
    reveal_strlit("channel_id");
    reveal_strlit("timestamp");
    reveal_strlit("data");
    crate::text::lemma_trim_unchanged("source"@);
    crate::text::lemma_trim_unchanged("dest"@);
    crate::text::lemma_trim_unchanged("channel_id"@);
    crate::text::lemma_trim_unchanged("timestamp"@);
    crate::text::lemma_trim_unchanged("data"@);
}

} // verus!
