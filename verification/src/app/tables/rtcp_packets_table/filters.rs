//! Filters for the RTCP packets table.
//!
//! - `source:value`, `dest:value`: the lower-cased address contains the
//!   value, which must contain a `.`
//! - `type:value`: the lower-cased RTCP packet type name contains the value
//! - `dir:value`: the lower-cased direction contains the value
//! - `ssrc:value`: the lower-cased SSRC text contains the value
//! - `alias:value`: the stream alias equals the value, ignoring case
//!
//! Values are lower-cased when read; `type`, `dir`, `ssrc` and `alias` need
//! a non-empty value.
use vstd::prelude::*;
use crate::filter_system::error::{
    result_view, syntax_error, syntax_error_around, ParseError, ParseErrorView,
};
use crate::filter_system::parser::{parsed_filter_matches, shows_row, spec_parse_filter};
use crate::filter_system::traits::{
    CommonFilterParser, FilterCombinator, FilterExpression, FilterLogic, FilterParser,
};
use crate::text::{
    contains_char, lower_contains_unless_empty, lower_eq, matches_text, str_eq, lowercased,
    str_trim, to_lowercase, trim,
};

verus! {

pub const INVALID_SOURCE: &'static str = "Invalid IP address format (e.g. source:192.168.1.1)";

pub const INVALID_DEST: &'static str = "Invalid IP address format (e.g. dest:192.168.1.1)";

pub const INVALID_TYPE: &'static str = "Invalid RTCP packet type.\nAvailable types:\n\
                         - type:sender (Sender Report)\n\
                         - type:receiver (Receiver Report)\n\
                         - type:sdes (Source Description)\n\
                         - type:bye (Goodbye)";

pub const INVALID_DIRECTION: &'static str = "Invalid direction must be incoming or outgoing";

pub const INVALID_SSRC: &'static str = "Invalid SSRC format (e.g. ssrc:1a99de77e";

pub const INVALID_ALIAS: &'static str = "Invalid Alias format (e.g. alias:A)";

pub const UNKNOWN_LEAD: &'static str = "Unknown filter type: '";

pub const UNKNOWN_TAIL: &'static str = "'.\nAvailable filters:\n\
                 - source: Source IP filter (e.g. source:192.168)\n\
                 - dest: Destination IP filter (e.g. dest:10.0.0)\n\
                 - type: RTCP packet type filter (e.g. type:sender)\n\
                 - direction: e.g. direction:incoming direction:outgoing\n\
                 - ssrc: Identifying ID for data\n\
                 - alias: Filter SSRCs by alias";

/// A row of the RTCP packets table as the filters see it: addresses,
/// packet type name, direction, SSRC and stream alias, all as displayed.
pub struct RtcpFilterContext<'a> {
    pub source_addr: &'a str,
    pub destination_addr: &'a str,
    pub packet_type_name: &'a str,
    pub direction: &'a str,
    pub ssrc: &'a str,
    pub alias: &'a str,
}

/// A filter over RTCP packets.
pub enum FilterType {
    Source(String),
    Destination(String),
    Type(String),
    Direction(String),
    SSRC(String),
    Alias(String),
    And(Box<FilterType>, Box<FilterType>),
    Or(Box<FilterType>, Box<FilterType>),
    Not(Box<FilterType>),
}

/// A [`FilterType`] with its texts as characters.
pub enum FilterView {
    Source(Seq<char>),
    Destination(Seq<char>),
    Type(Seq<char>),
    Direction(Seq<char>),
    SSRC(Seq<char>),
    Alias(Seq<char>),
    And(Box<FilterView>, Box<FilterView>),
    Or(Box<FilterView>, Box<FilterView>),
    Not(Box<FilterView>),
}

pub open spec fn filter_view(f: FilterType) -> FilterView
    decreases f,
{
    match f {
        FilterType::Source(s) => FilterView::Source(s@),
        FilterType::Destination(s) => FilterView::Destination(s@),
        FilterType::Type(s) => FilterView::Type(s@),
        FilterType::Direction(s) => FilterView::Direction(s@),
        FilterType::SSRC(s) => FilterView::SSRC(s@),
        FilterType::Alias(s) => FilterView::Alias(s@),
        FilterType::And(l, r) => FilterView::And(Box::new(filter_view(*l)), Box::new(filter_view(*r))),
        FilterType::Or(l, r) => FilterView::Or(Box::new(filter_view(*l)), Box::new(filter_view(*r))),
        FilterType::Not(e) => FilterView::Not(Box::new(filter_view(*e))),
    }
}

impl View for FilterType {
    type V = FilterView;

    open spec fn view(&self) -> FilterView {
        filter_view(*self)
    }
}

/// The filter that `prefix:value` denotes.
pub open spec fn filter_from(prefix: Seq<char>, value: Seq<char>) -> Result<FilterView, ParseErrorView> {
    let key = str_trim(prefix);
    let lower = lowercased(value);
    if key == "source"@ {
        if value.contains('.') {
            Ok(FilterView::Source(lower))
        } else {
            Err(ParseErrorView::InvalidSyntax(INVALID_SOURCE@))
        }
    } else if key == "dest"@ {
        if value.contains('.') {
            Ok(FilterView::Destination(lower))
        } else {
            Err(ParseErrorView::InvalidSyntax(INVALID_DEST@))
        }
    } else if key == "type"@ {
        if value.len() > 0 {
            Ok(FilterView::Type(lower))
        } else {
            Err(ParseErrorView::InvalidSyntax(INVALID_TYPE@))
        }
    } else if key == "dir"@ {
        if value.len() > 0 {
            Ok(FilterView::Direction(lower))
        } else {
            Err(ParseErrorView::InvalidSyntax(INVALID_DIRECTION@))
        }
    } else if key == "ssrc"@ {
        if value.len() > 0 {
            Ok(FilterView::SSRC(lower))
        } else {
            Err(ParseErrorView::InvalidSyntax(INVALID_SSRC@))
        }
    } else if key == "alias"@ {
        if value.len() > 0 {
            Ok(FilterView::Alias(lower))
        } else {
            Err(ParseErrorView::InvalidSyntax(INVALID_ALIAS@))
        }
    } else {
        Err(ParseErrorView::InvalidSyntax(UNKNOWN_LEAD@ + key + UNKNOWN_TAIL@))
    }
}

/// Whether a filter holds of a row.  An empty value matches every row; an
/// alias must equal the value once both are lower-cased, the other fields
/// must contain it once lower-cased.
pub open spec fn holds(f: FilterView, ctx: RtcpFilterContext) -> bool
    decreases f,
{
    match f {
        FilterView::Source(v) => matches_text(ctx.source_addr@, v),
        FilterView::Destination(v) => matches_text(ctx.destination_addr@, v),
        FilterView::Type(v) => matches_text(ctx.packet_type_name@, v),
        FilterView::Direction(v) => matches_text(ctx.direction@, v),
        FilterView::SSRC(v) => matches_text(ctx.ssrc@, v),
        FilterView::Alias(v) => v.len() == 0 || lowercased(ctx.alias@) == lowercased(v),
        FilterView::And(l, r) => holds(*l, ctx) && holds(*r, ctx),
        FilterView::Or(l, r) => holds(*l, ctx) || holds(*r, ctx),
        FilterView::Not(e) => !holds(*e, ctx),
    }
}

impl CommonFilterParser for FilterType {
    open spec fn spec_not(expr: FilterView) -> FilterView {
        FilterView::Not(Box::new(expr))
    }

    fn not(expr: Self) -> (r: Self) {
        FilterType::Not(Box::new(expr))
    }
}

impl<'a> FilterCombinator<'a> for FilterType {
    open spec fn spec_and(left: FilterView, right: FilterView) -> FilterView {
        FilterView::And(Box::new(left), Box::new(right))
    }

    open spec fn spec_or(left: FilterView, right: FilterView) -> FilterView {
        FilterView::Or(Box::new(left), Box::new(right))
    }

    fn and(left: Self, right: Self) -> (r: Self) {
        FilterType::And(Box::new(left), Box::new(right))
    }

    fn or(left: Self, right: Self) -> (r: Self) {
        FilterType::Or(Box::new(left), Box::new(right))
    }
}

/// Parses a filter for the RTCP packets table.
pub fn parse_filter(filter: &str) -> (r: Result<FilterType, ParseError>)
    ensures
        result_view(r) == spec_parse_filter::<FilterType>(filter@),
{
    crate::filter_system::parse_filter(filter)
}

fn holds_for(f: &FilterType, ctx: &RtcpFilterContext) -> (r: bool)
    ensures
        r == holds(f@, *ctx),
    decreases f,
{
    match f {
        FilterType::Source(v) => lower_contains_unless_empty(ctx.source_addr, v.as_str()),
        FilterType::Destination(v) => lower_contains_unless_empty(ctx.destination_addr, v.as_str()),
        FilterType::Type(v) => lower_contains_unless_empty(ctx.packet_type_name, v.as_str()),
        FilterType::Direction(v) => lower_contains_unless_empty(ctx.direction, v.as_str()),
        FilterType::SSRC(v) => lower_contains_unless_empty(ctx.ssrc, v.as_str()),
        FilterType::Alias(v) => v.as_str().is_empty() || lower_eq(ctx.alias, v.as_str()),
        FilterType::And(l, r) => holds_for(l, ctx) && holds_for(r, ctx),
        FilterType::Or(l, r) => holds_for(l, ctx) || holds_for(r, ctx),
        FilterType::Not(e) => !holds_for(e, ctx),
    }
}

impl<'a> FilterExpression<'a> for FilterType {
    type Context = RtcpFilterContext<'a>;

    open spec fn spec_matches(f: FilterView, ctx: &RtcpFilterContext<'a>) -> bool {
        holds(f, *ctx)
    }

    fn matches(&self, ctx: &RtcpFilterContext<'a>) -> (r: bool) {
        holds_for(self, ctx)
    }
}

impl FilterParser for FilterType {
    open spec fn spec_parse_filter_value(prefix: Seq<char>, value: Seq<char>) -> Result<
        FilterView,
        ParseErrorView,
    > {
        filter_from(prefix, value)
    }

    fn parse_filter_value(prefix: &str, value: &str) -> (r: Result<Self, ParseError>) {
        let key = trim(prefix);
        if str_eq(key, "source") {
            if contains_char(value, '.') {
                Ok(FilterType::Source(to_lowercase(value)))
            } else {
                Err(syntax_error(INVALID_SOURCE))
            }
        } else if str_eq(key, "dest") {
            if contains_char(value, '.') {
                Ok(FilterType::Destination(to_lowercase(value)))
            } else {
                Err(syntax_error(INVALID_DEST))
            }
        } else if str_eq(key, "type") {
            if !value.is_empty() {
                Ok(FilterType::Type(to_lowercase(value)))
            } else {
                Err(syntax_error(INVALID_TYPE))
            }
        } else if str_eq(key, "dir") {
            if !value.is_empty() {
                Ok(FilterType::Direction(to_lowercase(value)))
            } else {
                Err(syntax_error(INVALID_DIRECTION))
            }
        } else if str_eq(key, "ssrc") {
            if !value.is_empty() {
                Ok(FilterType::SSRC(to_lowercase(value)))
            } else {
                Err(syntax_error(INVALID_SSRC))
            }
        } else if str_eq(key, "alias") {
            if !value.is_empty() {
                Ok(FilterType::Alias(to_lowercase(value)))
            } else {
                Err(syntax_error(INVALID_ALIAS))
            }
        } else {
            Err(syntax_error_around(UNKNOWN_LEAD, key, UNKNOWN_TAIL))
        }
    }
}

/// Whether the table shows a row under the filter text typed by the user:
/// an empty text shows every row, and so does a text that does not parse.
pub fn packet_matches_filter(filter_text: &str, ctx: &RtcpFilterContext) -> (r: bool)
    ensures
        r == (filter_text@.len() == 0 || shows_row::<FilterType>(filter_text@, ctx)),
{
    if filter_text.is_empty() {
        return true;
    }
    parsed_filter_matches::<FilterType>(filter_text, ctx)
}

} // verus!

verus! {

impl<'a> FilterLogic<'a> for FilterType {
    proof fn lemma_not_matches(f: <Self as View>::V, ctx: &Self::Context) {
    }

    proof fn lemma_and_matches(
        left: <Self as View>::V,
        right: <Self as View>::V,
        ctx: &Self::Context,
    ) {
    }

    proof fn lemma_or_matches(
        left: <Self as View>::V,
        right: <Self as View>::V,
        ctx: &Self::Context,
    ) {
    }
}

/// What each single filter keeps: `source:v`, `dest:v`, `type:v`,
/// `dir:v` and `ssrc:v` a row whose lower-cased source, destination,
/// packet type, direction or SSRC contains `v`, and `alias:v` a row whose
/// alias equals `v` once both are lower-cased (a containing alias is not
/// enough); an empty value keeps every row.
pub proof fn lemma_single_filters<'a>(ctx: RtcpFilterContext<'a>, v: Seq<char>)
    ensures
        <FilterType as FilterExpression<'a>>::spec_matches(FilterView::Source(v), &ctx) == (v.len()
            == 0 || crate::text::has_substring(crate::text::lowercased(ctx.source_addr@), v)),
        <FilterType as FilterExpression<'a>>::spec_matches(FilterView::Destination(v), &ctx) == (v.len()
            == 0 || crate::text::has_substring(crate::text::lowercased(ctx.destination_addr@), v)),
        <FilterType as FilterExpression<'a>>::spec_matches(FilterView::Type(v), &ctx) == (v.len()
            == 0 || crate::text::has_substring(crate::text::lowercased(ctx.packet_type_name@), v)),
        <FilterType as FilterExpression<'a>>::spec_matches(FilterView::Direction(v), &ctx) == (v.len()
            == 0 || crate::text::has_substring(crate::text::lowercased(ctx.direction@), v)),
        <FilterType as FilterExpression<'a>>::spec_matches(FilterView::SSRC(v), &ctx) == (v.len()
            == 0 || crate::text::has_substring(crate::text::lowercased(ctx.ssrc@), v)),
        v.len() == 0 ==> <FilterType as FilterExpression<'a>>::spec_matches(
            FilterView::Alias(v),
            &ctx,
        ),
        v.len() > 0 ==> (<FilterType as FilterExpression<'a>>::spec_matches(
            FilterView::Alias(v),
            &ctx,
        ) == (lowercased(ctx.alias@) == lowercased(v))),
{
}

/// What each `key:value` filter stands for: the filter it denotes when its
/// value is acceptable, and an error otherwise.
pub proof fn lemma_filter_keys(v: Seq<char>)
    ensures
        v.contains('.') ==> <FilterType as FilterParser>::spec_parse_filter_value(
            "source"@,
            v,
        ) == Ok::<FilterView, ParseErrorView>(FilterView::Source(crate::text::lowercased(v))),
        !(v.contains('.')) ==> <FilterType as FilterParser>::spec_parse_filter_value("source"@, v) is Err,
        v.contains('.') ==> <FilterType as FilterParser>::spec_parse_filter_value(
            "dest"@,
            v,
        ) == Ok::<FilterView, ParseErrorView>(FilterView::Destination(crate::text::lowercased(v))),
        !(v.contains('.')) ==> <FilterType as FilterParser>::spec_parse_filter_value("dest"@, v) is Err,
        v.len() > 0 ==> <FilterType as FilterParser>::spec_parse_filter_value(
            "type"@,
            v,
        ) == Ok::<FilterView, ParseErrorView>(FilterView::Type(crate::text::lowercased(v))),
        !(v.len() > 0) ==> <FilterType as FilterParser>::spec_parse_filter_value("type"@, v) is Err,
        v.len() > 0 ==> <FilterType as FilterParser>::spec_parse_filter_value(
            "dir"@,
            v,
        ) == Ok::<FilterView, ParseErrorView>(FilterView::Direction(crate::text::lowercased(v))),
        !(v.len() > 0) ==> <FilterType as FilterParser>::spec_parse_filter_value("dir"@, v) is Err,
        v.len() > 0 ==> <FilterType as FilterParser>::spec_parse_filter_value(
            "ssrc"@,
            v,
        ) == Ok::<FilterView, ParseErrorView>(FilterView::SSRC(crate::text::lowercased(v))),
        !(v.len() > 0) ==> <FilterType as FilterParser>::spec_parse_filter_value("ssrc"@, v) is Err,
        v.len() > 0 ==> <FilterType as FilterParser>::spec_parse_filter_value(
            "alias"@,
            v,
        ) == Ok::<FilterView, ParseErrorView>(FilterView::Alias(crate::text::lowercased(v))),
        !(v.len() > 0) ==> <FilterType as FilterParser>::spec_parse_filter_value("alias"@, v) is Err,
{
    reveal_strlit("source");
    reveal_strlit("dest");
    reveal_strlit("type");
    reveal_strlit("dir");
    reveal_strlit("ssrc");
    reveal_strlit("alias");
    crate::text::lemma_trim_unchanged("source"@);
    crate::text::lemma_trim_unchanged("dest"@);
    crate::text::lemma_trim_unchanged("type"@);
    crate::text::lemma_trim_unchanged("dir"@);
    crate::text::lemma_trim_unchanged("ssrc"@);
    crate::text::lemma_trim_unchanged("alias"@);
}

} // verus!
