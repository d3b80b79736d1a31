//! Filters for the STUN packets table.
//!
//! - `source:value`, `dest:value`: the lower-cased address contains the value
//! - `type:value`: the lower-cased message type name contains the value
//! - `transaction:value`: the transaction id, in lower-case hexadecimal,
//!   contains the value
//! - `length:...`: a comparison on the message length
//! - `magic:HEX`: the message's magic cookie is the hexadecimal value
//!
//! Text values are kept as typed; the prefix is not trimmed.  An empty
//! value matches every message.
use vstd::prelude::*;
use crate::filter_system::comparison::{compares_usize, spec_comparison, ComparisonFilter, ComparisonView};
use crate::filter_system::error::{
    result_view, syntax_error, syntax_error_around, ParseError, ParseErrorView,
};
use crate::filter_system::parser::{parsed_filter_matches, shows_row, spec_parse_filter};
use crate::filter_system::traits::{
    CommonFilterParser, FilterCombinator, FilterExpression, FilterLogic, FilterParser,
};
use crate::packet::{bytes_hex, transaction_matches, StunPacketFields};
use crate::text::{
    hex_u32, parse_hex_u32, has_substring, lower_contains_unless_empty, matches_text, str_eq, str_trim,
    string_from_literal, trim,
};

verus! {

pub const INVALID_MAGIC: &'static str = "Invalid magic cookie (e.g. magic:2112A442)";

pub const INVALID_LENGTH: &'static str = "Invalid length filter format.\nExamples:\n\
                         - length:1000 (exact match)\n\
                         - length:>500 (greater than)\n\
                         - length:<=1500 (less or equal)";

pub const UNKNOWN_LEAD: &'static str = "Unknown filter type: '";

pub const UNKNOWN_TAIL: &'static str = "'.\nAvailable filters:\n\
                 - source: Source IP filter\n\
                 - dest: Destination IP filter\n\
                 - type: STUN message type filter\n\
                 - transaction: Transaction ID filter\n\
                 - length: Message length filter";

/// The row a filter is checked against.
pub struct StunFilterContext<'a> {
    pub packet: &'a StunPacketFields,
    pub source_addr: &'a str,
    pub destination_addr: &'a str,
}

/// A filter over STUN messages.
pub enum FilterType {
    Source(String),
    Destination(String),
    Type(String),
    Transaction(String),
    Magic(u32),
    Length(ComparisonFilter<usize>),
    And(Box<FilterType>, Box<FilterType>),
    Or(Box<FilterType>, Box<FilterType>),
    Not(Box<FilterType>),
}

/// A [`FilterType`] with its texts as characters.
pub enum FilterView {
    Source(Seq<char>),
    Destination(Seq<char>),
    Type(Seq<char>),
    Transaction(Seq<char>),
    Magic(u32),
    Length(ComparisonView<usize>),
    And(Box<FilterView>, Box<FilterView>),
    Or(Box<FilterView>, Box<FilterView>),
    Not(Box<FilterView>),
}

pub open spec fn filter_view(f: FilterType) -> FilterView
    decreases f,
{
    match f {
        FilterType::Source(s) => FilterView::Source(s@),
        FilterType::Destination(s) => FilterView::Destination(s@),
        FilterType::Type(s) => FilterView::Type(s@),
        FilterType::Transaction(s) => FilterView::Transaction(s@),
        FilterType::Magic(n) => FilterView::Magic(n),
        FilterType::Length(c) => FilterView::Length(c@),
        FilterType::And(l, r) => FilterView::And(Box::new(filter_view(*l)), Box::new(filter_view(*r))),
        FilterType::Or(l, r) => FilterView::Or(Box::new(filter_view(*l)), Box::new(filter_view(*r))),
        FilterType::Not(e) => FilterView::Not(Box::new(filter_view(*e))),
    }
}

impl View for FilterType {
    type V = FilterView;

    open spec fn view(&self) -> FilterView {
        filter_view(*self)
    }
}

/// The filter that `key:value` denotes.
pub open spec fn filter_from(key: Seq<char>, value: Seq<char>) -> Result<FilterView, ParseErrorView> {
    if key == "source"@ {
        Ok(FilterView::Source(value))
    } else if key == "dest"@ {
        Ok(FilterView::Destination(value))
    } else if key == "type"@ {
        Ok(FilterView::Type(value))
    } else if key == "transaction"@ {
        Ok(FilterView::Transaction(value))
    } else if key == "magic"@ {
        match parse_hex_u32(value) {
            Some(n) => Ok(FilterView::Magic(n)),
            None => Err(ParseErrorView::InvalidSyntax(INVALID_MAGIC@)),
        }
    } else if key == "length"@ {
        match spec_comparison::<usize>(value) {
            Some(c) => Ok(FilterView::Length(c)),
            None => Err(ParseErrorView::InvalidSyntax(INVALID_LENGTH@)),
        }
    } else {
        Err(ParseErrorView::InvalidSyntax(UNKNOWN_LEAD@ + key + UNKNOWN_TAIL@))
    }
}

/// Whether a filter holds of a message.
pub open spec fn holds(f: FilterView, ctx: StunFilterContext) -> bool
    decreases f,
{
    match f {
        FilterView::Source(v) => matches_text(ctx.source_addr@, v),
        FilterView::Destination(v) => matches_text(ctx.destination_addr@, v),
        FilterView::Type(v) => matches_text(ctx.packet.message_type_name@, v),
        FilterView::Transaction(v) => v.len() == 0 || has_substring(
            bytes_hex(ctx.packet.transaction_id@),
            v,
        ),
        FilterView::Magic(n) => ctx.packet.magic_cookie == n,
        FilterView::Length(c) => compares_usize(ctx.packet.message_length as usize, c),
        FilterView::And(l, r) => holds(*l, ctx) && holds(*r, ctx),
        FilterView::Or(l, r) => holds(*l, ctx) || holds(*r, ctx),
        FilterView::Not(e) => !holds(*e, ctx),
    }
}

impl CommonFilterParser for FilterType {
    open spec fn spec_not(expr: FilterView) -> FilterView {
        FilterView::Not(Box::new(expr))
    }

    fn not(expr: Self) -> (r: Self) {
        FilterType::Not(Box::new(expr))
    }
}

impl<'a> FilterCombinator<'a> for FilterType {
    open spec fn spec_and(left: FilterView, right: FilterView) -> FilterView {
        FilterView::And(Box::new(left), Box::new(right))
    }

    open spec fn spec_or(left: FilterView, right: FilterView) -> FilterView {
        FilterView::Or(Box::new(left), Box::new(right))
    }

    fn and(left: Self, right: Self) -> (r: Self) {
        FilterType::And(Box::new(left), Box::new(right))
    }

    fn or(left: Self, right: Self) -> (r: Self) {
        FilterType::Or(Box::new(left), Box::new(right))
    }
}

/// Parses a filter for the STUN packets table.
pub fn parse_filter(filter: &str) -> (r: Result<FilterType, ParseError>)
    ensures
        result_view(r) == spec_parse_filter::<FilterType>(filter@),
{
    crate::filter_system::parse_filter(filter)
}

fn holds_for(f: &FilterType, ctx: &StunFilterContext) -> (r: bool)
    ensures
        r == holds(f@, *ctx),
    decreases f,
{
    match f {
        FilterType::Source(v) => lower_contains_unless_empty(ctx.source_addr, v.as_str()),
        FilterType::Destination(v) => lower_contains_unless_empty(ctx.destination_addr, v.as_str()),
        FilterType::Type(v) => lower_contains_unless_empty(
            ctx.packet.message_type_name.as_str(),
            v.as_str(),
        ),
        FilterType::Transaction(v) => transaction_matches(&ctx.packet.transaction_id, v.as_str()),
        FilterType::Magic(n) => ctx.packet.magic_cookie == *n,
        FilterType::Length(c) => c.holds_for(ctx.packet.message_length as usize),
        FilterType::And(l, r) => holds_for(l, ctx) && holds_for(r, ctx),
        FilterType::Or(l, r) => holds_for(l, ctx) || holds_for(r, ctx),
        FilterType::Not(e) => !holds_for(e, ctx),
    }
}

impl<'a> FilterExpression<'a> for FilterType {
    type Context = StunFilterContext<'a>;

    open spec fn spec_matches(f: FilterView, ctx: &StunFilterContext<'a>) -> bool {
        holds(f, *ctx)
    }

    fn matches(&self, ctx: &StunFilterContext<'a>) -> (r: bool) {
        holds_for(self, ctx)
    }
}

impl FilterParser for FilterType {
    open spec fn spec_parse_filter_value(prefix: Seq<char>, value: Seq<char>) -> Result<
        FilterView,
        ParseErrorView,
    > {
        filter_from(prefix, value)
    }

    fn parse_filter_value(key: &str, value: &str) -> (r: Result<Self, ParseError>) {
        if str_eq(key, "source") {
            Ok(FilterType::Source(string_from_literal(value)))
        } else if str_eq(key, "dest") {
            Ok(FilterType::Destination(string_from_literal(value)))
        } else if str_eq(key, "type") {
            Ok(FilterType::Type(string_from_literal(value)))
        } else if str_eq(key, "transaction") {
            Ok(FilterType::Transaction(string_from_literal(value)))
        } else if str_eq(key, "magic") {
            match hex_u32(value) {
                Some(n) => Ok(FilterType::Magic(n)),
                None => Err(syntax_error(INVALID_MAGIC)),
            }
        } else if str_eq(key, "length") {
            match ComparisonFilter::<usize>::parse(value) {
                Some(c) => Ok(FilterType::Length(c)),
                None => Err(syntax_error(INVALID_LENGTH)),
            }
        } else {
            Err(syntax_error_around(UNKNOWN_LEAD, key, UNKNOWN_TAIL))
        }
    }
}

/// Whether the table shows a row under the filter text typed by the user:
/// an empty text shows every row; otherwise the trimmed text is parsed and
/// a text that does not parse shows every row.
pub fn packet_matches_filter(filter_text: &str, ctx: &StunFilterContext) -> (r: bool)
    ensures
        r == (filter_text@.len() == 0 || shows_row::<FilterType>(str_trim(filter_text@), ctx)),
{
    if filter_text.is_empty() {
        return true;
    }
    parsed_filter_matches::<FilterType>(trim(filter_text), ctx)
}

} // verus!

verus! {

impl<'a> FilterLogic<'a> for FilterType {
    proof fn lemma_not_matches(f: <Self as View>::V, ctx: &Self::Context) {
    }

    proof fn lemma_and_matches(
        left: <Self as View>::V,
        right: <Self as View>::V,
        ctx: &Self::Context,
    ) {
    }

    proof fn lemma_or_matches(
        left: <Self as View>::V,
        right: <Self as View>::V,
        ctx: &Self::Context,
    ) {
    }
}

/// What each single filter keeps: `source:v`, `dest:v` and `type:v` a
/// packet whose lower-cased source, destination or message type contains
/// `v`, and `transaction:v` one whose transaction ID in hexadecimal
/// contains `v` (an empty value keeps every packet); `magic:x` a packet
/// whose magic cookie is `x`; `length:c` a packet whose
/// message length satisfies `c`.
pub proof fn lemma_single_filters<'a>(ctx: StunFilterContext<'a>, v: Seq<char>, x: u32, c: ComparisonView<usize>)
    ensures
        <FilterType as FilterExpression<'a>>::spec_matches(FilterView::Source(v), &ctx) == (v.len() == 0 || crate::text::has_substring(crate::text::lowercased(ctx.source_addr@), v)),
        <FilterType as FilterExpression<'a>>::spec_matches(FilterView::Destination(v), &ctx) == (v.len() == 0 || crate::text::has_substring(crate::text::lowercased(ctx.destination_addr@), v)),
        <FilterType as FilterExpression<'a>>::spec_matches(FilterView::Type(v), &ctx) == (v.len() == 0 || crate::text::has_substring(crate::text::lowercased(ctx.packet.message_type_name@), v)),
        <FilterType as FilterExpression<'a>>::spec_matches(FilterView::Transaction(v), &ctx) == (v.len() == 0 || crate::text::has_substring(
            crate::packet::bytes_hex(ctx.packet.transaction_id@),
            v,
        )),
        <FilterType as FilterExpression<'a>>::spec_matches(FilterView::Magic(x), &ctx) == (ctx.packet.magic_cookie == x),
        <FilterType as FilterExpression<'a>>::spec_matches(FilterView::Length(c), &ctx) == compares_usize(ctx.packet.message_length as usize, c),
{
}

/// What each `key:value` filter stands for: the filter it denotes when its
/// value is acceptable, and an error otherwise.
pub proof fn lemma_filter_keys(v: Seq<char>)
    ensures
        <FilterType as FilterParser>::spec_parse_filter_value("source"@, v) == Ok::<FilterView, ParseErrorView>(FilterView::Source(v)),
        <FilterType as FilterParser>::spec_parse_filter_value("dest"@, v) == Ok::<FilterView, ParseErrorView>(FilterView::Destination(v)),
        <FilterType as FilterParser>::spec_parse_filter_value("type"@, v) == Ok::<FilterView, ParseErrorView>(FilterView::Type(v)),
        <FilterType as FilterParser>::spec_parse_filter_value("transaction"@, v) == Ok::<FilterView, ParseErrorView>(FilterView::Transaction(v)),
        parse_hex_u32(v) is Some ==> <FilterType as FilterParser>::spec_parse_filter_value(
            "magic"@,
            v,
        ) == Ok::<FilterView, ParseErrorView>(FilterView::Magic(parse_hex_u32(v)->0)),
        !(parse_hex_u32(v) is Some) ==> <FilterType as FilterParser>::spec_parse_filter_value("magic"@, v) is Err,
        spec_comparison::<usize>(v) is Some ==> <FilterType as FilterParser>::spec_parse_filter_value(
            "length"@,
            v,
        ) == Ok::<FilterView, ParseErrorView>(FilterView::Length(spec_comparison::<usize>(v)->0)),
        !(spec_comparison::<usize>(v) is Some) ==> <FilterType as FilterParser>::spec_parse_filter_value("length"@, v) is Err,
{
    reveal_strlit("source");
    reveal_strlit("dest");
    reveal_strlit("type");
    reveal_strlit("transaction");
    reveal_strlit("magic");
    reveal_strlit("length");
    assert("dest"@.len() != "source"@.len());
    assert("type"@.len() != "source"@.len());
    assert("type"@[0] != "dest"@[0]);
    assert("magic"@.len() == 5 && "source"@.len() == 6 && "dest"@.len() == 4);
    assert("type"@.len() == 4 && "transaction"@.len() == 11 && "length"@.len() == 6);
    assert("length"@[0] != "source"@[0]);
}

} // verus!
