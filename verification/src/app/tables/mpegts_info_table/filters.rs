//! Filters for the MPEG-TS program table view.
//!
//! - `alias:value`: the lower-cased stream alias contains the (lower-cased)
//!   value, which must not be empty
//! - `pid:N`: the row's PID is `N` (the program association table counts as
//!   PID 0)
//! - `type:PAT` or `type:PMT` (any case): the row is the program association
//!   table, or a program map table
use vstd::prelude::*;
use super::types::RowKey;
use crate::filter_system::error::{
    result_view, syntax_error, syntax_error_around, ParseError, ParseErrorView,
};
use crate::filter_system::parser::spec_parse_filter;
use crate::filter_system::traits::{
    CommonFilterParser, FilterCombinator, FilterExpression, FilterLogic, FilterParser,
};
use crate::packet::PIDTable;
use crate::text::{
    has_substring, lower_contains, parse_u16, spec_parse_u16, str_eq, lowercased, str_trim,
    uppercased, to_lowercase, to_uppercase, trim,
};

verus! {

pub const INVALID_ALIAS: &'static str = "Alias filter cannot be empty (e.g. alias:stream_a)";

pub const INVALID_TYPE: &'static str = "Invalid packet type. Must be one of:\n\
                         - type:PAT (Program Association Table)\n\
                         - type:PMT (Program Map Table)";

pub const UNKNOWN_LEAD: &'static str = "Unknown filter type: '";

pub const UNKNOWN_TAIL: &'static str = "'.\nAvailable filters:\n\
                 - alias: Stream alias filter\n\
                 - pid: PID value filter\n\
                 - type: Packet type filter (PAT, PMT)";

/// The row a filter is checked against.
pub struct FilterContext<'a> {
    pub key: &'a RowKey,
}

/// The kind of program table.
#[derive(Debug, Clone, Copy, PartialEq, Eq, Structural)]
pub enum PacketType {
    Pat,
    Pmt,
}

/// The table kind that `text` names once upper-cased: `PAT` or `PMT`.
pub open spec fn packet_type_from_upper(upper: Seq<char>) -> Option<PacketType> {
    if upper == "PAT"@ {
        Some(PacketType::Pat)
    } else if upper == "PMT"@ {
        Some(PacketType::Pmt)
    } else {
        None
    }
}

impl PacketType {
    /// The table kind that `text` names, in any case.
    pub fn from_name(text: &str) -> (r: Option<PacketType>)
        ensures
            r == packet_type_from_upper(uppercased(text@)),
    {
        let upper = to_uppercase(text);
        Self::from_upper(upper.as_str())
    }

    /// The table kind named by an upper-cased text.
    pub fn from_upper(upper: &str) -> (r: Option<PacketType>)
        ensures
            r == packet_type_from_upper(upper@),
    {
        if str_eq(upper, "PAT") {
            Some(PacketType::Pat)
        } else if str_eq(upper, "PMT") {
            Some(PacketType::Pmt)
        } else {
            None
        }
    }
}

/// A filter over program table rows.
pub enum FilterType {
    Alias(String),
    Pid(u16),
    Type(PacketType),
    And(Box<FilterType>, Box<FilterType>),
    Or(Box<FilterType>, Box<FilterType>),
    Not(Box<FilterType>),
}

/// A [`FilterType`] with its texts as characters.
pub enum FilterView {
    Alias(Seq<char>),
    Pid(u16),
    Type(PacketType),
    And(Box<FilterView>, Box<FilterView>),
    Or(Box<FilterView>, Box<FilterView>),
    Not(Box<FilterView>),
}

pub open spec fn filter_view(f: FilterType) -> FilterView
    decreases f,
{
    match f {
        FilterType::Alias(s) => FilterView::Alias(s@),
        FilterType::Pid(n) => FilterView::Pid(n),
        FilterType::Type(t) => FilterView::Type(t),
        FilterType::And(l, r) => FilterView::And(Box::new(filter_view(*l)), Box::new(filter_view(*r))),
        FilterType::Or(l, r) => FilterView::Or(Box::new(filter_view(*l)), Box::new(filter_view(*r))),
        FilterType::Not(e) => FilterView::Not(Box::new(filter_view(*e))),
    }
}

impl View for FilterType {
    type V = FilterView;

    open spec fn view(&self) -> FilterView {
        filter_view(*self)
    }
}

/// The filter that `prefix:value` denotes.
pub open spec fn filter_from(prefix: Seq<char>, value: Seq<char>) -> Result<FilterView, ParseErrorView> {
    let key = str_trim(prefix);
    if key == "alias"@ {
        if value.len() > 0 {
            Ok(FilterView::Alias(lowercased(value)))
        } else {
            Err(ParseErrorView::InvalidSyntax(INVALID_ALIAS@))
        }
    } else if key == "pid"@ {
        match spec_parse_u16(value) {
            Some(n) => Ok(FilterView::Pid(n)),
            None => Err(ParseErrorView::InvalidSyntax("Invalid PID number"@)),
        }
    } else if key == "type"@ {
        match packet_type_from_upper(uppercased(value)) {
            Some(t) => Ok(FilterView::Type(t)),
            None => Err(ParseErrorView::InvalidSyntax(INVALID_TYPE@)),
        }
    } else {
        Err(ParseErrorView::InvalidSyntax(UNKNOWN_LEAD@ + key + UNKNOWN_TAIL@))
    }
}

/// Whether a PID filter holds of a row's PID.
pub open spec fn pid_matches(pid: PIDTable, wanted: u16) -> bool {
    match pid {
        PIDTable::PID(p) => p == wanted,
        PIDTable::ProgramAssociation => wanted == 0,
        _ => false,
    }
}

/// Whether a table-kind filter holds of a row's PID.
pub open spec fn type_matches(pid: PIDTable, t: PacketType) -> bool {
    match t {
        PacketType::Pat => pid == PIDTable::ProgramAssociation,
        PacketType::Pmt => pid is PID,
    }
}

/// Whether a filter holds of a row.
pub open spec fn holds(f: FilterView, ctx: FilterContext) -> bool
    decreases f,
{
    match f {
        FilterView::Alias(v) => has_substring(lowercased(ctx.key.alias@), v),
        FilterView::Pid(n) => pid_matches(ctx.key.pid, n),
        FilterView::Type(t) => type_matches(ctx.key.pid, t),
        FilterView::And(l, r) => holds(*l, ctx) && holds(*r, ctx),
        FilterView::Or(l, r) => holds(*l, ctx) || holds(*r, ctx),
        FilterView::Not(e) => !holds(*e, ctx),
    }
}

impl CommonFilterParser for FilterType {
    open spec fn spec_not(expr: FilterView) -> FilterView {
        FilterView::Not(Box::new(expr))
    }

    fn not(expr: Self) -> (r: Self) {
        FilterType::Not(Box::new(expr))
    }
}

impl<'a> FilterCombinator<'a> for FilterType {
    open spec fn spec_and(left: FilterView, right: FilterView) -> FilterView {
        FilterView::And(Box::new(left), Box::new(right))
    }

    open spec fn spec_or(left: FilterView, right: FilterView) -> FilterView {
        FilterView::Or(Box::new(left), Box::new(right))
    }

    fn and(left: Self, right: Self) -> (r: Self) {
        FilterType::And(Box::new(left), Box::new(right))
    }

    fn or(left: Self, right: Self) -> (r: Self) {
        FilterType::Or(Box::new(left), Box::new(right))
    }
}

/// Parses a filter for the program table view.
pub fn parse_filter(filter: &str) -> (r: Result<FilterType, ParseError>)
    ensures
        result_view(r) == spec_parse_filter::<FilterType>(filter@),
{
    crate::filter_system::parse_filter(filter)
}

fn holds_for(f: &FilterType, ctx: &FilterContext) -> (r: bool)
    ensures
        r == holds(f@, *ctx),
    decreases f,
{
    match f {
        FilterType::Alias(v) => lower_contains(ctx.key.alias.as_str(), v.as_str()),
        FilterType::Pid(n) => match ctx.key.pid {
            PIDTable::PID(p) => p == *n,
            PIDTable::ProgramAssociation => *n == 0,
            _ => false,
        },
        FilterType::Type(t) => match t {
            PacketType::Pat => ctx.key.pid == PIDTable::ProgramAssociation,
            PacketType::Pmt => match ctx.key.pid {
                PIDTable::PID(_) => true,
                _ => false,
            },
        },
        FilterType::And(l, r) => holds_for(l, ctx) && holds_for(r, ctx),
        FilterType::Or(l, r) => holds_for(l, ctx) || holds_for(r, ctx),
        FilterType::Not(e) => !holds_for(e, ctx),
    }
}

impl<'a> FilterExpression<'a> for FilterType {
    type Context = FilterContext<'a>;

    open spec fn spec_matches(f: FilterView, ctx: &FilterContext<'a>) -> bool {
        holds(f, *ctx)
    }

    fn matches(&self, ctx: &FilterContext<'a>) -> (r: bool) {
        holds_for(self, ctx)
    }
}

impl FilterParser for FilterType {
    open spec fn spec_parse_filter_value(prefix: Seq<char>, value: Seq<char>) -> Result<
        FilterView,
        ParseErrorView,
    > {
        filter_from(prefix, value)
    }

    fn parse_filter_value(prefix: &str, value: &str) -> (r: Result<Self, ParseError>) {
        let key = trim(prefix);
        if str_eq(key, "alias") {
            if !value.is_empty() {
                Ok(FilterType::Alias(to_lowercase(value)))
            } else {
                Err(syntax_error(INVALID_ALIAS))
            }
        } else if str_eq(key, "pid") {
            match parse_u16(value) {
                Some(n) => Ok(FilterType::Pid(n)),
                None => Err(syntax_error("Invalid PID number")),
            }
        } else if str_eq(key, "type") {
            match PacketType::from_name(value) {
                Some(t) => Ok(FilterType::Type(t)),
                None => Err(syntax_error(INVALID_TYPE)),
            }
        } else {
            Err(syntax_error_around(UNKNOWN_LEAD, key, UNKNOWN_TAIL))
        }
    }
}

} // verus!

verus! {

impl<'a> FilterLogic<'a> for FilterType {
    proof fn lemma_not_matches(f: <Self as View>::V, ctx: &Self::Context) {
    }

    proof fn lemma_and_matches(
        left: <Self as View>::V,
        right: <Self as View>::V,
        ctx: &Self::Context,
    ) {
    }

    proof fn lemma_or_matches(
        left: <Self as View>::V,
        right: <Self as View>::V,
        ctx: &Self::Context,
    ) {
    }
}

} // verus!

verus! {

impl std::str::FromStr for PacketType {
    type Err = ();

    fn from_str(s: &str) -> (r: Result<PacketType, ()>)
        ensures
            match r {
                Ok(t) => packet_type_from_upper(uppercased(s@)) == Some(t),
                Err(_) => packet_type_from_upper(uppercased(s@)) is None,
            },
    {
        match PacketType::from_name(s) {
            Some(t) => Ok(t),
            None => Err(()),
        }
    }
}

/// What each single filter keeps: `alias:v` a row whose lower-cased alias
/// contains `v`; `pid:n` the row of the numbered PID `n`, or the PAT row
/// when `n` is 0; `type:pat` exactly the PAT row and `type:pmt` exactly the
/// rows of numbered PIDs, so that no row is both.
pub proof fn lemma_single_filters<'a>(ctx: FilterContext<'a>, v: Seq<char>, n: u16)
    ensures
        <FilterType as FilterExpression<'a>>::spec_matches(FilterView::Alias(v), &ctx)
            == has_substring(lowercased(ctx.key.alias@), v),
        <FilterType as FilterExpression<'a>>::spec_matches(FilterView::Pid(n), &ctx) == (ctx.key.pid
            == PIDTable::PID(n) || (ctx.key.pid == PIDTable::ProgramAssociation && n == 0)),
        <FilterType as FilterExpression<'a>>::spec_matches(FilterView::Type(PacketType::Pat), &ctx)
            == (ctx.key.pid == PIDTable::ProgramAssociation),
        <FilterType as FilterExpression<'a>>::spec_matches(FilterView::Type(PacketType::Pmt), &ctx)
            == (exists|m: u16| ctx.key.pid == PIDTable::PID(m)),
        !(<FilterType as FilterExpression<'a>>::spec_matches(
            FilterView::Type(PacketType::Pat),
            &ctx,
        ) && <FilterType as FilterExpression<'a>>::spec_matches(
            FilterView::Type(PacketType::Pmt),
            &ctx,
        )),
{
    if let PIDTable::PID(m) = ctx.key.pid {
        assert(ctx.key.pid == PIDTable::PID(m));
    }
}

/// What each `key:value` filter stands for: the filter it denotes when its
/// value is acceptable, and an error otherwise.
pub proof fn lemma_filter_keys(v: Seq<char>)
    ensures
        v.len() > 0 ==> <FilterType as FilterParser>::spec_parse_filter_value(
            "alias"@,
            v,
        ) == Ok::<FilterView, ParseErrorView>(FilterView::Alias(crate::text::lowercased(v))),
        !(v.len() > 0) ==> <FilterType as FilterParser>::spec_parse_filter_value("alias"@, v) is Err,
        spec_parse_u16(v) is Some ==> <FilterType as FilterParser>::spec_parse_filter_value(
            "pid"@,
            v,
        ) == Ok::<FilterView, ParseErrorView>(FilterView::Pid(spec_parse_u16(v)->0)),
        !(spec_parse_u16(v) is Some) ==> <FilterType as FilterParser>::spec_parse_filter_value("pid"@, v) is Err,
        packet_type_from_upper(crate::text::uppercased(v)) is Some ==> <FilterType as FilterParser>::spec_parse_filter_value(
            "type"@,
            v,
        ) == Ok::<FilterView, ParseErrorView>(FilterView::Type(packet_type_from_upper(crate::text::uppercased(v))->0)),
        !(packet_type_from_upper(crate::text::uppercased(v)) is Some) ==> <FilterType as FilterParser>::spec_parse_filter_value("type"@, v) is Err,
{
    reveal_strlit("alias");
    reveal_strlit("pid");
    reveal_strlit("type");
    crate::text::lemma_trim_unchanged("alias"@);
    crate::text::lemma_trim_unchanged("pid"@);
    crate::text::lemma_trim_unchanged("type"@);
}

} // verus!
