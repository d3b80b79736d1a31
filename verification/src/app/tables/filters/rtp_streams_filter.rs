//! Filters over RTP streams.
//!
//! - `source:value`, `dest:value`, `alias:value`, `cname:value`: text
//!   filters, lower-cased when read
//! - `bitrate:...`: a comparison on the mean bitrate in kbit/s, whose number
//!   is kept as the text `f64` reads
//! - `packets:...`: a comparison on the number of packets
//!
//! A bitrate is a floating-point measure: the caller compares it with each
//! `bitrate:` comparison of a filter (listed by
//! [`FilterType::bitrate_comparisons`]) and hands the outcomes in; the text,
//! count and `AND`/`OR`/`NOT` logic is decided here.
use vstd::prelude::*;
use crate::filter_system::comparison::{
    compares_u32, spec_comparison, ComparisonFilter, ComparisonView, FloatLiteral,
};
use crate::filter_system::error::{
    result_view, syntax_error, syntax_error_around, ParseError, ParseErrorView,
};
use crate::filter_system::parser::spec_parse_filter;
use crate::filter_system::traits::{
    CommonFilterParser, FilterCombinator, FilterExpression, FilterParser,
};
use crate::text::{
    has_substring, lower_contains, str_eq, lowercased, str_trim, to_lowercase, trim,
};

verus! {

pub const UNKNOWN_TAIL: &'static str = ". Use: source, dest, alias, cname, bitrate, packets";

/// A filter over RTP streams.
pub enum FilterType {
    Source(String),
    Destination(String),
    Alias(String),
    Cname(String),
    MeanBitrate(ComparisonFilter<FloatLiteral>),
    PacketCount(ComparisonFilter<u32>),
    And(Box<FilterType>, Box<FilterType>),
    Or(Box<FilterType>, Box<FilterType>),
    Not(Box<FilterType>),
}

/// A [`FilterType`] with its texts as characters.
pub enum FilterView {
    Source(Seq<char>),
    Destination(Seq<char>),
    Alias(Seq<char>),
    Cname(Seq<char>),
    MeanBitrate(ComparisonView<Seq<char>>),
    PacketCount(ComparisonView<u32>),
    And(Box<FilterView>, Box<FilterView>),
    Or(Box<FilterView>, Box<FilterView>),
    Not(Box<FilterView>),
}

pub open spec fn filter_view(f: FilterType) -> FilterView
    decreases f,
{
    match f {
        FilterType::Source(s) => FilterView::Source(s@),
        FilterType::Destination(s) => FilterView::Destination(s@),
        FilterType::Alias(s) => FilterView::Alias(s@),
        FilterType::Cname(s) => FilterView::Cname(s@),
        FilterType::MeanBitrate(c) => FilterView::MeanBitrate(c@),
        FilterType::PacketCount(c) => FilterView::PacketCount(c@),
        FilterType::And(l, r) => FilterView::And(Box::new(filter_view(*l)), Box::new(filter_view(*r))),
        FilterType::Or(l, r) => FilterView::Or(Box::new(filter_view(*l)), Box::new(filter_view(*r))),
        FilterType::Not(e) => FilterView::Not(Box::new(filter_view(*e))),
    }
}

impl View for FilterType {
    type V = FilterView;

    open spec fn view(&self) -> FilterView {
        filter_view(*self)
    }
}

/// The filter that `prefix:value` denotes.
pub open spec fn filter_from(prefix: Seq<char>, value: Seq<char>) -> Result<FilterView, ParseErrorView> {
    let key = str_trim(prefix);
    let lower = lowercased(value);
    if key == "source"@ {
        Ok(FilterView::Source(lower))
    } else if key == "dest"@ {
        Ok(FilterView::Destination(lower))
    } else if key == "alias"@ {
        Ok(FilterView::Alias(lower))
    } else if key == "cname"@ {
        Ok(FilterView::Cname(lower))
    } else if key == "bitrate"@ {
        match spec_comparison::<FloatLiteral>(value) {
            Some(c) => Ok(FilterView::MeanBitrate(c)),
            None => Err(ParseErrorView::InvalidSyntax("Invalid bitrate filter"@)),
        }
    } else if key == "packets"@ {
        match spec_comparison::<u32>(value) {
            Some(c) => Ok(FilterView::PacketCount(c)),
            None => Err(ParseErrorView::InvalidSyntax("Invalid packet count filter"@)),
        }
    } else {
        Err(ParseErrorView::InvalidSyntax("Unknown filter: "@ + prefix + UNKNOWN_TAIL@))
    }
}

impl CommonFilterParser for FilterType {
    open spec fn spec_not(expr: FilterView) -> FilterView {
        FilterView::Not(Box::new(expr))
    }

    fn not(expr: Self) -> (r: Self) {
        FilterType::Not(Box::new(expr))
    }
}

impl<'a> FilterCombinator<'a> for FilterType {
    open spec fn spec_and(left: FilterView, right: FilterView) -> FilterView {
        FilterView::And(Box::new(left), Box::new(right))
    }

    open spec fn spec_or(left: FilterView, right: FilterView) -> FilterView {
        FilterView::Or(Box::new(left), Box::new(right))
    }

    fn and(left: Self, right: Self) -> (r: Self) {
        FilterType::And(Box::new(left), Box::new(right))
    }

    fn or(left: Self, right: Self) -> (r: Self) {
        FilterType::Or(Box::new(left), Box::new(right))
    }
}

/// Parses an RTP stream filter.
pub fn parse_filter(filter: &str) -> (r: Result<FilterType, ParseError>)
    ensures
        result_view(r) == spec_parse_filter::<FilterType>(filter@),
{
    crate::filter_system::parse_filter(filter)
}

impl FilterParser for FilterType {
    open spec fn spec_parse_filter_value(prefix: Seq<char>, value: Seq<char>) -> Result<
        FilterView,
        ParseErrorView,
    > {
        filter_from(prefix, value)
    }

    fn parse_filter_value(prefix: &str, value: &str) -> (r: Result<Self, ParseError>) {
        let key = trim(prefix);
        if str_eq(key, "source") {
            Ok(FilterType::Source(to_lowercase(value)))
        } else if str_eq(key, "dest") {
            Ok(FilterType::Destination(to_lowercase(value)))
        } else if str_eq(key, "alias") {
            Ok(FilterType::Alias(to_lowercase(value)))
        } else if str_eq(key, "cname") {
            Ok(FilterType::Cname(to_lowercase(value)))
        } else if str_eq(key, "bitrate") {
            match ComparisonFilter::<FloatLiteral>::parse(value) {
                Some(c) => Ok(FilterType::MeanBitrate(c)),
                None => Err(syntax_error("Invalid bitrate filter")),
            }
        } else if str_eq(key, "packets") {
            match ComparisonFilter::<u32>::parse(value) {
                Some(c) => Ok(FilterType::PacketCount(c)),
                None => Err(syntax_error("Invalid packet count filter")),
            }
        } else {
            Err(syntax_error_around("Unknown filter: ", prefix, UNKNOWN_TAIL))
        }
    }
}

/// What a filter reads of an RTP stream. `bitrate_outcomes[i]` is whether
/// the stream's mean bitrate, in kbit/s, satisfies the `i`-th comparison of
/// [`FilterType::bitrate_comparisons`].
pub struct FilterContext<'a> {
    pub source_addr: &'a str,
    pub destination_addr: &'a str,
    pub alias: &'a str,
    pub cname: Option<&'a str>,
    pub packet_count: u32,
    pub bitrate_outcomes: &'a [bool],
}

/// The bitrate comparisons of a filter, from left to right.
pub open spec fn bitrate_comparisons(f: FilterView) -> Seq<ComparisonView<Seq<char>>>
    decreases f,
{
    match f {
        FilterView::MeanBitrate(c) => seq![c],
        FilterView::And(l, r) => bitrate_comparisons(*l) + bitrate_comparisons(*r),
        FilterView::Or(l, r) => bitrate_comparisons(*l) + bitrate_comparisons(*r),
        FilterView::Not(e) => bitrate_comparisons(*e),
        _ => Seq::empty(),
    }
}

/// Whether a filter holds of a stream when the outcome of its `k`-th bitrate
/// comparison is `ctx.bitrate_outcomes[start + k]`; a comparison with no
/// outcome there does not hold.
pub open spec fn holds_from(f: FilterView, ctx: FilterContext, start: int) -> bool
    decreases f,
{
    match f {
        FilterView::Source(v) => has_substring(lowercased(ctx.source_addr@), v),
        FilterView::Destination(v) => has_substring(lowercased(ctx.destination_addr@), v),
        FilterView::Alias(v) => has_substring(lowercased(ctx.alias@), v),
        FilterView::Cname(v) => match ctx.cname {
            Some(c) => has_substring(lowercased(c@), v),
            None => false,
        },
        FilterView::MeanBitrate(_) => 0 <= start < ctx.bitrate_outcomes@.len()
            && ctx.bitrate_outcomes@[start],
        FilterView::PacketCount(c) => compares_u32(ctx.packet_count, c),
        FilterView::And(l, r) => holds_from(*l, ctx, start) && holds_from(
            *r,
            ctx,
            start + bitrate_comparisons(*l).len(),
        ),
        FilterView::Or(l, r) => holds_from(*l, ctx, start) || holds_from(
            *r,
            ctx,
            start + bitrate_comparisons(*l).len(),
        ),
        FilterView::Not(e) => !holds_from(*e, ctx, start),
    }
}

/// Whether a filter holds of a stream.
pub open spec fn holds(f: FilterView, ctx: FilterContext) -> bool {
    holds_from(f, ctx, 0)
}

/// Past the last outcome every bitrate comparison fails, wherever reading
/// starts.
proof fn lemma_past_outcomes(f: FilterView, ctx: FilterContext, i: int, j: int)
    requires
        i >= ctx.bitrate_outcomes@.len(),
        j >= ctx.bitrate_outcomes@.len(),
    ensures
        holds_from(f, ctx, i) == holds_from(f, ctx, j),
    decreases f,
{
    match f {
        FilterView::And(l, r) => {
            lemma_past_outcomes(*l, ctx, i, j);
            let n = bitrate_comparisons(*l).len();
            lemma_past_outcomes(*r, ctx, i + n, j + n);
        },
        FilterView::Or(l, r) => {
            lemma_past_outcomes(*l, ctx, i, j);
            let n = bitrate_comparisons(*l).len();
            lemma_past_outcomes(*r, ctx, i + n, j + n);
        },
        FilterView::Not(e) => lemma_past_outcomes(*e, ctx, i, j),
        _ => {},
    }
}

/// Two rows that differ at most in their outcomes agree on a filter that
/// makes no bitrate comparison, wherever reading starts.
proof fn lemma_outcomes_unread(f: FilterView, a: FilterContext, b: FilterContext, i: int, j: int)
    requires
        bitrate_comparisons(f).len() == 0,
        a.source_addr == b.source_addr,
        a.destination_addr == b.destination_addr,
        a.alias == b.alias,
        a.cname == b.cname,
        a.packet_count == b.packet_count,
    ensures
        holds_from(f, a, i) == holds_from(f, b, j),
    decreases f,
{
    match f {
        FilterView::And(l, r) => {
            lemma_outcomes_unread(*l, a, b, i, j);
            lemma_outcomes_unread(*r, a, b, i, j);
        },
        FilterView::Or(l, r) => {
            lemma_outcomes_unread(*l, a, b, i, j);
            lemma_outcomes_unread(*r, a, b, i, j);
        },
        FilterView::Not(e) => lemma_outcomes_unread(*e, a, b, i, j),
        _ => {},
    }
}

/// The outcomes handed in serve the bitrate comparisons alone: a filter that
/// makes none holds of a row whatever the outcomes.
pub proof fn lemma_outcomes_serve_bitrates_only(f: FilterView, a: FilterContext, b: FilterContext)
    requires
        bitrate_comparisons(f).len() == 0,
        a.source_addr == b.source_addr,
        a.destination_addr == b.destination_addr,
        a.alias == b.alias,
        a.cname == b.cname,
        a.packet_count == b.packet_count,
    ensures
        holds(f, a) == holds(f, b),
{
    lemma_outcomes_unread(f, a, b, 0, 0);
}

/// Decides [`holds_from`] and says where the next filter's outcomes start
/// (no further than the end of the outcomes).
fn holds_at(f: &FilterType, ctx: &FilterContext, start: usize) -> (r: (bool, usize))
    requires
        start <= ctx.bitrate_outcomes@.len(),
    ensures
        r.0 == holds_from(f@, *ctx, start as int),
        r.1 as int == if start + bitrate_comparisons(f@).len() < ctx.bitrate_outcomes@.len() {
            start + bitrate_comparisons(f@).len()
        } else {
            ctx.bitrate_outcomes@.len() as int
        },
    decreases f,
{
    let n = ctx.bitrate_outcomes.len();
    match f {
        FilterType::Source(v) => (lower_contains(ctx.source_addr, v.as_str()), start),
        FilterType::Destination(v) => (lower_contains(ctx.destination_addr, v.as_str()), start),
        FilterType::Alias(v) => (lower_contains(ctx.alias, v.as_str()), start),
        FilterType::Cname(v) => match ctx.cname {
            Some(c) => (lower_contains(c, v.as_str()), start),
            None => (false, start),
        },
        FilterType::MeanBitrate(_) => {
            if start < n {
                (ctx.bitrate_outcomes[start], start + 1)
            } else {
                (false, start)
            }
        },
        FilterType::PacketCount(c) => (c.holds_for(ctx.packet_count), start),
        FilterType::And(l, r) => {
            let (a, mid) = holds_at(l, ctx, start);
            let (b, end) = holds_at(r, ctx, mid);
            proof {
                let k = start + bitrate_comparisons(l@).len();
                if k >= n {
                    lemma_past_outcomes(r@, *ctx, k, mid as int);
                }
            }
            (a && b, end)
        },
        FilterType::Or(l, r) => {
            let (a, mid) = holds_at(l, ctx, start);
            let (b, end) = holds_at(r, ctx, mid);
            proof {
                let k = start + bitrate_comparisons(l@).len();
                if k >= n {
                    lemma_past_outcomes(r@, *ctx, k, mid as int);
                }
            }
            (a || b, end)
        },
        FilterType::Not(e) => {
            let (a, end) = holds_at(e, ctx, start);
            (!a, end)
        },
    }
}

/// Lists into `out` the bitrate comparisons of `f`, from left to right.
fn push_bitrate_comparisons<'f>(f: &'f FilterType, out: &mut Vec<&'f ComparisonFilter<FloatLiteral>>)
    ensures
        final(out)@.map_values(|c: &ComparisonFilter<FloatLiteral>| c@) == old(out)@.map_values(
            |c: &ComparisonFilter<FloatLiteral>| c@,
        ) + bitrate_comparisons(f@),
    decreases f,
{
    let ghost before = out@.map_values(|c: &ComparisonFilter<FloatLiteral>| c@);
    match f {
        FilterType::MeanBitrate(c) => {
            out.push(c);
            assert(out@.map_values(|c: &ComparisonFilter<FloatLiteral>| c@) =~= before + seq![c@]);
        },
        FilterType::And(l, r) => {
            push_bitrate_comparisons(l, out);
            push_bitrate_comparisons(r, out);
            assert(before + bitrate_comparisons(l@) + bitrate_comparisons(r@) =~= before + (
            bitrate_comparisons(l@) + bitrate_comparisons(r@)));
        },
        FilterType::Or(l, r) => {
            push_bitrate_comparisons(l, out);
            push_bitrate_comparisons(r, out);
            assert(before + bitrate_comparisons(l@) + bitrate_comparisons(r@) =~= before + (
            bitrate_comparisons(l@) + bitrate_comparisons(r@)));
        },
        FilterType::Not(e) => push_bitrate_comparisons(e, out),
        _ => {
            assert(before + bitrate_comparisons(f@) =~= before);
        },
    }
}

impl FilterType {
    /// The bitrate comparisons of this filter, from left to right: the
    /// comparisons whose outcomes [`FilterContext::bitrate_outcomes`] holds.
    pub fn bitrate_comparisons(&self) -> (r: Vec<&ComparisonFilter<FloatLiteral>>)
        ensures
            r@.map_values(|c: &ComparisonFilter<FloatLiteral>| c@) == bitrate_comparisons(self@),
    {
        let mut out: Vec<&ComparisonFilter<FloatLiteral>> = Vec::new();
        push_bitrate_comparisons(self, &mut out);
        assert(Seq::<&ComparisonFilter<FloatLiteral>>::empty().map_values(
            |c: &ComparisonFilter<FloatLiteral>| c@,
        ) + bitrate_comparisons(self@) =~= bitrate_comparisons(self@));
        out
    }
}

impl<'a> FilterExpression<'a> for FilterType {
    type Context = FilterContext<'a>;

    open spec fn spec_matches(f: FilterView, ctx: &FilterContext<'a>) -> bool {
        holds(f, *ctx)
    }

    fn matches(&self, ctx: &FilterContext<'a>) -> (r: bool) {
        let (r, _) = holds_at(self, ctx, 0);
        r
    }
}

/// What each single filter keeps: `source:v`, `dest:v`, `alias:v` and
/// `cname:v` a stream whose lower-cased source address, destination
/// address, alias or CNAME contains `v` (a stream without CNAME fails
/// `cname:`); `packets:c` a stream whose packet count satisfies `c`; and a
/// lone `bitrate:` comparison the first outcome handed in.
pub proof fn lemma_single_filters<'a>(
    ctx: FilterContext<'a>,
    v: Seq<char>,
    c: ComparisonView<u32>,
    b: ComparisonView<Seq<char>>,
)
    ensures
        <FilterType as FilterExpression<'a>>::spec_matches(FilterView::Source(v), &ctx)
            == has_substring(lowercased(ctx.source_addr@), v),
        <FilterType as FilterExpression<'a>>::spec_matches(FilterView::Destination(v), &ctx)
            == has_substring(lowercased(ctx.destination_addr@), v),
        <FilterType as FilterExpression<'a>>::spec_matches(FilterView::Alias(v), &ctx)
            == has_substring(lowercased(ctx.alias@), v),
        <FilterType as FilterExpression<'a>>::spec_matches(FilterView::Cname(v), &ctx) == (
        ctx.cname is Some && has_substring(lowercased(ctx.cname->0@), v)),
        <FilterType as FilterExpression<'a>>::spec_matches(FilterView::PacketCount(c), &ctx)
            == compares_u32(ctx.packet_count, c),
        <FilterType as FilterExpression<'a>>::spec_matches(FilterView::MeanBitrate(b), &ctx) == (
        ctx.bitrate_outcomes@.len() > 0 && ctx.bitrate_outcomes@[0]),
{
}

/// What each `key:value` filter stands for: the filter it denotes when its
/// value is acceptable, and an error otherwise.
pub proof fn lemma_filter_keys(v: Seq<char>)
    ensures
        <FilterType as FilterParser>::spec_parse_filter_value("source"@, v) == Ok::<FilterView, ParseErrorView>(FilterView::Source(crate::text::lowercased(v))),
        <FilterType as FilterParser>::spec_parse_filter_value("dest"@, v) == Ok::<FilterView, ParseErrorView>(FilterView::Destination(crate::text::lowercased(v))),
        <FilterType as FilterParser>::spec_parse_filter_value("alias"@, v) == Ok::<FilterView, ParseErrorView>(FilterView::Alias(crate::text::lowercased(v))),
        <FilterType as FilterParser>::spec_parse_filter_value("cname"@, v) == Ok::<FilterView, ParseErrorView>(FilterView::Cname(crate::text::lowercased(v))),
        spec_comparison::<FloatLiteral>(v) is Some ==> <FilterType as FilterParser>::spec_parse_filter_value(
            "bitrate"@,
            v,
        ) == Ok::<FilterView, ParseErrorView>(FilterView::MeanBitrate(spec_comparison::<FloatLiteral>(v)->0)),
        !(spec_comparison::<FloatLiteral>(v) is Some) ==> <FilterType as FilterParser>::spec_parse_filter_value("bitrate"@, v) is Err,
        spec_comparison::<u32>(v) is Some ==> <FilterType as FilterParser>::spec_parse_filter_value(
            "packets"@,
            v,
        ) == Ok::<FilterView, ParseErrorView>(FilterView::PacketCount(spec_comparison::<u32>(v)->0)),
        !(spec_comparison::<u32>(v) is Some) ==> <FilterType as FilterParser>::spec_parse_filter_value("packets"@, v) is Err,
{
    reveal_strlit("source");
    reveal_strlit("dest");
    reveal_strlit("alias");
    reveal_strlit("cname");
    reveal_strlit("bitrate");
    reveal_strlit("packets");
    crate::text::lemma_trim_unchanged("source"@);
    crate::text::lemma_trim_unchanged("dest"@);
    crate::text::lemma_trim_unchanged("alias"@);
    crate::text::lemma_trim_unchanged("cname"@);
    crate::text::lemma_trim_unchanged("bitrate"@);
    crate::text::lemma_trim_unchanged("packets"@);
}

} // verus!
