//! Filters for the MPEG-TS substreams table.
//!
//! - `alias:value`: the lower-cased stream alias contains the (lower-cased)
//!   value, which must not be empty
//! - `program:N`: the program number is `N`
//! - `source:value`, `dest:value`: the lower-cased address contains the
//!   value, which must contain a `.`
//! - `fragments:...`: a comparison on the number of fragments
//! - `duration:...`, `bitrate:...`, `fragmentrate:...`: comparisons on the
//!   duration in seconds, the mean bitrate in kbit/s and the fragment rate,
//!   whose numbers are kept as the text `f64` reads
//!
//! Durations, bitrates and rates are floating-point measures: the caller
//! compares each with the comparisons that a filter makes of it (listed by
//! [`FilterType::measure_comparisons`]) and hands the outcomes in; the text,
//! count and `AND`/`OR`/`NOT` logic is decided here.
use vstd::prelude::*;
use crate::filter_system::comparison::{
    compares_usize, spec_comparison, ComparisonFilter, ComparisonView, FloatLiteral,
};
use crate::filter_system::error::{
    result_view, syntax_error, syntax_error_around, ParseError, ParseErrorView,
};
use crate::filter_system::parser::spec_parse_filter;
use crate::filter_system::traits::{
    CommonFilterParser, FilterCombinator, FilterExpression, FilterParser,
};
use crate::text::{
    contains_char, has_substring, lower_contains, parse_u16, spec_parse_u16, str_eq,
    lowercased, str_trim, to_lowercase, trim,
};

verus! {

pub const INVALID_ALIAS: &'static str = "Alias filter cannot be empty (e.g. alias:stream_a)";

pub const INVALID_SOURCE: &'static str = "Invalid IP address format (e.g. source:192.168.1.1)";

pub const INVALID_DEST: &'static str = "Invalid IP address format (e.g. dest:192.168.1.1)";

pub const INVALID_FRAGMENTS: &'static str = "Invalid fragments filter format (e.g. fragments:>100)";

pub const INVALID_DURATION: &'static str = "Invalid duration filter format (e.g. duration:>10.5)";

pub const INVALID_BITRATE: &'static str = "Invalid bitrate filter format (e.g. bitrate:>1000)";

pub const INVALID_FRAGMENT_RATE: &'static str =
    "Invalid fragment rate filter format (e.g. fragmentrate:>30)";

pub const UNKNOWN_LEAD: &'static str = "Unknown filter type: '";

pub const UNKNOWN_TAIL: &'static str = "'.\nAvailable filters:\n\
                 - alias: Stream alias filter\n\
                 - program: Program number filter\n\
                 - source: Source IP filter\n\
                 - dest: Destination IP filter\n\
                 - fragments: Number of fragments filter\n\
                 - duration: Stream duration filter (seconds)\n\
                 - bitrate: Mean bitrate filter (kbps)\n\
                 - fragmentrate: Fragment rate filter (per second)";

/// A filter over MPEG-TS substreams.
pub enum FilterType {
    Alias(String),
    Program(u16),
    Source(String),
    Destination(String),
    Fragments(ComparisonFilter<usize>),
    Duration(ComparisonFilter<FloatLiteral>),
    Bitrate(ComparisonFilter<FloatLiteral>),
    FragmentRate(ComparisonFilter<FloatLiteral>),
    And(Box<FilterType>, Box<FilterType>),
    Or(Box<FilterType>, Box<FilterType>),
    Not(Box<FilterType>),
}

/// A [`FilterType`] with its texts as characters.
pub enum FilterView {
    Alias(Seq<char>),
    Program(u16),
    Source(Seq<char>),
    Destination(Seq<char>),
    Fragments(ComparisonView<usize>),
    Duration(ComparisonView<Seq<char>>),
    Bitrate(ComparisonView<Seq<char>>),
    FragmentRate(ComparisonView<Seq<char>>),
    And(Box<FilterView>, Box<FilterView>),
    Or(Box<FilterView>, Box<FilterView>),
    Not(Box<FilterView>),
}

pub open spec fn filter_view(f: FilterType) -> FilterView
    decreases f,
{
    match f {
        FilterType::Alias(s) => FilterView::Alias(s@),
        FilterType::Program(n) => FilterView::Program(n),
        FilterType::Source(s) => FilterView::Source(s@),
        FilterType::Destination(s) => FilterView::Destination(s@),
        FilterType::Fragments(c) => FilterView::Fragments(c@),
        FilterType::Duration(c) => FilterView::Duration(c@),
        FilterType::Bitrate(c) => FilterView::Bitrate(c@),
        FilterType::FragmentRate(c) => FilterView::FragmentRate(c@),
        FilterType::And(l, r) => FilterView::And(Box::new(filter_view(*l)), Box::new(filter_view(*r))),
        FilterType::Or(l, r) => FilterView::Or(Box::new(filter_view(*l)), Box::new(filter_view(*r))),
        FilterType::Not(e) => FilterView::Not(Box::new(filter_view(*e))),
    }
}

impl View for FilterType {
    type V = FilterView;

    open spec fn view(&self) -> FilterView {
        filter_view(*self)
    }
}

/// The filter that `prefix:value` denotes.
pub open spec fn filter_from(prefix: Seq<char>, value: Seq<char>) -> Result<FilterView, ParseErrorView> {
    let key = str_trim(prefix);
    let lower = lowercased(value);
    if key == "alias"@ {
        if value.len() > 0 {
            Ok(FilterView::Alias(lower))
        } else {
            Err(ParseErrorView::InvalidSyntax(INVALID_ALIAS@))
        }
    } else if key == "program"@ {
        match spec_parse_u16(value) {
            Some(n) => Ok(FilterView::Program(n)),
            None => Err(ParseErrorView::InvalidSyntax("Invalid program number"@)),
        }
    } else if key == "source"@ {
        if value.contains('.') {
            Ok(FilterView::Source(lower))
        } else {
            Err(ParseErrorView::InvalidSyntax(INVALID_SOURCE@))
        }
    } else if key == "dest"@ {
        if value.contains('.') {
            Ok(FilterView::Destination(lower))
        } else {
            Err(ParseErrorView::InvalidSyntax(INVALID_DEST@))
        }
    } else if key == "fragments"@ {
        match spec_comparison::<usize>(value) {
            Some(c) => Ok(FilterView::Fragments(c)),
            None => Err(ParseErrorView::InvalidSyntax(INVALID_FRAGMENTS@)),
        }
    } else if key == "duration"@ {
        match spec_comparison::<FloatLiteral>(value) {
            Some(c) => Ok(FilterView::Duration(c)),
            None => Err(ParseErrorView::InvalidSyntax(INVALID_DURATION@)),
        }
    } else if key == "bitrate"@ {
        match spec_comparison::<FloatLiteral>(value) {
            Some(c) => Ok(FilterView::Bitrate(c)),
            None => Err(ParseErrorView::InvalidSyntax(INVALID_BITRATE@)),
        }
    } else if key == "fragmentrate"@ {
        match spec_comparison::<FloatLiteral>(value) {
            Some(c) => Ok(FilterView::FragmentRate(c)),
            None => Err(ParseErrorView::InvalidSyntax(INVALID_FRAGMENT_RATE@)),
        }
    } else {
        Err(ParseErrorView::InvalidSyntax(UNKNOWN_LEAD@ + key + UNKNOWN_TAIL@))
    }
}

impl CommonFilterParser for FilterType {
    open spec fn spec_not(expr: FilterView) -> FilterView {
        FilterView::Not(Box::new(expr))
    }

    fn not(expr: Self) -> (r: Self) {
        FilterType::Not(Box::new(expr))
    }
}

impl<'a> FilterCombinator<'a> for FilterType {
    open spec fn spec_and(left: FilterView, right: FilterView) -> FilterView {
        FilterView::And(Box::new(left), Box::new(right))
    }

    open spec fn spec_or(left: FilterView, right: FilterView) -> FilterView {
        FilterView::Or(Box::new(left), Box::new(right))
    }

    fn and(left: Self, right: Self) -> (r: Self) {
        FilterType::And(Box::new(left), Box::new(right))
    }

    fn or(left: Self, right: Self) -> (r: Self) {
        FilterType::Or(Box::new(left), Box::new(right))
    }
}

/// Parses a filter for the MPEG-TS substreams table.
pub fn parse_filter(filter: &str) -> (r: Result<FilterType, ParseError>)
    ensures
        result_view(r) == spec_parse_filter::<FilterType>(filter@),
{
    crate::filter_system::parse_filter(filter)
}

impl FilterParser for FilterType {
    open spec fn spec_parse_filter_value(prefix: Seq<char>, value: Seq<char>) -> Result<
        FilterView,
        ParseErrorView,
    > {
        filter_from(prefix, value)
    }

    fn parse_filter_value(prefix: &str, value: &str) -> (r: Result<Self, ParseError>) {
        let key = trim(prefix);
        if str_eq(key, "alias") {
            if !value.is_empty() {
                Ok(FilterType::Alias(to_lowercase(value)))
            } else {
                Err(syntax_error(INVALID_ALIAS))
            }
        } else if str_eq(key, "program") {
            match parse_u16(value) {
                Some(n) => Ok(FilterType::Program(n)),
                None => Err(syntax_error("Invalid program number")),
            }
        } else if str_eq(key, "source") {
            if contains_char(value, '.') {
                Ok(FilterType::Source(to_lowercase(value)))
            } else {
                Err(syntax_error(INVALID_SOURCE))
            }
        } else if str_eq(key, "dest") {
            if contains_char(value, '.') {
                Ok(FilterType::Destination(to_lowercase(value)))
            } else {
                Err(syntax_error(INVALID_DEST))
            }
        } else if str_eq(key, "fragments") {
            match ComparisonFilter::<usize>::parse(value) {
                Some(c) => Ok(FilterType::Fragments(c)),
                None => Err(syntax_error(INVALID_FRAGMENTS)),
            }
        } else if str_eq(key, "duration") {
            match ComparisonFilter::<FloatLiteral>::parse(value) {
                Some(c) => Ok(FilterType::Duration(c)),
                None => Err(syntax_error(INVALID_DURATION)),
            }
        } else if str_eq(key, "bitrate") {
            match ComparisonFilter::<FloatLiteral>::parse(value) {
                Some(c) => Ok(FilterType::Bitrate(c)),
                None => Err(syntax_error(INVALID_BITRATE)),
            }
        } else if str_eq(key, "fragmentrate") {
            match ComparisonFilter::<FloatLiteral>::parse(value) {
                Some(c) => Ok(FilterType::FragmentRate(c)),
                None => Err(syntax_error(INVALID_FRAGMENT_RATE)),
            }
        } else {
            Err(syntax_error_around(UNKNOWN_LEAD, key, UNKNOWN_TAIL))
        }
    }
}

/// A floating-point measure of a substream.
#[derive(Debug, Clone, Copy, PartialEq, Eq, Structural)]
pub enum Measure {
    /// The duration in seconds.
    Duration,
    /// The mean frame bitrate in kbit/s.
    Bitrate,
    /// The mean fragment rate per second.
    FragmentRate,
}

/// What a filter reads of a substream. `measure_outcomes[i]` is whether the
/// substream's measure satisfies the `i`-th comparison of
/// [`FilterType::measure_comparisons`].
pub struct FilterContext<'a> {
    pub stream_alias: &'a str,
    pub program_number: u16,
    pub source_addr: &'a str,
    pub destination_addr: &'a str,
    pub fragment_count: usize,
    pub measure_outcomes: &'a [bool],
}

/// The comparisons that a filter makes of floating-point measures, from left
/// to right.
pub open spec fn measure_comparisons(f: FilterView) -> Seq<(Measure, ComparisonView<Seq<char>>)>
    decreases f,
{
    match f {
        FilterView::Duration(c) => seq![(Measure::Duration, c)],
        FilterView::Bitrate(c) => seq![(Measure::Bitrate, c)],
        FilterView::FragmentRate(c) => seq![(Measure::FragmentRate, c)],
        FilterView::And(l, r) => measure_comparisons(*l) + measure_comparisons(*r),
        FilterView::Or(l, r) => measure_comparisons(*l) + measure_comparisons(*r),
        FilterView::Not(e) => measure_comparisons(*e),
        _ => Seq::empty(),
    }
}

/// The outcome at `start`, or `false` where there is none.
pub open spec fn outcome_at(ctx: FilterContext, start: int) -> bool {
    0 <= start < ctx.measure_outcomes@.len() && ctx.measure_outcomes@[start]
}

/// Whether a filter holds of a substream when the outcome of its `k`-th
/// measure comparison is `ctx.measure_outcomes[start + k]`; a comparison
/// with no outcome there does not hold.
pub open spec fn holds_from(f: FilterView, ctx: FilterContext, start: int) -> bool
    decreases f,
{
    match f {
        FilterView::Alias(v) => has_substring(lowercased(ctx.stream_alias@), v),
        FilterView::Program(n) => ctx.program_number == n,
        FilterView::Source(v) => has_substring(lowercased(ctx.source_addr@), v),
        FilterView::Destination(v) => has_substring(lowercased(ctx.destination_addr@), v),
        FilterView::Fragments(c) => compares_usize(ctx.fragment_count, c),
        FilterView::Duration(_) => outcome_at(ctx, start),
        FilterView::Bitrate(_) => outcome_at(ctx, start),
        FilterView::FragmentRate(_) => outcome_at(ctx, start),
        FilterView::And(l, r) => holds_from(*l, ctx, start) && holds_from(
            *r,
            ctx,
            start + measure_comparisons(*l).len(),
        ),
        FilterView::Or(l, r) => holds_from(*l, ctx, start) || holds_from(
            *r,
            ctx,
            start + measure_comparisons(*l).len(),
        ),
        FilterView::Not(e) => !holds_from(*e, ctx, start),
    }
}

/// Whether a filter holds of a substream.
pub open spec fn holds(f: FilterView, ctx: FilterContext) -> bool {
    holds_from(f, ctx, 0)
}

/// Past the last outcome every measure comparison fails, wherever reading
/// starts.
proof fn lemma_past_outcomes(f: FilterView, ctx: FilterContext, i: int, j: int)
    requires
        i >= ctx.measure_outcomes@.len(),
        j >= ctx.measure_outcomes@.len(),
    ensures
        holds_from(f, ctx, i) == holds_from(f, ctx, j),
    decreases f,
{
    match f {
        FilterView::And(l, r) => {
            lemma_past_outcomes(*l, ctx, i, j);
            let n = measure_comparisons(*l).len();
            lemma_past_outcomes(*r, ctx, i + n, j + n);
        },
        FilterView::Or(l, r) => {
            lemma_past_outcomes(*l, ctx, i, j);
            let n = measure_comparisons(*l).len();
            lemma_past_outcomes(*r, ctx, i + n, j + n);
        },
        FilterView::Not(e) => lemma_past_outcomes(*e, ctx, i, j),
        _ => {},
    }
}

/// Reads the outcome at `start` and moves past it.
fn next_outcome(ctx: &FilterContext, start: usize) -> (r: (bool, usize))
    requires
        start <= ctx.measure_outcomes@.len(),
    ensures
        r.0 == outcome_at(*ctx, start as int),
        r.1 as int == if start + 1 < ctx.measure_outcomes@.len() {
            start + 1
        } else {
            ctx.measure_outcomes@.len() as int
        },
{
    if start < ctx.measure_outcomes.len() {
        (ctx.measure_outcomes[start], start + 1)
    } else {
        (false, start)
    }
}

/// Two rows that differ at most in their outcomes agree on a filter that
/// makes no measure comparison, wherever reading starts.
proof fn lemma_outcomes_unread(f: FilterView, a: FilterContext, b: FilterContext, i: int, j: int)
    requires
        measure_comparisons(f).len() == 0,
        a.stream_alias == b.stream_alias,
        a.program_number == b.program_number,
        a.source_addr == b.source_addr,
        a.destination_addr == b.destination_addr,
        a.fragment_count == b.fragment_count,
    ensures
        holds_from(f, a, i) == holds_from(f, b, j),
    decreases f,
{
    match f {
        FilterView::And(l, r) => {
            lemma_outcomes_unread(*l, a, b, i, j);
            lemma_outcomes_unread(*r, a, b, i, j);
        },
        FilterView::Or(l, r) => {
            lemma_outcomes_unread(*l, a, b, i, j);
            lemma_outcomes_unread(*r, a, b, i, j);
        },
        FilterView::Not(e) => lemma_outcomes_unread(*e, a, b, i, j),
        _ => {},
    }
}

/// The outcomes handed in serve the measure comparisons alone: a filter that
/// makes none holds of a row whatever the outcomes.
pub proof fn lemma_outcomes_serve_measures_only(f: FilterView, a: FilterContext, b: FilterContext)
    requires
        measure_comparisons(f).len() == 0,
        a.stream_alias == b.stream_alias,
        a.program_number == b.program_number,
        a.source_addr == b.source_addr,
        a.destination_addr == b.destination_addr,
        a.fragment_count == b.fragment_count,
    ensures
        holds(f, a) == holds(f, b),
{
    lemma_outcomes_unread(f, a, b, 0, 0);
}

/// Decides [`holds_from`] and says where the next filter's outcomes start
/// (no further than the end of the outcomes).
fn holds_at(f: &FilterType, ctx: &FilterContext, start: usize) -> (r: (bool, usize))
    requires
        start <= ctx.measure_outcomes@.len(),
    ensures
        r.0 == holds_from(f@, *ctx, start as int),
        r.1 as int == if start + measure_comparisons(f@).len() < ctx.measure_outcomes@.len() {
            start + measure_comparisons(f@).len()
        } else {
            ctx.measure_outcomes@.len() as int
        },
    decreases f,
{
    let n = ctx.measure_outcomes.len();
    match f {
        FilterType::Alias(v) => (lower_contains(ctx.stream_alias, v.as_str()), start),
        FilterType::Program(p) => (ctx.program_number == *p, start),
        FilterType::Source(v) => (lower_contains(ctx.source_addr, v.as_str()), start),
        FilterType::Destination(v) => (lower_contains(ctx.destination_addr, v.as_str()), start),
        FilterType::Fragments(c) => (c.holds_for(ctx.fragment_count), start),
        FilterType::Duration(_) => next_outcome(ctx, start),
        FilterType::Bitrate(_) => next_outcome(ctx, start),
        FilterType::FragmentRate(_) => next_outcome(ctx, start),
        FilterType::And(l, r) => {
            let (a, mid) = holds_at(l, ctx, start);
            let (b, end) = holds_at(r, ctx, mid);
            proof {
                let k = start + measure_comparisons(l@).len();
                if k >= n {
                    lemma_past_outcomes(r@, *ctx, k, mid as int);
                }
            }
            (a && b, end)
        },
        FilterType::Or(l, r) => {
            let (a, mid) = holds_at(l, ctx, start);
            let (b, end) = holds_at(r, ctx, mid);
            proof {
                let k = start + measure_comparisons(l@).len();
                if k >= n {
                    lemma_past_outcomes(r@, *ctx, k, mid as int);
                }
            }
            (a || b, end)
        },
        FilterType::Not(e) => {
            let (a, end) = holds_at(e, ctx, start);
            (!a, end)
        },
    }
}

/// A listed comparison taken by its view.
pub open spec fn comparison_view(p: (Measure, &ComparisonFilter<FloatLiteral>)) -> (
    Measure,
    ComparisonView<Seq<char>>,
) {
    (p.0, p.1@)
}

/// Lists into `out` the measure comparisons of `f`, from left to right.
fn push_measure_comparisons<'f>(
    f: &'f FilterType,
    out: &mut Vec<(Measure, &'f ComparisonFilter<FloatLiteral>)>,
)
    ensures
        final(out)@.map_values(|p| comparison_view(p)) == old(out)@.map_values(
            |p| comparison_view(p),
        ) + measure_comparisons(f@),
    decreases f,
{
    let ghost before = out@.map_values(|p| comparison_view(p));
    match f {
        FilterType::Duration(c) => {
            out.push((Measure::Duration, c));
            assert(out@.map_values(|p| comparison_view(p)) =~= before + measure_comparisons(f@));
        },
        FilterType::Bitrate(c) => {
            out.push((Measure::Bitrate, c));
            assert(out@.map_values(|p| comparison_view(p)) =~= before + measure_comparisons(f@));
        },
        FilterType::FragmentRate(c) => {
            out.push((Measure::FragmentRate, c));
            assert(out@.map_values(|p| comparison_view(p)) =~= before + measure_comparisons(f@));
        },
        FilterType::And(l, r) => {
            push_measure_comparisons(l, out);
            push_measure_comparisons(r, out);
            assert(before + measure_comparisons(l@) + measure_comparisons(r@) =~= before + (
            measure_comparisons(l@) + measure_comparisons(r@)));
        },
        FilterType::Or(l, r) => {
            push_measure_comparisons(l, out);
            push_measure_comparisons(r, out);
            assert(before + measure_comparisons(l@) + measure_comparisons(r@) =~= before + (
            measure_comparisons(l@) + measure_comparisons(r@)));
        },
        FilterType::Not(e) => push_measure_comparisons(e, out),
        _ => {
            assert(before + measure_comparisons(f@) =~= before);
        },
    }
}

impl FilterType {
    /// The comparisons that this filter makes of floating-point measures,
    /// from left to right: the comparisons whose outcomes
    /// [`FilterContext::measure_outcomes`] holds.
    pub fn measure_comparisons(&self) -> (r: Vec<(Measure, &ComparisonFilter<FloatLiteral>)>)
        ensures
            r@.map_values(|p| comparison_view(p)) == measure_comparisons(self@),
    {
        let mut out: Vec<(Measure, &ComparisonFilter<FloatLiteral>)> = Vec::new();
        push_measure_comparisons(self, &mut out);
        assert(Seq::<(Measure, &ComparisonFilter<FloatLiteral>)>::empty().map_values(
            |p| comparison_view(p),
        ) + measure_comparisons(self@) =~= measure_comparisons(self@));
        out
    }
}

impl<'a> FilterExpression<'a> for FilterType {
    type Context = FilterContext<'a>;

    open spec fn spec_matches(f: FilterView, ctx: &FilterContext<'a>) -> bool {
        holds(f, *ctx)
    }

    fn matches(&self, ctx: &FilterContext<'a>) -> (r: bool) {
        let (r, _) = holds_at(self, ctx, 0);
        r
    }
}

/// What each single filter keeps: `alias:v`, `source:v` and `dest:v` a
/// substream whose lower-cased alias, source or destination address
/// contains `v`; `program:p` one of program `p`; `fragments:c` one whose
/// number of fragments satisfies `c`; and a lone duration, bitrate or
/// fragment-rate comparison the first outcome handed in.
pub proof fn lemma_single_filters<'a>(
    ctx: FilterContext<'a>,
    v: Seq<char>,
    p: u16,
    c: ComparisonView<usize>,
    b: ComparisonView<Seq<char>>,
)
    ensures
        <FilterType as FilterExpression<'a>>::spec_matches(FilterView::Alias(v), &ctx) == crate::text::has_substring(crate::text::lowercased(ctx.stream_alias@), v),
        <FilterType as FilterExpression<'a>>::spec_matches(FilterView::Program(p), &ctx) == (ctx.program_number == p),
        <FilterType as FilterExpression<'a>>::spec_matches(FilterView::Source(v), &ctx) == crate::text::has_substring(crate::text::lowercased(ctx.source_addr@), v),
        <FilterType as FilterExpression<'a>>::spec_matches(FilterView::Destination(v), &ctx) == crate::text::has_substring(crate::text::lowercased(ctx.destination_addr@), v),
        <FilterType as FilterExpression<'a>>::spec_matches(FilterView::Fragments(c), &ctx) == compares_usize(ctx.fragment_count, c),
        <FilterType as FilterExpression<'a>>::spec_matches(FilterView::Duration(b), &ctx) == (ctx.measure_outcomes@.len() > 0
            && ctx.measure_outcomes@[0]),
        <FilterType as FilterExpression<'a>>::spec_matches(FilterView::Bitrate(b), &ctx) == (ctx.measure_outcomes@.len() > 0
            && ctx.measure_outcomes@[0]),
        <FilterType as FilterExpression<'a>>::spec_matches(FilterView::FragmentRate(b), &ctx) == (ctx.measure_outcomes@.len() > 0
            && ctx.measure_outcomes@[0]),
{
}

/// What each `key:value` filter stands for: the filter it denotes when its
/// value is acceptable, and an error otherwise.
pub proof fn lemma_filter_keys(v: Seq<char>)
    ensures
        v.len() > 0 ==> <FilterType as FilterParser>::spec_parse_filter_value(
            "alias"@,
            v,
        ) == Ok::<FilterView, ParseErrorView>(FilterView::Alias(crate::text::lowercased(v))),
        !(v.len() > 0) ==> <FilterType as FilterParser>::spec_parse_filter_value("alias"@, v) is Err,
        spec_parse_u16(v) is Some ==> <FilterType as FilterParser>::spec_parse_filter_value(
            "program"@,
            v,
        ) == Ok::<FilterView, ParseErrorView>(FilterView::Program(spec_parse_u16(v)->0)),
        !(spec_parse_u16(v) is Some) ==> <FilterType as FilterParser>::spec_parse_filter_value("program"@, v) is Err,
        v.contains('.') ==> <FilterType as FilterParser>::spec_parse_filter_value(
            "source"@,
            v,
        ) == Ok::<FilterView, ParseErrorView>(FilterView::Source(crate::text::lowercased(v))),
        !(v.contains('.')) ==> <FilterType as FilterParser>::spec_parse_filter_value("source"@, v) is Err,
        v.contains('.') ==> <FilterType as FilterParser>::spec_parse_filter_value(
            "dest"@,
            v,
        ) == Ok::<FilterView, ParseErrorView>(FilterView::Destination(crate::text::lowercased(v))),
        !(v.contains('.')) ==> <FilterType as FilterParser>::spec_parse_filter_value("dest"@, v) is Err,
        spec_comparison::<usize>(v) is Some ==> <FilterType as FilterParser>::spec_parse_filter_value(
            "fragments"@,
            v,
        ) == Ok::<FilterView, ParseErrorView>(FilterView::Fragments(spec_comparison::<usize>(v)->0)),
        !(spec_comparison::<usize>(v) is Some) ==> <FilterType as FilterParser>::spec_parse_filter_value("fragments"@, v) is Err,
        spec_comparison::<FloatLiteral>(v) is Some ==> <FilterType as FilterParser>::spec_parse_filter_value(
            "duration"@,
            v,
        ) == Ok::<FilterView, ParseErrorView>(FilterView::Duration(spec_comparison::<FloatLiteral>(v)->0)),
        !(spec_comparison::<FloatLiteral>(v) is Some) ==> <FilterType as FilterParser>::spec_parse_filter_value("duration"@, v) is Err,
        spec_comparison::<FloatLiteral>(v) is Some ==> <FilterType as FilterParser>::spec_parse_filter_value(
            "bitrate"@,
            v,
        ) == Ok::<FilterView, ParseErrorView>(FilterView::Bitrate(spec_comparison::<FloatLiteral>(v)->0)),
        !(spec_comparison::<FloatLiteral>(v) is Some) ==> <FilterType as FilterParser>::spec_parse_filter_value("bitrate"@, v) is Err,
        spec_comparison::<FloatLiteral>(v) is Some ==> <FilterType as FilterParser>::spec_parse_filter_value(
            "fragmentrate"@,
            v,
        ) == Ok::<FilterView, ParseErrorView>(FilterView::FragmentRate(spec_comparison::<FloatLiteral>(v)->0)),
        !(spec_comparison::<FloatLiteral>(v) is Some) ==> <FilterType as FilterParser>::spec_parse_filter_value("fragmentrate"@, v) is Err,
{
    reveal_strlit("alias");
    reveal_strlit("program");
    reveal_strlit("source");
    reveal_strlit("dest");
    reveal_strlit("fragments");
    reveal_strlit("duration");
    reveal_strlit("bitrate");
    reveal_strlit("fragmentrate");
    crate::text::lemma_trim_unchanged("alias"@);
    crate::text::lemma_trim_unchanged("program"@);
    crate::text::lemma_trim_unchanged("source"@);
    crate::text::lemma_trim_unchanged("dest"@);
    crate::text::lemma_trim_unchanged("fragments"@);
    crate::text::lemma_trim_unchanged("duration"@);
    crate::text::lemma_trim_unchanged("bitrate"@);
    crate::text::lemma_trim_unchanged("fragmentrate"@);
}

} // verus!
