//! Filters over MPEG-TS packets.
//!
//! - `source:value`, `dest:value`: the lower-cased address contains the
//!   (lower-cased) value
//! - `pid:N`: some fragment carries PID `N`
//! - `fragments:...` or `frags:...`: a comparison on the number of fragments
//!
//! A blank value is refused.
use vstd::prelude::*;
use crate::filter_system::comparison::{
    compares_usize, spec_comparison, ComparisonFilter, ComparisonValue, ComparisonView,
};
use crate::filter_system::error::{
    empty_value_error, empty_value_message, result_view, syntax_error, ParseError, ParseErrorView,
};
use crate::filter_system::lexer::{
    lemma_lex_char, lemma_lex_run_concat, lemma_lex_state_run, lemma_lex_word,
    lemma_operators_lowercased, lex, lex_run,
};
use crate::filter_system::parser::{
    lemma_scan_plain, paren_scan, spec_expression, spec_operators, spec_parse_filter, spec_primary,
};
use crate::filter_system::types::TokenView;
use crate::filter_system::traits::{
    CommonFilterParser, FilterCombinator, FilterExpression, FilterLogic, FilterParser,
};
use crate::packet::{fragments_have_pid, has_pid, MpegtsPacketFields, PacketFields};
use crate::text::{
    ascii_lowered, has_substring, is_ascii_text, lemma_lowercased_unchanged, lemma_trim_unchanged,
    lower_contains, lowercased,
    parse_u16, spec_parse_u16, str_eq, str_trim, to_lowercase, trim,
};

verus! {

pub const INVALID_FRAGMENTS: &'static str = "Invalid fragments filter format.\nExamples:\n\
                         - fragments:7 (exact match)\n\
                         - fragments:>5 (greater than)\n\
                         - fragments:<10 (less than)";

pub const UNKNOWN_FILTER: &'static str = "Unknown filter type.\nAvailable filters:\n\
                - source: Match source IP (e.g., source:192.168)\n\
                - dest: Match destination IP (e.g., dest:10.0.0)\n\
                - pid: Match PID (e.g., pid:100)\n\
                - fragments: Match fragment count (e.g., fragments:>5)";

pub const FILTER_HELP: &'static str = r#"MPEG-TS Packets Filter Help:
    
• source:<ip> - Filter by source IP address
• dest:<ip> - Filter by destination IP address  
• pid:<number> - Filter by PID
• fragments:<num> - Filter by fragment count
• fragments:>N - More than N fragments
• fragments:<N - Less than N fragments

Operators: AND, OR, NOT, parentheses

Examples:
• source:192.168 AND pid:100
• fragments:>5 OR pid:0
• NOT dest:10.0.0.1"#;

/// The row a filter is checked against.
pub struct FilterContext<'a> {
    pub packet: &'a PacketFields,
    pub mpegts: &'a MpegtsPacketFields,
}

/// A filter over MPEG-TS packets.
pub enum FilterType {
    Source(String),
    Destination(String),
    Pid(u16),
    Fragments(ComparisonFilter<usize>),
    And(Box<FilterType>, Box<FilterType>),
    Or(Box<FilterType>, Box<FilterType>),
    Not(Box<FilterType>),
}

/// A [`FilterType`] with its texts as characters.
pub enum FilterView {
    Source(Seq<char>),
    Destination(Seq<char>),
    Pid(u16),
    Fragments(ComparisonView<usize>),
    And(Box<FilterView>, Box<FilterView>),
    Or(Box<FilterView>, Box<FilterView>),
    Not(Box<FilterView>),
}

pub open spec fn filter_view(f: FilterType) -> FilterView
    decreases f,
{
    match f {
        FilterType::Source(s) => FilterView::Source(s@),
        FilterType::Destination(s) => FilterView::Destination(s@),
        FilterType::Pid(n) => FilterView::Pid(n),
        FilterType::Fragments(c) => FilterView::Fragments(c@),
        FilterType::And(l, r) => FilterView::And(Box::new(filter_view(*l)), Box::new(filter_view(*r))),
        FilterType::Or(l, r) => FilterView::Or(Box::new(filter_view(*l)), Box::new(filter_view(*r))),
        FilterType::Not(e) => FilterView::Not(Box::new(filter_view(*e))),
    }
}

impl View for FilterType {
    type V = FilterView;

    open spec fn view(&self) -> FilterView {
        filter_view(*self)
    }
}

/// The filter that `prefix:value` denotes.
pub open spec fn filter_from(prefix: Seq<char>, value: Seq<char>) -> Result<FilterView, ParseErrorView> {
    let key = str_trim(prefix);
    if str_trim(value).len() == 0 {
        Err(ParseErrorView::InvalidSyntax(empty_value_message(prefix)))
    } else if key == "source"@ {
        Ok(FilterView::Source(lowercased(value)))
    } else if key == "dest"@ {
        Ok(FilterView::Destination(lowercased(value)))
    } else if key == "pid"@ {
        match spec_parse_u16(value) {
            Some(n) => Ok(FilterView::Pid(n)),
            None => Err(ParseErrorView::InvalidSyntax("Invalid PID value"@)),
        }
    } else if key == "fragments"@ || key == "frags"@ {
        match spec_comparison::<usize>(value) {
            Some(c) => Ok(FilterView::Fragments(c)),
            None => Err(ParseErrorView::InvalidSyntax(INVALID_FRAGMENTS@)),
        }
    } else {
        Err(ParseErrorView::InvalidSyntax(UNKNOWN_FILTER@))
    }
}

/// Whether a filter holds of a packet.
pub open spec fn holds(f: FilterView, ctx: FilterContext) -> bool
    decreases f,
{
    match f {
        FilterView::Source(v) => has_substring(lowercased(ctx.packet.source_addr@), v),
        FilterView::Destination(v) => has_substring(lowercased(ctx.packet.destination_addr@), v),
        FilterView::Pid(n) => has_pid(ctx.mpegts.fragments@, n),
        FilterView::Fragments(c) => compares_usize(ctx.mpegts.number_of_fragments, c),
        FilterView::And(l, r) => holds(*l, ctx) && holds(*r, ctx),
        FilterView::Or(l, r) => holds(*l, ctx) || holds(*r, ctx),
        FilterView::Not(e) => !holds(*e, ctx),
    }
}

impl CommonFilterParser for FilterType {
    open spec fn spec_not(expr: FilterView) -> FilterView {
        FilterView::Not(Box::new(expr))
    }

    fn not(expr: Self) -> (r: Self) {
        FilterType::Not(Box::new(expr))
    }
}

impl<'a> FilterCombinator<'a> for FilterType {
    open spec fn spec_and(left: FilterView, right: FilterView) -> FilterView {
        FilterView::And(Box::new(left), Box::new(right))
    }

    open spec fn spec_or(left: FilterView, right: FilterView) -> FilterView {
        FilterView::Or(Box::new(left), Box::new(right))
    }

    fn and(left: Self, right: Self) -> (r: Self) {
        FilterType::And(Box::new(left), Box::new(right))
    }

    fn or(left: Self, right: Self) -> (r: Self) {
        FilterType::Or(Box::new(left), Box::new(right))
    }
}

/// What each single filter keeps: `source:v` and `dest:v` a packet whose
/// lower-cased source or destination address contains `v`; `pid:n` a packet
/// of which some fragment, at any position, carries the numbered PID `n`;
/// `fragments:c` a packet whose number of fragments satisfies `c`.
pub proof fn lemma_single_filters<'a>(
    ctx: FilterContext<'a>,
    v: Seq<char>,
    n: u16,
    c: ComparisonView<usize>,
)
    ensures
        <FilterType as FilterExpression<'a>>::spec_matches(FilterView::Source(v), &ctx)
            == has_substring(lowercased(ctx.packet.source_addr@), v),
        <FilterType as FilterExpression<'a>>::spec_matches(FilterView::Destination(v), &ctx)
            == has_substring(lowercased(ctx.packet.destination_addr@), v),
        <FilterType as FilterExpression<'a>>::spec_matches(FilterView::Pid(n), &ctx) == exists|
            i: int,
        |
            0 <= i < ctx.mpegts.fragments@.len() && #[trigger] ctx.mpegts.fragments@[i].pid
                == crate::packet::PIDTable::PID(n),
        <FilterType as FilterExpression<'a>>::spec_matches(FilterView::Fragments(c), &ctx)
            == compares_usize(ctx.mpegts.number_of_fragments, c),
{
}

/// Parses an MPEG-TS packet filter.
pub fn parse_filter(filter: &str) -> (r: Result<FilterType, ParseError>)
    ensures
        result_view(r) == spec_parse_filter::<FilterType>(filter@),
{
    crate::filter_system::parse_filter(filter)
}

/// The help text of this filter language.
pub fn build_filter_help() -> (help: &'static str)
    ensures
        help@ == FILTER_HELP@,
{
    FILTER_HELP
}

fn holds_for(f: &FilterType, ctx: &FilterContext) -> (r: bool)
    ensures
        r == holds(f@, *ctx),
    decreases f,
{
    match f {
        FilterType::Source(v) => lower_contains(ctx.packet.source_addr.as_str(), v.as_str()),
        FilterType::Destination(v) => lower_contains(
            ctx.packet.destination_addr.as_str(),
            v.as_str(),
        ),
        FilterType::Pid(n) => fragments_have_pid(&ctx.mpegts.fragments, *n),
        FilterType::Fragments(c) => c.holds_for(ctx.mpegts.number_of_fragments),
        FilterType::And(l, r) => holds_for(l, ctx) && holds_for(r, ctx),
        FilterType::Or(l, r) => holds_for(l, ctx) || holds_for(r, ctx),
        FilterType::Not(e) => !holds_for(e, ctx),
    }
}

impl<'a> FilterExpression<'a> for FilterType {
    type Context = FilterContext<'a>;

    open spec fn spec_matches(f: FilterView, ctx: &FilterContext<'a>) -> bool {
        holds(f, *ctx)
    }

    fn matches(&self, ctx: &FilterContext<'a>) -> (r: bool) {
        holds_for(self, ctx)
    }
}

impl FilterParser for FilterType {
    open spec fn spec_parse_filter_value(prefix: Seq<char>, value: Seq<char>) -> Result<
        FilterView,
        ParseErrorView,
    > {
        filter_from(prefix, value)
    }

    fn parse_filter_value(prefix: &str, value: &str) -> (r: Result<Self, ParseError>) {
        if trim(value).is_empty() {
            return Err(empty_value_error(prefix));
        }
        let key = trim(prefix);
        if str_eq(key, "source") {
            Ok(FilterType::Source(to_lowercase(value)))
        } else if str_eq(key, "dest") {
            Ok(FilterType::Destination(to_lowercase(value)))
        } else if str_eq(key, "pid") {
            match parse_u16(value) {
                Some(n) => Ok(FilterType::Pid(n)),
                None => Err(syntax_error("Invalid PID value")),
            }
        } else if str_eq(key, "fragments") || str_eq(key, "frags") {
            match ComparisonFilter::<usize>::parse(value) {
                Some(c) => Ok(FilterType::Fragments(c)),
                None => Err(syntax_error(INVALID_FRAGMENTS)),
            }
        } else {
            Err(syntax_error(UNKNOWN_FILTER))
        }
    }
}

} // verus!

verus! {

impl<'a> FilterLogic<'a> for FilterType {
    proof fn lemma_not_matches(f: <Self as View>::V, ctx: &Self::Context) {
    }

    proof fn lemma_and_matches(
        left: <Self as View>::V,
        right: <Self as View>::V,
        ctx: &Self::Context,
    ) {
    }

    proof fn lemma_or_matches(
        left: <Self as View>::V,
        right: <Self as View>::V,
        ctx: &Self::Context,
    ) {
    }
}


proof fn lemma_not_dest_example()
    ensures
        spec_parse_filter::<FilterType>("NOT dest:10.0.0.1"@) == Ok::<FilterView, ParseErrorView>(
            FilterView::Not(Box::new(FilterView::Destination("10.0.0.1"@))),
        ),
{
    reveal_strlit("NOT dest:10.0.0.1");
    reveal_strlit("10.0.0.1");
    reveal_strlit("NOT");
    reveal_strlit("not");
    reveal_strlit("and");
    reveal_strlit("or");
    reveal_strlit("dest");
    reveal_strlit("source");
    reveal_strlit("and and");
    reveal_strlit("or or");
    let t = "NOT dest:10.0.0.1"@;
    let w_not = seq!['N', 'O', 'T'];
    let w_key = seq!['d', 'e', 's', 't'];
    let w_val = seq!['1', '0', '.', '0', '.', '0', '.', '1'];
    let sp = seq![' '];
    let colon = seq![':'];
    assert(t =~= w_not + sp + w_key + colon + w_val);
    // The syntax check passes.
    lemma_trim_unchanged(t);
    lemma_scan_plain(t);
    let lower = seq!['n', 'o', 't', ' ', 'd', 'e', 's', 't', ':', '1', '0', '.', '0', '.', '0', '.', '1'];
    assert(is_ascii_text(t));
    assert(ascii_lowered(t) =~= lower);
    if has_substring(lower, "and and"@) {
        let i = choose|i: int|
            0 <= i && i + 7 <= lower.len() && #[trigger] lower.subrange(i, i + 7) == "and and"@;
        assert(lower.subrange(i, i + 7)[0] == lower[i]);
        assert(lower[i] == 'a');
    }
    if has_substring(lower, "or or"@) {
        let i = choose|i: int|
            0 <= i && i + 5 <= lower.len() && #[trigger] lower.subrange(i, i + 5) == "or or"@;
        assert(lower.subrange(i, i + 5)[0] == lower[i]);
        assert(lower.subrange(i, i + 5)[3] == lower[i + 3]);
        assert(lower[i] == 'o' && lower[i + 3] == 'o');
    }
    assert(crate::filter_system::parser::syntax_error(t) is None);
    // The tokens.
    let e = (Seq::<TokenView>::empty(), Seq::<char>::empty());
    lemma_lex_state_run(t);
    lemma_lex_run_concat(e, w_not + sp + w_key + colon, w_val);
    lemma_lex_run_concat(e, w_not + sp + w_key, colon);
    lemma_lex_run_concat(e, w_not + sp, w_key);
    lemma_lex_run_concat(e, w_not, sp);
    lemma_lex_word(e, w_not);
    assert(Seq::<char>::empty() + w_not =~= w_not);
    let s1 = (Seq::<TokenView>::empty(), w_not);
    lemma_lex_char(s1, ' ');
    lemma_operators_lowercased();
    assert(w_not == "NOT"@);
    assert(lowercased(w_not) == "not"@);
    assert("not"@[0] != "and"@[0]);
    assert("not"@.len() != "or"@.len());
    assert(crate::filter_system::lexer::word_token(w_not) == TokenView::Not);
    assert(Seq::<TokenView>::empty().push(TokenView::Not) =~= seq![TokenView::Not]);
    let s2 = (seq![TokenView::Not], Seq::<char>::empty());
    assert(lex_run(e, w_not + sp) == s2);
    lemma_lex_word(s2, w_key);
    assert(Seq::<char>::empty() + w_key =~= w_key);
    let s3 = (seq![TokenView::Not], w_key);
    lemma_lex_char(s3, ':');
    let s4 = (seq![TokenView::Not, TokenView::Filter(w_key), TokenView::Colon], Seq::<char>::empty());
    assert(lex_run(e, w_not + sp + w_key + colon) == s4);
    lemma_lex_word(s4, w_val);
    assert(Seq::<char>::empty() + w_val =~= w_val);
    let toks = seq![TokenView::Not, TokenView::Filter(w_key), TokenView::Colon, TokenView::Filter(w_val)];
    assert(lex(t) =~= toks);
    // The parse.
    lemma_trim_unchanged(w_key);
    lemma_trim_unchanged(w_val);
    lemma_lowercased_unchanged(w_val);
    assert(w_key != "source"@);
    assert(w_key == "dest"@);
    assert(w_val == "10.0.0.1"@);
    let inner = FilterView::Destination(w_val);
    assert(filter_from(w_key, w_val) == Ok::<FilterView, ParseErrorView>(inner));
    let rest = toks.drop_first();
    assert(rest =~= seq![TokenView::Filter(w_key), TokenView::Colon, TokenView::Filter(w_val)]);
    assert(rest.drop_first() =~= seq![TokenView::Colon, TokenView::Filter(w_val)]);
    assert(rest.drop_first().drop_first() =~= seq![TokenView::Filter(w_val)]);
    assert(rest.drop_first().drop_first().drop_first() =~= Seq::<TokenView>::empty());
    assert(spec_primary::<FilterType>(rest) == (
        Ok::<FilterView, ParseErrorView>(inner),
        Seq::<TokenView>::empty(),
    ));
    let whole = FilterView::Not(Box::new(inner));
    assert(spec_primary::<FilterType>(toks) == (
        Ok::<FilterView, ParseErrorView>(whole),
        Seq::<TokenView>::empty(),
    ));
    assert(spec_operators::<FilterType>(whole, Seq::<TokenView>::empty(), 0) == (
        Ok::<FilterView, ParseErrorView>(whole),
        Seq::<TokenView>::empty(),
    ));
}


proof fn lemma_source_and_pid_example()
    ensures
        spec_parse_filter::<FilterType>("source:192.168 AND pid:100"@) == Ok::<
            FilterView,
            ParseErrorView,
        >(
            FilterView::And(
                Box::new(FilterView::Source("192.168"@)),
                Box::new(FilterView::Pid(100)),
            ),
        ),
{
    reveal_strlit("source:192.168 AND pid:100");
    reveal_strlit("192.168");
    reveal_strlit("AND");
    reveal_strlit("not");
    reveal_strlit("and");
    reveal_strlit("or");
    reveal_strlit("source");
    reveal_strlit("dest");
    reveal_strlit("pid");
    reveal_strlit("and and");
    reveal_strlit("or or");
    let t = "source:192.168 AND pid:100"@;
    let w_key = seq!['s', 'o', 'u', 'r', 'c', 'e'];
    let v1 = seq!['1', '9', '2', '.', '1', '6', '8'];
    let w_op = seq!['A', 'N', 'D'];
    let w_pid = seq!['p', 'i', 'd'];
    let v2 = seq!['1', '0', '0'];
    let sp = seq![' '];
    let colon = seq![':'];
    assert(t =~= w_key + colon + v1 + sp + w_op + sp + w_pid + colon + v2);
    // The syntax check passes.
    lemma_trim_unchanged(t);
    lemma_scan_plain(t);
    let lower = seq![
        's', 'o', 'u', 'r', 'c', 'e', ':', '1', '9', '2', '.', '1', '6', '8', ' ', 'a', 'n', 'd',
        ' ', 'p', 'i', 'd', ':', '1', '0', '0',
    ];
    assert(is_ascii_text(t));
    assert(ascii_lowered(t) =~= lower);
    if has_substring(lower, "and and"@) {
        let i = choose|i: int|
            0 <= i && i + 7 <= lower.len() && #[trigger] lower.subrange(i, i + 7) == "and and"@;
        assert(lower.subrange(i, i + 7)[0] == lower[i]);
        assert(lower.subrange(i, i + 7)[4] == lower[i + 4]);
        assert(lower[i] == 'a' && lower[i + 4] == 'a');
    }
    if has_substring(lower, "or or"@) {
        let i = choose|i: int|
            0 <= i && i + 5 <= lower.len() && #[trigger] lower.subrange(i, i + 5) == "or or"@;
        assert(lower.subrange(i, i + 5)[0] == lower[i]);
        assert(lower.subrange(i, i + 5)[3] == lower[i + 3]);
        assert(lower[i] == 'o' && lower[i + 3] == 'o');
    }
    assert(crate::filter_system::parser::syntax_error(t) is None);
    // The tokens.
    let e = (Seq::<TokenView>::empty(), Seq::<char>::empty());
    let p1 = w_key + colon;
    let p2 = p1 + v1;
    let p3 = p2 + sp;
    let p4 = p3 + w_op;
    let p5 = p4 + sp;
    let p6 = p5 + w_pid;
    let p7 = p6 + colon;
    lemma_lex_state_run(t);
    lemma_lex_run_concat(e, p7, v2);
    lemma_lex_run_concat(e, p6, colon);
    lemma_lex_run_concat(e, p5, w_pid);
    lemma_lex_run_concat(e, p4, sp);
    lemma_lex_run_concat(e, p3, w_op);
    lemma_lex_run_concat(e, p2, sp);
    lemma_lex_run_concat(e, p1, v1);
    lemma_lex_run_concat(e, w_key, colon);
    lemma_lex_word(e, w_key);
    assert(Seq::<char>::empty() + w_key =~= w_key);
    lemma_lex_char((Seq::<TokenView>::empty(), w_key), ':');
    let t1 = seq![TokenView::Filter(w_key), TokenView::Colon];
    assert(Seq::<TokenView>::empty().push(TokenView::Filter(w_key)).push(TokenView::Colon) =~= t1);
    assert(lex_run(e, p1) == (t1, Seq::<char>::empty()));
    lemma_lex_word((t1, Seq::<char>::empty()), v1);
    assert(Seq::<char>::empty() + v1 =~= v1);
    lemma_lex_char((t1, v1), ' ');
    lemma_lowercased_unchanged(v1);
    assert(crate::filter_system::lexer::word_token(v1) == TokenView::Filter(v1));
    let t2 = t1.push(TokenView::Filter(v1));
    assert(lex_run(e, p3) == (t2, Seq::<char>::empty()));
    lemma_lex_word((t2, Seq::<char>::empty()), w_op);
    assert(Seq::<char>::empty() + w_op =~= w_op);
    lemma_lex_char((t2, w_op), ' ');
    lemma_operators_lowercased();
    assert(w_op == "AND"@);
    assert(lowercased(w_op) == "and"@);
    assert(crate::filter_system::lexer::word_token(w_op) == TokenView::And);
    let t3 = t2.push(TokenView::And);
    assert(lex_run(e, p5) == (t3, Seq::<char>::empty()));
    lemma_lex_word((t3, Seq::<char>::empty()), w_pid);
    assert(Seq::<char>::empty() + w_pid =~= w_pid);
    lemma_lex_char((t3, w_pid), ':');
    let t4 = t3.push(TokenView::Filter(w_pid)).push(TokenView::Colon);
    assert(lex_run(e, p7) == (t4, Seq::<char>::empty()));
    lemma_lex_word((t4, Seq::<char>::empty()), v2);
    assert(Seq::<char>::empty() + v2 =~= v2);
    let toks = seq![
        TokenView::Filter(w_key),
        TokenView::Colon,
        TokenView::Filter(v1),
        TokenView::And,
        TokenView::Filter(w_pid),
        TokenView::Colon,
        TokenView::Filter(v2),
    ];
    assert(lex(t) =~= toks);
    // The parse.
    lemma_trim_unchanged(w_key);
    lemma_trim_unchanged(v1);
    lemma_trim_unchanged(w_pid);
    lemma_trim_unchanged(v2);
    assert(w_key == "source"@);
    assert(v1 == "192.168"@);
    let left = FilterView::Source(v1);
    assert(filter_from(w_key, v1) == Ok::<FilterView, ParseErrorView>(left));
    assert(v2.drop_last() =~= seq!['1', '0']);
    assert(seq!['1', '0'].drop_last() =~= seq!['1']);
    assert(seq!['1'].drop_last() =~= Seq::<char>::empty());
    assert(crate::text::digits_value(Seq::<char>::empty()) == 0);
    assert(seq!['1'].last() == '1');
    assert(('1' as int) - ('0' as int) == 1);
    assert(crate::text::digits_value(seq!['1']) == 1);
    assert(crate::text::digits_value(seq!['1', '0']) == 10);
    assert(crate::text::digits_value(v2) == 100);
    assert(spec_parse_u16(v2) == Some(100u16));
    assert(w_pid != "source"@);
    assert(w_pid != "dest"@);
    assert(w_pid == "pid"@);
    let right = FilterView::Pid(100);
    assert(filter_from(w_pid, v2) == Ok::<FilterView, ParseErrorView>(right));
    let r1 = toks.drop_first();
    let r2 = r1.drop_first();
    let r3 = r2.drop_first();
    assert(r1 =~= toks.subrange(1, 7));
    assert(r2 =~= toks.subrange(2, 7));
    assert(r3 =~= seq![
        TokenView::And,
        TokenView::Filter(w_pid),
        TokenView::Colon,
        TokenView::Filter(v2),
    ]);
    assert(spec_primary::<FilterType>(toks) == (Ok::<FilterView, ParseErrorView>(left), r3));
    let q1 = r3.drop_first();
    assert(q1 =~= seq![TokenView::Filter(w_pid), TokenView::Colon, TokenView::Filter(v2)]);
    assert(q1.drop_first() =~= seq![TokenView::Colon, TokenView::Filter(v2)]);
    assert(q1.drop_first().drop_first() =~= seq![TokenView::Filter(v2)]);
    assert(q1.drop_first().drop_first().drop_first() =~= Seq::<TokenView>::empty());
    assert(spec_primary::<FilterType>(q1) == (
        Ok::<FilterView, ParseErrorView>(right),
        Seq::<TokenView>::empty(),
    ));
    let whole = FilterView::And(Box::new(left), Box::new(right));
    assert(spec_operators::<FilterType>(whole, Seq::<TokenView>::empty(), 0) == (
        Ok::<FilterView, ParseErrorView>(whole),
        Seq::<TokenView>::empty(),
    ));
    assert(spec_operators::<FilterType>(left, r3, 0) == (
        Ok::<FilterView, ParseErrorView>(whole),
        Seq::<TokenView>::empty(),
    ));
}


proof fn lemma_fragments_or_pid_example()
    ensures
        spec_parse_filter::<FilterType>("fragments:>5 OR pid:0"@) == Ok::<FilterView, ParseErrorView>(
            FilterView::Or(
                Box::new(FilterView::Fragments(ComparisonView::GreaterThan(5))),
                Box::new(FilterView::Pid(0)),
            ),
        ),
{
    reveal_strlit("fragments:>5 OR pid:0");
    reveal_strlit("OR");
    reveal_strlit("not");
    reveal_strlit("and");
    reveal_strlit("or");
    reveal_strlit("source");
    reveal_strlit("dest");
    reveal_strlit("pid");
    reveal_strlit("fragments");
    reveal_strlit("and and");
    reveal_strlit("or or");
    let t = "fragments:>5 OR pid:0"@;
    let w_key = seq!['f', 'r', 'a', 'g', 'm', 'e', 'n', 't', 's'];
    let v1 = seq!['>', '5'];
    let w_op = seq!['O', 'R'];
    let w_pid = seq!['p', 'i', 'd'];
    let v2 = seq!['0'];
    let sp = seq![' '];
    let colon = seq![':'];
    assert(t =~= w_key + colon + v1 + sp + w_op + sp + w_pid + colon + v2);
    // The syntax check passes.
    lemma_trim_unchanged(t);
    lemma_scan_plain(t);
    let lower = seq![
        'f', 'r', 'a', 'g', 'm', 'e', 'n', 't', 's', ':', '>', '5', ' ', 'o', 'r', ' ', 'p', 'i',
        'd', ':', '0',
    ];
    assert(is_ascii_text(t));
    assert(ascii_lowered(t) =~= lower);
    if has_substring(lower, "and and"@) {
        let i = choose|i: int|
            0 <= i && i + 7 <= lower.len() && #[trigger] lower.subrange(i, i + 7) == "and and"@;
        assert(lower.subrange(i, i + 7)[0] == lower[i]);
        assert(lower.subrange(i, i + 7)[4] == lower[i + 4]);
        assert(lower[i] == 'a' && lower[i + 4] == 'a');
    }
    if has_substring(lower, "or or"@) {
        let i = choose|i: int|
            0 <= i && i + 5 <= lower.len() && #[trigger] lower.subrange(i, i + 5) == "or or"@;
        assert(lower.subrange(i, i + 5)[0] == lower[i]);
        assert(lower.subrange(i, i + 5)[3] == lower[i + 3]);
        assert(lower[i] == 'o' && lower[i + 3] == 'o');
    }
    assert(crate::filter_system::parser::syntax_error(t) is None);
    // The tokens.
    let e = (Seq::<TokenView>::empty(), Seq::<char>::empty());
    let p1 = w_key + colon;
    let p2 = p1 + v1;
    let p3 = p2 + sp;
    let p4 = p3 + w_op;
    let p5 = p4 + sp;
    let p6 = p5 + w_pid;
    let p7 = p6 + colon;
    lemma_lex_state_run(t);
    lemma_lex_run_concat(e, p7, v2);
    lemma_lex_run_concat(e, p6, colon);
    lemma_lex_run_concat(e, p5, w_pid);
    lemma_lex_run_concat(e, p4, sp);
    lemma_lex_run_concat(e, p3, w_op);
    lemma_lex_run_concat(e, p2, sp);
    lemma_lex_run_concat(e, p1, v1);
    lemma_lex_run_concat(e, w_key, colon);
    lemma_lex_word(e, w_key);
    assert(Seq::<char>::empty() + w_key =~= w_key);
    lemma_lex_char((Seq::<TokenView>::empty(), w_key), ':');
    let t1 = seq![TokenView::Filter(w_key), TokenView::Colon];
    assert(Seq::<TokenView>::empty().push(TokenView::Filter(w_key)).push(TokenView::Colon) =~= t1);
    assert(lex_run(e, p1) == (t1, Seq::<char>::empty()));
    lemma_lex_word((t1, Seq::<char>::empty()), v1);
    assert(Seq::<char>::empty() + v1 =~= v1);
    lemma_lex_char((t1, v1), ' ');
    lemma_lowercased_unchanged(v1);
    assert(crate::filter_system::lexer::word_token(v1) == TokenView::Filter(v1));
    let t2 = t1.push(TokenView::Filter(v1));
    assert(lex_run(e, p3) == (t2, Seq::<char>::empty()));
    lemma_lex_word((t2, Seq::<char>::empty()), w_op);
    assert(Seq::<char>::empty() + w_op =~= w_op);
    lemma_lex_char((t2, w_op), ' ');
    lemma_operators_lowercased();
    assert(w_op == "OR"@);
    assert(lowercased(w_op) == "or"@);
    assert("or"@.len() != "and"@.len());
    assert(crate::filter_system::lexer::word_token(w_op) == TokenView::Or);
    let t3 = t2.push(TokenView::Or);
    assert(lex_run(e, p5) == (t3, Seq::<char>::empty()));
    lemma_lex_word((t3, Seq::<char>::empty()), w_pid);
    assert(Seq::<char>::empty() + w_pid =~= w_pid);
    lemma_lex_char((t3, w_pid), ':');
    let t4 = t3.push(TokenView::Filter(w_pid)).push(TokenView::Colon);
    assert(lex_run(e, p7) == (t4, Seq::<char>::empty()));
    lemma_lex_word((t4, Seq::<char>::empty()), v2);
    assert(Seq::<char>::empty() + v2 =~= v2);
    let toks = seq![
        TokenView::Filter(w_key),
        TokenView::Colon,
        TokenView::Filter(v1),
        TokenView::Or,
        TokenView::Filter(w_pid),
        TokenView::Colon,
        TokenView::Filter(v2),
    ];
    assert(lex(t) =~= toks);
    // The parse.
    lemma_trim_unchanged(w_key);
    lemma_trim_unchanged(v1);
    lemma_trim_unchanged(w_pid);
    lemma_trim_unchanged(v2);
    let five = v1.drop_first();
    assert(five =~= seq!['5']);
    lemma_trim_unchanged(five);
    assert(five.drop_last() =~= Seq::<char>::empty());
    assert(crate::text::digits_value(Seq::<char>::empty()) == 0);
    assert(('5' as int) - ('0' as int) == 5);
    assert(crate::text::digits_value(five) == 5);
    assert(<usize as ComparisonValue>::spec_from_text(five) == Some(5usize));
    assert(spec_comparison::<usize>(v1) == Some(ComparisonView::<usize>::GreaterThan(5)));
    assert(w_key != "source"@);
    assert(w_key != "dest"@);
    assert(w_key != "pid"@);
    assert(w_key == "fragments"@);
    let left = FilterView::Fragments(ComparisonView::GreaterThan(5));
    assert(filter_from(w_key, v1) == Ok::<FilterView, ParseErrorView>(left));
    assert(v2.drop_last() =~= Seq::<char>::empty());
    assert(('0' as int) - ('0' as int) == 0);
    assert(crate::text::digits_value(v2) == 0);
    assert(spec_parse_u16(v2) == Some(0u16));
    assert(w_pid != "source"@);
    assert(w_pid != "dest"@);
    assert(w_pid == "pid"@);
    let right = FilterView::Pid(0);
    assert(filter_from(w_pid, v2) == Ok::<FilterView, ParseErrorView>(right));
    let r1 = toks.drop_first();
    let r2 = r1.drop_first();
    let r3 = r2.drop_first();
    assert(r1 =~= toks.subrange(1, 7));
    assert(r2 =~= toks.subrange(2, 7));
    assert(r3 =~= seq![
        TokenView::Or,
        TokenView::Filter(w_pid),
        TokenView::Colon,
        TokenView::Filter(v2),
    ]);
    assert(spec_primary::<FilterType>(toks) == (Ok::<FilterView, ParseErrorView>(left), r3));
    let q1 = r3.drop_first();
    assert(q1 =~= seq![TokenView::Filter(w_pid), TokenView::Colon, TokenView::Filter(v2)]);
    assert(q1.drop_first() =~= seq![TokenView::Colon, TokenView::Filter(v2)]);
    assert(q1.drop_first().drop_first() =~= seq![TokenView::Filter(v2)]);
    assert(q1.drop_first().drop_first().drop_first() =~= Seq::<TokenView>::empty());
    assert(spec_primary::<FilterType>(q1) == (
        Ok::<FilterView, ParseErrorView>(right),
        Seq::<TokenView>::empty(),
    ));
    let whole = FilterView::Or(Box::new(left), Box::new(right));
    assert(spec_operators::<FilterType>(whole, Seq::<TokenView>::empty(), 0) == (
        Ok::<FilterView, ParseErrorView>(whole),
        Seq::<TokenView>::empty(),
    ));
    assert(spec_operators::<FilterType>(left, r3, 0) == (
        Ok::<FilterView, ParseErrorView>(whole),
        Seq::<TokenView>::empty(),
    ));
}


/// The help text starts with its title and lists three examples, and this
/// filter language accepts each of them: `source:192.168 AND pid:100`,
/// `fragments:>5 OR pid:0` and `NOT dest:10.0.0.1` parse to the filters
/// they spell.
pub proof fn lemma_help_examples_accepted()
    ensures
        FILTER_HELP@.subrange(0, 28) == "MPEG-TS Packets Filter Help:"@,
        has_substring(FILTER_HELP@, "source:192.168 AND pid:100"@),
        has_substring(FILTER_HELP@, "fragments:>5 OR pid:0"@),
        has_substring(FILTER_HELP@, "NOT dest:10.0.0.1"@),
        spec_parse_filter::<FilterType>("source:192.168 AND pid:100"@) == Ok::<
            FilterView,
            ParseErrorView,
        >(
            FilterView::And(
                Box::new(FilterView::Source("192.168"@)),
                Box::new(FilterView::Pid(100)),
            ),
        ),
        spec_parse_filter::<FilterType>("fragments:>5 OR pid:0"@) == Ok::<FilterView, ParseErrorView>(
            FilterView::Or(
                Box::new(FilterView::Fragments(ComparisonView::GreaterThan(5))),
                Box::new(FilterView::Pid(0)),
            ),
        ),
        spec_parse_filter::<FilterType>("NOT dest:10.0.0.1"@) == Ok::<FilterView, ParseErrorView>(
            FilterView::Not(Box::new(FilterView::Destination("10.0.0.1"@))),
        ),
{
    // `reveal_strlit` takes a literal: this is the text of `FILTER_HELP`.
    reveal_strlit(r#"MPEG-TS Packets Filter Help:
    
• source:<ip> - Filter by source IP address
• dest:<ip> - Filter by destination IP address  
• pid:<number> - Filter by PID
• fragments:<num> - Filter by fragment count
• fragments:>N - More than N fragments
• fragments:<N - Less than N fragments

Operators: AND, OR, NOT, parentheses

Examples:
• source:192.168 AND pid:100
• fragments:>5 OR pid:0
• NOT dest:10.0.0.1"#);
    reveal_strlit("MPEG-TS Packets Filter Help:");
    reveal_strlit("source:192.168 AND pid:100");
    reveal_strlit("fragments:>5 OR pid:0");
    reveal_strlit("NOT dest:10.0.0.1");
    let h = FILTER_HELP@;
    assert(h.subrange(0, 28) =~= "MPEG-TS Packets Filter Help:"@);
    let e1 = "source:192.168 AND pid:100"@;
    let e2 = "fragments:>5 OR pid:0"@;
    let e3 = "NOT dest:10.0.0.1"@;
    assert(h.subrange(332int, 332int + e1.len()) =~= e1);
    assert(h.subrange(361int, 361int + e2.len()) =~= e2);
    assert(h.subrange(385int, 385int + e3.len()) =~= e3);
    lemma_source_and_pid_example();
    lemma_fragments_or_pid_example();
    lemma_not_dest_example();
}

/// What each `key:value` filter stands for: the filter it denotes when its
/// value is acceptable, and an error otherwise.
pub proof fn lemma_filter_keys(v: Seq<char>)
    ensures
        crate::text::str_trim(v).len() > 0 ==> <FilterType as FilterParser>::spec_parse_filter_value(
            "source"@,
            v,
        ) == Ok::<FilterView, ParseErrorView>(FilterView::Source(crate::text::lowercased(v))),
        !(crate::text::str_trim(v).len() > 0) ==> <FilterType as FilterParser>::spec_parse_filter_value("source"@, v) is Err,
        crate::text::str_trim(v).len() > 0 ==> <FilterType as FilterParser>::spec_parse_filter_value(
            "dest"@,
            v,
        ) == Ok::<FilterView, ParseErrorView>(FilterView::Destination(crate::text::lowercased(v))),
        !(crate::text::str_trim(v).len() > 0) ==> <FilterType as FilterParser>::spec_parse_filter_value("dest"@, v) is Err,
        (crate::text::str_trim(v).len() > 0) && (spec_parse_u16(v) is Some) ==> <FilterType as FilterParser>::spec_parse_filter_value(
            "pid"@,
            v,
        ) == Ok::<FilterView, ParseErrorView>(FilterView::Pid(spec_parse_u16(v)->0)),
        !((crate::text::str_trim(v).len() > 0) && (spec_parse_u16(v) is Some)) ==> <FilterType as FilterParser>::spec_parse_filter_value("pid"@, v) is Err,
        (crate::text::str_trim(v).len() > 0) && (spec_comparison::<usize>(v) is Some) ==> <FilterType as FilterParser>::spec_parse_filter_value(
            "fragments"@,
            v,
        ) == Ok::<FilterView, ParseErrorView>(FilterView::Fragments(spec_comparison::<usize>(v)->0)),
        !((crate::text::str_trim(v).len() > 0) && (spec_comparison::<usize>(v) is Some)) ==> <FilterType as FilterParser>::spec_parse_filter_value("fragments"@, v) is Err,
        (crate::text::str_trim(v).len() > 0) && (spec_comparison::<usize>(v) is Some) ==> <FilterType as FilterParser>::spec_parse_filter_value(
            "frags"@,
            v,
        ) == Ok::<FilterView, ParseErrorView>(FilterView::Fragments(spec_comparison::<usize>(v)->0)),
        !((crate::text::str_trim(v).len() > 0) && (spec_comparison::<usize>(v) is Some)) ==> <FilterType as FilterParser>::spec_parse_filter_value("frags"@, v) is Err,
{
    reveal_strlit("source");
    reveal_strlit("dest");
    reveal_strlit("pid");
    reveal_strlit("fragments");
    reveal_strlit("frags");
    crate::text::lemma_trim_unchanged("source"@);
    crate::text::lemma_trim_unchanged("dest"@);
    crate::text::lemma_trim_unchanged("pid"@);
    crate::text::lemma_trim_unchanged("fragments"@);
    crate::text::lemma_trim_unchanged("frags"@);
}

} // verus!
