//! Checks and parses filter expressions: `prefix:value` filters joined by
//! `AND`, `OR`, `NOT` and parentheses.
//!
//! Operators are read left to right: `a OR b AND c` is `(a OR b) AND c`.
//! A right operand that fails to parse is reported as a missing operand.
//! Tokens left over after a complete expression are ignored.
use vstd::prelude::*;
use super::error::{result_view, ParseError, ParseErrorView};
use super::lexer::{lemma_lex_not_parenthesized, lemma_lex_parenthesized, lex, Lexer};
use super::traits::{
    CommonFilterParser, FilterCombinator, FilterExpression, FilterLogic, FilterParser,
};
use super::types::{get_operator_precedence, operator_precedence, Token, TokenView};
use crate::text::{
    ascii_lowered, chars_contain, chars_of, concat3, has_substring, is_ascii_text,
    is_white_space, lemma_lowercased_between, lowercased, str_lowercase, str_trim,
    string_from_literal, to_lowercase, trim, trim_end, trim_start,
};

verus! {

/// The result of a parse.
pub type ParseResult<T> = Result<T, ParseError>;

/// How `{:?}` writes a token that carries no text.
pub open spec fn unit_token_name(t: TokenView) -> Seq<char> {
    match t {
        TokenView::OpenParen => "OpenParen"@,
        TokenView::CloseParen => "CloseParen"@,
        TokenView::And => "And"@,
        TokenView::Or => "Or"@,
        TokenView::Not => "Not"@,
        TokenView::Colon => "Colon"@,
        TokenView::Filter(_) => Seq::empty(),
    }
}

/// The message for a token that cannot start a filter.
pub open spec fn unexpected_token_message(t: TokenView) -> Seq<char> {
    "Unexpected token: "@ + unit_token_name(t)
}

/// The message for a filter word that no colon follows.
pub open spec fn missing_colon_message(prefix: Seq<char>) -> Seq<char> {
    "Missing colon after '"@ + prefix + "' filter"@
}

/// The message for a `prefix:` that no value follows.
pub open spec fn missing_value_message(prefix: Seq<char>) -> Seq<char> {
    "Missing value after '"@ + prefix + "':"@
}

/// Reads one operand from `toks`: a parenthesised expression, `NOT`
/// followed by an operand, or `prefix : value`.  Gives the result and the
/// tokens left.
pub open spec fn spec_primary<F: CommonFilterParser + FilterCombinator<'static>>(
    toks: Seq<TokenView>,
) -> (Result<<F as View>::V, ParseErrorView>, Seq<TokenView>)
    decreases toks.len(), 0nat,
{
    if toks.len() == 0 {
        (Err(ParseErrorView::InvalidToken("Empty token"@)), toks)
    } else {
        let rest = toks.drop_first();
        match toks[0] {
            TokenView::OpenParen => {
                let (inner, after) = spec_expression::<F>(rest, 0);
                match inner {
                    Err(e) => (Err(e), after),
                    Ok(expr) => {
                        if after.len() == 0 {
                            (Err(ParseErrorView::UnmatchedParenthesis), after)
                        } else if after[0] == TokenView::CloseParen {
                            (Ok(expr), after.drop_first())
                        } else {
                            (Err(ParseErrorView::UnmatchedParenthesis), after.drop_first())
                        }
                    },
                }
            },
            TokenView::Not => {
                let (inner, after) = spec_primary::<F>(rest);
                match inner {
                    Err(e) => (Err(e), after),
                    Ok(expr) => (Ok(F::spec_not(expr)), after),
                }
            },
            TokenView::Filter(prefix) => {
                if rest.len() == 0 {
                    (Err(ParseErrorView::InvalidSyntax(missing_colon_message(prefix))), rest)
                } else if rest[0] != TokenView::Colon {
                    (
                        Err(ParseErrorView::InvalidSyntax(missing_colon_message(prefix))),
                        rest.drop_first(),
                    )
                } else {
                    let rest2 = rest.drop_first();
                    if rest2.len() == 0 {
                        (Err(ParseErrorView::InvalidSyntax(missing_value_message(prefix))), rest2)
                    } else {
                        match rest2[0] {
                            TokenView::Filter(value) => (
                                F::spec_parse_filter_value(prefix, value),
                                rest2.drop_first(),
                            ),
                            _ => (
                                Err(ParseErrorView::InvalidSyntax(missing_value_message(prefix))),
                                rest2.drop_first(),
                            ),
                        }
                    }
                }
            },
            other => (Err(ParseErrorView::InvalidToken(unexpected_token_message(other))), rest),
        }
    }
}

/// Reads an operand and then every `AND` / `OR` whose precedence is at
/// least `precedence`, combining from the left.
pub open spec fn spec_expression<F: CommonFilterParser + FilterCombinator<'static>>(
    toks: Seq<TokenView>,
    precedence: u8,
) -> (Result<<F as View>::V, ParseErrorView>, Seq<TokenView>)
    decreases toks.len(), 1nat,
{
    if toks.len() == 0 {
        (Err(ParseErrorView::EmptyExpression), toks)
    } else {
        let (first, rest) = spec_primary::<F>(toks);
        match first {
            Err(e) => (Err(e), rest),
            Ok(left) => if rest.len() < toks.len() {
                spec_operators::<F>(left, rest, precedence)
            } else {
                (Ok(left), rest)
            },
        }
    }
}

/// Continues an expression whose left part is `left`.
pub open spec fn spec_operators<F: CommonFilterParser + FilterCombinator<'static>>(
    left: <F as View>::V,
    toks: Seq<TokenView>,
    precedence: u8,
) -> (Result<<F as View>::V, ParseErrorView>, Seq<TokenView>)
    decreases toks.len(), 2nat,
{
    if toks.len() > 0 && (toks[0] == TokenView::And || toks[0] == TokenView::Or)
        && operator_precedence(toks[0]) >= precedence {
        let (right, after) = spec_primary::<F>(toks.drop_first());
        match right {
            Err(_) => (Err(ParseErrorView::MissingOperand), after),
            Ok(r) => {
                let combined = if toks[0] == TokenView::And {
                    F::spec_and(left, r)
                } else {
                    F::spec_or(left, r)
                };
                if after.len() < toks.len() {
                    spec_operators::<F>(combined, after, precedence)
                } else {
                    (Ok(combined), after)
                }
            },
        }
    } else {
        (Ok(left), toks)
    }
}

/// Reading an operand consumes at least one token, and reading an
/// expression never adds tokens.
proof fn lemma_progress<F: CommonFilterParser + FilterCombinator<'static>>(
    toks: Seq<TokenView>,
    precedence: u8,
    left: <F as View>::V,
)
    ensures
        toks.len() > 0 ==> spec_primary::<F>(toks).1.len() < toks.len(),
        spec_primary::<F>(toks).1.len() <= toks.len(),
        spec_expression::<F>(toks, precedence).1.len() <= toks.len(),
        spec_operators::<F>(left, toks, precedence).1.len() <= toks.len(),
    decreases toks.len(),
{
    if toks.len() > 0 {
        let rest = toks.drop_first();
        lemma_progress::<F>(rest, 0, left);
        let (first, r1) = spec_primary::<F>(toks);
        if let Ok(l) = first {
            if r1.len() < toks.len() {
                lemma_progress::<F>(r1, precedence, l);
            }
        }
        let (right, after) = spec_primary::<F>(rest);
        if let Ok(r) = right {
            let combined = if toks[0] == TokenView::And {
                F::spec_and(left, r)
            } else {
                F::spec_or(left, r)
            };
            if after.len() < toks.len() {
                lemma_progress::<F>(after, precedence, combined);
            }
        }
    }
}

/// Tokens that cannot continue an expression that precedes them: none at
/// all, or a first token other than `AND` and `OR`.
pub open spec fn ends_expression(s: Seq<TokenView>) -> bool {
    s.len() == 0 || (s[0] != TokenView::And && s[0] != TokenView::Or)
}

/// An operand that reads successfully reads the same way, and leaves the
/// same tokens, whatever follows it.
pub proof fn lemma_primary_suffix<F: CommonFilterParser + FilterCombinator<'static>>(
    t: Seq<TokenView>,
    s: Seq<TokenView>,
)
    requires
        spec_primary::<F>(t).0 is Ok,
    ensures
        spec_primary::<F>(t + s) == (spec_primary::<F>(t).0, spec_primary::<F>(t).1 + s),
    decreases t.len(), 0nat,
{
    let ts = t + s;
    let rest = t.drop_first();
    assert(ts[0] == t[0]);
    assert(ts.drop_first() =~= rest + s);
    match t[0] {
        TokenView::OpenParen => {
            lemma_expression_suffix::<F>(rest, 0, s);
            let after = spec_expression::<F>(rest, 0).1;
            assert((after + s)[0] == after[0]);
            assert((after + s).drop_first() =~= after.drop_first() + s);
        },
        TokenView::Not => {
            lemma_primary_suffix::<F>(rest, s);
        },
        TokenView::Filter(prefix) => {
            assert((rest + s)[0] == rest[0]);
            let rest2 = rest.drop_first();
            assert((rest + s).drop_first() =~= rest2 + s);
            assert((rest2 + s)[0] == rest2[0]);
            assert((rest2 + s).drop_first() =~= rest2.drop_first() + s);
        },
        _ => {},
    }
}

/// An expression that reads successfully reads the same way, and leaves
/// the same tokens, when it stops before the end of `t` or when tokens that
/// cannot continue it follow.
pub proof fn lemma_expression_suffix<F: CommonFilterParser + FilterCombinator<'static>>(
    t: Seq<TokenView>,
    precedence: u8,
    s: Seq<TokenView>,
)
    requires
        spec_expression::<F>(t, precedence).0 is Ok,
        spec_expression::<F>(t, precedence).1.len() > 0 || ends_expression(s),
    ensures
        spec_expression::<F>(t + s, precedence) == (
            spec_expression::<F>(t, precedence).0,
            spec_expression::<F>(t, precedence).1 + s,
        ),
    decreases t.len(), 1nat,
{
    lemma_primary_suffix::<F>(t, s);
    let (first, rest) = spec_primary::<F>(t);
    if let Ok(left) = first {
        if rest.len() < t.len() {
            lemma_operators_suffix::<F>(left, rest, precedence, s);
        }
    }
}

/// Continuing an expression gives the same result, and leaves the same
/// tokens, when it stops before the end of `t` or when tokens that cannot
/// continue it follow.
proof fn lemma_operators_suffix<F: CommonFilterParser + FilterCombinator<'static>>(
    left: <F as View>::V,
    t: Seq<TokenView>,
    precedence: u8,
    s: Seq<TokenView>,
)
    requires
        spec_operators::<F>(left, t, precedence).0 is Ok,
        spec_operators::<F>(left, t, precedence).1.len() > 0 || ends_expression(s),
    ensures
        spec_operators::<F>(left, t + s, precedence) == (
            spec_operators::<F>(left, t, precedence).0,
            spec_operators::<F>(left, t, precedence).1 + s,
        ),
    decreases t.len(), 2nat,
{
    let ts = t + s;
    if t.len() == 0 {
        assert(ts =~= s);
        assert(t + s =~= s);
    } else {
        assert(ts[0] == t[0]);
        if (t[0] == TokenView::And || t[0] == TokenView::Or) && operator_precedence(t[0])
            >= precedence {
            let rest = t.drop_first();
            assert(ts.drop_first() =~= rest + s);
            lemma_primary_suffix::<F>(rest, s);
            let (right, after) = spec_primary::<F>(rest);
            if let Ok(r) = right {
                let combined = if t[0] == TokenView::And {
                    F::spec_and(left, r)
                } else {
                    F::spec_or(left, r)
                };
                if after.len() < t.len() {
                    lemma_operators_suffix::<F>(combined, after, precedence, s);
                }
            }
        }
    }
}

/// Putting parentheses round an expression that reads to the end does not
/// change what it reads to.
pub proof fn lemma_parenthesized<F: CommonFilterParser + FilterCombinator<'static>>(
    t: Seq<TokenView>,
)
    requires
        spec_expression::<F>(t, 0).0 is Ok,
        spec_expression::<F>(t, 0).1.len() == 0,
    ensures
        spec_expression::<F>(seq![TokenView::OpenParen] + t + seq![TokenView::CloseParen], 0)
            == spec_expression::<F>(t, 0),
{
    let close = seq![TokenView::CloseParen];
    let whole = seq![TokenView::OpenParen] + t + close;
    lemma_expression_suffix::<F>(t, 0, close);
    assert(whole[0] == TokenView::OpenParen);
    assert(whole.drop_first() =~= t + close);
    let after = spec_expression::<F>(t, 0).1 + close;
    assert(after =~= close);
    assert(after.drop_first() =~= Seq::<TokenView>::empty());
    let v = spec_expression::<F>(t, 0).0->Ok_0;
    assert(spec_primary::<F>(whole) == (
        Ok::<<F as View>::V, ParseErrorView>(v),
        Seq::<TokenView>::empty(),
    ));
    assert(spec_operators::<F>(v, Seq::<TokenView>::empty(), 0) == (
        Ok::<<F as View>::V, ParseErrorView>(v),
        Seq::<TokenView>::empty(),
    ));
    assert(spec_expression::<F>(t, 0) == (
        Ok::<<F as View>::V, ParseErrorView>(v),
        Seq::<TokenView>::empty(),
    ));
}

/// `t` reads, to its last token, as the expression `v`.
pub open spec fn reads_to<F: CommonFilterParser + FilterCombinator<'static>>(
    t: Seq<TokenView>,
    v: <F as View>::V,
) -> bool {
    spec_expression::<F>(t, 0) == (Ok::<<F as View>::V, ParseErrorView>(v), Seq::<TokenView>::empty())
}

/// `t` is a single operand, read to its last token, that denotes `v`.
pub open spec fn operand<F: CommonFilterParser + FilterCombinator<'static>>(
    t: Seq<TokenView>,
    v: <F as View>::V,
) -> bool {
    spec_primary::<F>(t) == (Ok::<<F as View>::V, ParseErrorView>(v), Seq::<TokenView>::empty())
}

/// A whole expression in parentheses is an operand that denotes it.
pub proof fn lemma_group_operand<F: CommonFilterParser + FilterCombinator<'static>>(
    t: Seq<TokenView>,
    v: <F as View>::V,
)
    requires
        reads_to::<F>(t, v),
    ensures
        operand::<F>(seq![TokenView::OpenParen] + t + seq![TokenView::CloseParen], v),
{
    lemma_parenthesized::<F>(t);
    let close = seq![TokenView::CloseParen];
    let whole = seq![TokenView::OpenParen] + t + close;
    lemma_expression_suffix::<F>(t, 0, close);
    assert(whole[0] == TokenView::OpenParen);
    assert(whole.drop_first() =~= t + close);
    assert((Seq::<TokenView>::empty() + close) =~= close);
    assert(close.drop_first() =~= Seq::<TokenView>::empty());
}

/// An operand read on its own is a whole expression.
proof fn lemma_operand_reads<F: CommonFilterParser + FilterCombinator<'static>>(
    t: Seq<TokenView>,
    v: <F as View>::V,
)
    requires
        operand::<F>(t, v),
    ensures
        reads_to::<F>(t, v),
{
    lemma_progress::<F>(t, 0, v);
}

/// `a AND b` reads as the conjunction of its operands, and shows a row
/// exactly when both operands do.
pub proof fn lemma_and_expression<F>(
    ta: Seq<TokenView>,
    tb: Seq<TokenView>,
    a: <F as View>::V,
    b: <F as View>::V,
    ctx: &<F as FilterExpression<'static>>::Context,
) where F: FilterLogic<'static>
    requires
        operand::<F>(ta, a),
        operand::<F>(tb, b),
    ensures
        reads_to::<F>(ta + seq![TokenView::And] + tb, F::spec_and(a, b)),
        F::spec_matches(F::spec_and(a, b), ctx) == (F::spec_matches(a, ctx) && F::spec_matches(
            b,
            ctx,
        )),
{
    lemma_binary::<F>(ta, tb, a, b, TokenView::And);
    F::lemma_and_matches(a, b, ctx);
}

/// `a OR b` reads as the disjunction of its operands, and shows a row
/// exactly when either operand does.
pub proof fn lemma_or_expression<F>(
    ta: Seq<TokenView>,
    tb: Seq<TokenView>,
    a: <F as View>::V,
    b: <F as View>::V,
    ctx: &<F as FilterExpression<'static>>::Context,
) where F: FilterLogic<'static>
    requires
        operand::<F>(ta, a),
        operand::<F>(tb, b),
    ensures
        reads_to::<F>(ta + seq![TokenView::Or] + tb, F::spec_or(a, b)),
        F::spec_matches(F::spec_or(a, b), ctx) == (F::spec_matches(a, ctx) || F::spec_matches(
            b,
            ctx,
        )),
{
    lemma_binary::<F>(ta, tb, a, b, TokenView::Or);
    F::lemma_or_matches(a, b, ctx);
}

proof fn lemma_binary<F: CommonFilterParser + FilterCombinator<'static>>(
    ta: Seq<TokenView>,
    tb: Seq<TokenView>,
    a: <F as View>::V,
    b: <F as View>::V,
    op: TokenView,
)
    requires
        operand::<F>(ta, a),
        operand::<F>(tb, b),
        op == TokenView::And || op == TokenView::Or,
    ensures
        reads_to::<F>(
            ta + seq![op] + tb,
            if op == TokenView::And {
                F::spec_and(a, b)
            } else {
                F::spec_or(a, b)
            },
        ),
{
    let tail = seq![op] + tb;
    let whole = ta + seq![op] + tb;
    assert(whole =~= ta + tail);
    lemma_primary_suffix::<F>(ta, tail);
    assert(Seq::<TokenView>::empty() + tail =~= tail);
    lemma_progress::<F>(ta, 0, a);
    assert(tail[0] == op);
    assert(tail.drop_first() =~= tb);
    let combined = if op == TokenView::And {
        F::spec_and(a, b)
    } else {
        F::spec_or(a, b)
    };
    assert(spec_operators::<F>(combined, Seq::<TokenView>::empty(), 0) == (
        Ok::<<F as View>::V, ParseErrorView>(combined),
        Seq::<TokenView>::empty(),
    ));
}

/// `NOT a` reads as the negation of its operand, and shows a row exactly
/// when the operand does not.
pub proof fn lemma_not_expression<F>(
    t: Seq<TokenView>,
    a: <F as View>::V,
    ctx: &<F as FilterExpression<'static>>::Context,
) where F: FilterLogic<'static>
    requires
        operand::<F>(t, a),
    ensures
        operand::<F>(seq![TokenView::Not] + t, F::spec_not(a)),
        reads_to::<F>(seq![TokenView::Not] + t, F::spec_not(a)),
        F::spec_matches(F::spec_not(a), ctx) == !F::spec_matches(a, ctx),
{
    let whole = seq![TokenView::Not] + t;
    assert(whole[0] == TokenView::Not);
    assert(whole.drop_first() =~= t);
    lemma_operand_reads::<F>(whole, F::spec_not(a));
    F::lemma_not_matches(a, ctx);
}

/// `NOT NOT a` shows exactly the rows that `a` shows.
pub proof fn lemma_double_negation<F>(
    t: Seq<TokenView>,
    a: <F as View>::V,
    ctx: &<F as FilterExpression<'static>>::Context,
) where F: FilterLogic<'static>
    requires
        operand::<F>(t, a),
    ensures
        reads_to::<F>(seq![TokenView::Not, TokenView::Not] + t, F::spec_not(F::spec_not(a))),
        F::spec_matches(F::spec_not(F::spec_not(a)), ctx) == F::spec_matches(a, ctx),
{
    lemma_not_expression::<F>(t, a, ctx);
    let once = seq![TokenView::Not] + t;
    lemma_not_expression::<F>(once, F::spec_not(a), ctx);
    assert(seq![TokenView::Not] + once =~= seq![TokenView::Not, TokenView::Not] + t);
}

/// Operators are applied from left to right: `a OR b AND c` reads as
/// `(a OR b) AND c`.
pub proof fn lemma_left_to_right<F: CommonFilterParser + FilterCombinator<'static>>(
    ta: Seq<TokenView>,
    tb: Seq<TokenView>,
    tc: Seq<TokenView>,
    a: <F as View>::V,
    b: <F as View>::V,
    c: <F as View>::V,
)
    requires
        operand::<F>(ta, a),
        operand::<F>(tb, b),
        operand::<F>(tc, c),
    ensures
        reads_to::<F>(
            ta + seq![TokenView::Or] + tb + seq![TokenView::And] + tc,
            F::spec_and(F::spec_or(a, b), c),
        ),
{
    let t1 = seq![TokenView::Or] + tb + seq![TokenView::And] + tc;
    let whole = ta + seq![TokenView::Or] + tb + seq![TokenView::And] + tc;
    assert(whole =~= ta + t1);
    lemma_primary_suffix::<F>(ta, t1);
    assert(Seq::<TokenView>::empty() + t1 =~= t1);
    lemma_progress::<F>(ta, 0, a);
    assert(t1[0] == TokenView::Or);
    let t2 = seq![TokenView::And] + tc;
    assert(t1.drop_first() =~= tb + t2);
    lemma_primary_suffix::<F>(tb, t2);
    assert(Seq::<TokenView>::empty() + t2 =~= t2);
    let ab = F::spec_or(a, b);
    assert(t2[0] == TokenView::And);
    assert(t2.drop_first() =~= tc);
    let abc = F::spec_and(ab, c);
    assert(spec_operators::<F>(abc, Seq::<TokenView>::empty(), 0) == (
        Ok::<<F as View>::V, ParseErrorView>(abc),
        Seq::<TokenView>::empty(),
    ));
    assert(spec_operators::<F>(ab, t2, 0) == (
        Ok::<<F as View>::V, ParseErrorView>(abc),
        Seq::<TokenView>::empty(),
    ));
}

/// A text in parentheses.
pub open spec fn parenthesized(s: Seq<char>) -> Seq<char> {
    seq!['('] + s + seq![')']
}

/// A text without parentheses is balanced.
pub(crate) proof fn lemma_scan_plain(s: Seq<char>)
    requires
        forall|i: int| 0 <= i < s.len() ==> #[trigger] s[i] != '(' && s[i] != ')',
    ensures
        paren_scan(s) == Some(0nat),
    decreases s.len(),
{
    if s.len() > 0 {
        lemma_scan_plain(s.drop_last());
        assert(s.last() == s[s.len() - 1]);
    }
}

proof fn lemma_scan_opened(t: Seq<char>, d: nat)
    requires
        paren_scan(t) == Some(d),
    ensures
        paren_scan(seq!['('] + t) == Some(d + 1),
    decreases t.len(),
{
    let w = seq!['('] + t;
    if t.len() == 0 {
        assert(w.drop_last() =~= Seq::<char>::empty());
        assert(w.last() == '(');
        assert(paren_scan(Seq::<char>::empty()) == Some(0nat));
    } else {
        assert(w.drop_last() =~= seq!['('] + t.drop_last());
        assert(w.last() == t.last());
        match paren_scan(t.drop_last()) {
            Some(d0) => {
                lemma_scan_opened(t.drop_last(), d0);
            },
            None => {},
        }
    }
}

/// A text without parentheses found in a parenthesised text is found in
/// the text itself.
proof fn lemma_found_inside(l: Seq<char>, n: Seq<char>)
    requires
        n.len() > 0,
        n[0] != '(',
        n.last() != ')',
        has_substring(parenthesized(l), n),
    ensures
        has_substring(l, n),
{
    let w = parenthesized(l);
    let i = choose|i: int|
        0 <= i && i + n.len() <= w.len() && #[trigger] w.subrange(i, i + n.len()) == n;
    assert(w.subrange(i, i + n.len())[0] == w[i]);
    assert(i >= 1);
    assert(w.subrange(i, i + n.len())[n.len() - 1] == w[i + n.len() - 1]);
    assert(i + n.len() <= l.len() + 1);
    assert(l.subrange(i - 1, i - 1 + n.len()) =~= n);
}

/// Lower-casing the text in parentheses lower-cases the text alone, for
/// ASCII text, and for other text where the Unicode mapping does so.
proof fn lemma_lowercased_parenthesized(s: Seq<char>)
    requires
        is_ascii_text(s) || str_lowercase(parenthesized(s)) == parenthesized(str_lowercase(s)),
    ensures
        lowercased(parenthesized(s)) == parenthesized(lowercased(s)),
{
    let o = seq!['('];
    let c = seq![')'];
    assert(is_ascii_text(o) && is_ascii_text(c)) by {
        assert(o[0] == '(' && c[0] == ')');
    }
    lemma_lowercased_between(o, s, c);
    assert(ascii_lowered(o) =~= o);
    assert(ascii_lowered(c) =~= c);
}

/// Putting parentheses round the text of a filter that reads to its end
/// does not change what it parses to.  For text that is not all ASCII this
/// is stated where `str::to_lowercase` of the text in parentheses is its
/// lower-cased text in parentheses.
pub proof fn lemma_parenthesized_text<F: CommonFilterParser + FilterCombinator<'static>>(
    s: Seq<char>,
)
    requires
        spec_parse_filter::<F>(s) is Ok,
        spec_expression::<F>(lex(s), 0).1.len() == 0,
        is_ascii_text(s) || str_lowercase(parenthesized(s)) == parenthesized(str_lowercase(s)),
    ensures
        spec_parse_filter::<F>(parenthesized(s)) == spec_parse_filter::<F>(s),
{
    lemma_lowercased_parenthesized(s);
    let w = parenthesized(s);
    assert(syntax_error(s) is None);
    // Blank: the text in parentheses starts and ends with a parenthesis.
    assert(w[0] == '(');
    assert(trim_start(w) == w);
    assert(w.last() == ')');
    assert(trim_end(w) == w);
    assert(str_trim(w).len() > 0);
    // Balance.
    lemma_scan_opened(s, 0);
    assert(w.drop_last() =~= seq!['('] + s);
    assert(paren_scan(w) == Some(0nat));
    // Doubled operators.
    reveal_strlit("and and");
    reveal_strlit("or or");
    if has_substring(lowercased(w), "and and"@) {
        lemma_found_inside(lowercased(s), "and and"@);
    }
    if has_substring(lowercased(w), "or or"@) {
        lemma_found_inside(lowercased(s), "or or"@);
    }
    assert(syntax_error(w) is None);
    lemma_lex_parenthesized(s);
    lemma_parenthesized::<F>(lex(s));
}

/// The text `NOT (s)`.
pub open spec fn negated(s: Seq<char>) -> Seq<char> {
    "NOT "@ + parenthesized(s)
}

proof fn lemma_scan_concat(q: Seq<char>, t: Seq<char>, e: nat, d: nat)
    requires
        paren_scan(q) == Some(e),
        paren_scan(t) == Some(d),
    ensures
        paren_scan(q + t) == Some(e + d),
    decreases t.len(),
{
    let w = q + t;
    if t.len() == 0 {
        assert(w =~= q);
    } else {
        assert(w.drop_last() =~= q + t.drop_last());
        assert(w.last() == t.last());
        match paren_scan(t.drop_last()) {
            Some(d0) => {
                lemma_scan_concat(q, t.drop_last(), e, d0);
            },
            None => {},
        }
    }
}

/// Lower-casing `NOT (s)` gives `not (` and the lower-cased `s`, for ASCII
/// text, and for other text where the Unicode mapping does so.
proof fn lemma_lowercased_negated(s: Seq<char>)
    requires
        is_ascii_text(s) || str_lowercase(negated(s)) == "not "@ + parenthesized(str_lowercase(s)),
    ensures
        lowercased(negated(s)) == "not "@ + parenthesized(lowercased(s)),
{
    reveal_strlit("NOT ");
    reveal_strlit("not ");
    let o = "NOT "@ + seq!['('];
    let c = seq![')'];
    assert(is_ascii_text(o) && is_ascii_text(c)) by {
        assert(o[0] == 'N' && o[1] == 'O' && o[2] == 'T' && o[3] == ' ' && o[4] == '(');
        assert(c[0] == ')');
    }
    assert(negated(s) =~= o + s + c);
    lemma_lowercased_between(o, s, c);
    assert(ascii_lowered(o) =~= "not "@ + seq!['(']);
    assert(ascii_lowered(c) =~= c);
    assert(("not "@ + seq!['(']) + lowercased(s) + c =~= "not "@ + parenthesized(lowercased(s)));
}

/// `NOT` before the text of a filter in parentheses, where the filter reads
/// to its end, parses to the negation of that filter.  For text that is not
/// all ASCII this is stated where `str::to_lowercase` of the whole text is
/// `not (`, the filter's lower-cased text and `)`.
pub proof fn lemma_negated_text<F: CommonFilterParser + FilterCombinator<'static>>(s: Seq<char>)
    requires
        spec_parse_filter::<F>(s) is Ok,
        spec_expression::<F>(lex(s), 0).1.len() == 0,
        is_ascii_text(s) || str_lowercase(negated(s)) == "not "@ + parenthesized(str_lowercase(s)),
    ensures
        spec_parse_filter::<F>(negated(s)) == Ok::<<F as View>::V, ParseErrorView>(
            F::spec_not(spec_parse_filter::<F>(s)->Ok_0),
        ),
{
    lemma_lowercased_negated(s);
    reveal_strlit("NOT ");
    reveal_strlit("not ");
    reveal_strlit("and and");
    reveal_strlit("or or");
    let w = negated(s);
    let p = parenthesized(s);
    assert(syntax_error(s) is None);
    // Blank.
    assert(w[0] == 'N');
    assert(trim_start(w) == w);
    assert(w.last() == ')');
    assert(trim_end(w) == w);
    // Balance.
    lemma_scan_opened(s, 0);
    assert(p.drop_last() =~= seq!['('] + s);
    assert(paren_scan(p) == Some(0nat));
    let head = "NOT "@;
    assert(head.drop_last() =~= seq!['N', 'O', 'T']);
    assert(seq!['N', 'O', 'T'].drop_last() =~= seq!['N', 'O']);
    assert(seq!['N', 'O'].drop_last() =~= seq!['N']);
    assert(seq!['N'].drop_last() =~= Seq::<char>::empty());
    assert(paren_scan(Seq::<char>::empty()) == Some(0nat));
    assert(seq!['N'].last() == 'N');
    assert(seq!['N', 'O'].last() == 'O');
    assert(seq!['N', 'O', 'T'].last() == 'T');
    assert(head.last() == ' ');
    assert(paren_scan(seq!['N']) == Some(0nat));
    assert(paren_scan(seq!['N', 'O']) == Some(0nat));
    assert(paren_scan(seq!['N', 'O', 'T']) == Some(0nat));
    assert(paren_scan(head) == Some(0nat));
    lemma_scan_concat(head, p, 0, 0);
    assert(paren_scan(w) == Some(0nat));
    // Doubled operators.
    let lw = lowercased(w);
    let lp = parenthesized(lowercased(s));
    assert(lw =~= "not "@ + lp);
    let ops = seq!["and and"@, "or or"@];
    assert forall|k: int| 0 <= k < 2 && has_substring(lw, #[trigger] ops[k]) implies has_substring(
        lowercased(s),
        ops[k],
    ) by {
        let n = ops[k];
        let i = choose|i: int|
            0 <= i && i + n.len() <= lw.len() && #[trigger] lw.subrange(i, i + n.len()) == n;
        assert(lw.subrange(i, i + n.len())[0] == lw[i]);
        assert(lw.subrange(i, i + n.len())[1] == lw[i + 1]);
        assert(i >= 4);
        assert(lp.subrange(i - 4, i - 4 + n.len()) =~= n);
        lemma_found_inside(lowercased(s), n);
    }
    assert(ops[0] == "and and"@);
    assert(ops[1] == "or or"@);
    assert(syntax_error(w) is None);
    // Parsing.
    let v = spec_parse_filter::<F>(s)->Ok_0;
    assert(spec_expression::<F>(lex(s), 0).1 =~= Seq::<TokenView>::empty());
    assert(reads_to::<F>(lex(s), v));
    lemma_lex_not_parenthesized(s);
    lemma_group_operand::<F>(lex(s), v);
    let g = seq![TokenView::OpenParen] + lex(s) + seq![TokenView::CloseParen];
    let t = seq![TokenView::Not] + g;
    assert(t =~= seq![TokenView::Not, TokenView::OpenParen] + lex(s) + seq![
        TokenView::CloseParen,
    ]);
    assert(t[0] == TokenView::Not);
    assert(t.drop_first() =~= g);
    lemma_operand_reads::<F>(t, F::spec_not(v));
}

proof fn lemma_trim_blank(s: Seq<char>)
    requires
        forall|i: int| 0 <= i < s.len() ==> is_white_space(#[trigger] s[i]),
    ensures
        trim_start(s).len() == 0,
    decreases s.len(),
{
    if s.len() > 0 {
        assert forall|i: int| 0 <= i < s.drop_first().len() implies is_white_space(
            #[trigger] s.drop_first()[i],
        ) by {
            assert(s.drop_first()[i] == s[i + 1]);
        }
        lemma_trim_blank(s.drop_first());
    }
}

/// A filter text made of white space only is refused as an empty
/// expression.
pub proof fn lemma_blank_text<F: CommonFilterParser + FilterCombinator<'static>>(s: Seq<char>)
    requires
        forall|i: int| 0 <= i < s.len() ==> is_white_space(#[trigger] s[i]),
    ensures
        spec_parse_filter::<F>(s) == Err::<<F as View>::V, ParseErrorView>(
            ParseErrorView::EmptyExpression,
        ),
{
    lemma_trim_blank(s);
    assert(trim_end(trim_start(s)) =~= Seq::<char>::empty());
}

/// `{:?}` of a token that carries no text.
fn unit_token_debug(t: &Token) -> (s: String)
    requires
        !(t@ is Filter),
    ensures
        s@ == unit_token_name(t@),
{
    match t {
        Token::OpenParen => string_from_literal("OpenParen"),
        Token::CloseParen => string_from_literal("CloseParen"),
        Token::And => string_from_literal("And"),
        Token::Or => string_from_literal("Or"),
        Token::Not => string_from_literal("Not"),
        Token::Colon => string_from_literal("Colon"),
        Token::Filter(_) => String::new(),
    }
}

/// Parses an expression from the lexer's tokens (see [`spec_expression`]),
/// leaving the tokens that follow it.
pub fn parse_expression<F>(lexer: &mut Lexer, precedence: u8) -> (r: ParseResult<F>) where
    F: CommonFilterParser + FilterCombinator<'static>,

    ensures
        (result_view(r), final(lexer)@) == spec_expression::<F>(old(lexer)@, precedence),
    decreases old(lexer)@.len(), 1nat,
{
    if lexer.is_empty() {
        return Err(ParseError::EmptyExpression);
    }
    let first = primary_parser::<F>(lexer);
    let mut left = match first {
        Err(e) => {
            return Err(e);
        },
        Ok(l) => l,
    };
    proof {
        lemma_progress::<F>(old(lexer)@, precedence, left@);
    }
    loop
        invariant
            lexer@.len() < old(lexer)@.len(),
            spec_expression::<F>(old(lexer)@, precedence) == spec_operators::<F>(
                left@,
                lexer@,
                precedence,
            ),
        ensures
            spec_expression::<F>(old(lexer)@, precedence) == (
            Ok::<<F as View>::V, ParseErrorView>(left@),
            lexer@,
            ),
        decreases lexer@.len(),
    {
        let is_and: bool;
        let proceed: bool;
        {
            match lexer.peek_token() {
                None => {
                    is_and = false;
                    proceed = false;
                },
                Some(token) => {
                    let p = get_operator_precedence(token);
                    is_and = match token {
                        Token::And => true,
                        _ => false,
                    };
                    let is_or = match token {
                        Token::Or => true,
                        _ => false,
                    };
                    proceed = p >= precedence && (is_and || is_or);
                },
            }
        }
        if !proceed {
            break ;
        }
        let ghost toks = lexer@;
        let _op = lexer.next_token();
        let right = primary_parser::<F>(lexer);
        proof {
            lemma_progress::<F>(toks.drop_first(), precedence, left@);
        }
        match right {
            Err(_) => {
                return Err(ParseError::MissingOperand);
            },
            Ok(r) => {
                left = if is_and {
                    F::and(left, r)
                } else {
                    F::or(left, r)
                };
            },
        }
    }
    Ok(left)
}

/// Reads one operand (see [`spec_primary`]).
fn primary_parser<F>(lexer: &mut Lexer) -> (r: ParseResult<F>) where
    F: CommonFilterParser + FilterCombinator<'static>,

    ensures
        (result_view(r), final(lexer)@) == spec_primary::<F>(old(lexer)@),
    decreases old(lexer)@.len(), 0nat,
{
    let token = lexer.next_token();
    match token {
        None => Err(ParseError::InvalidToken(string_from_literal("Empty token"))),
        Some(Token::OpenParen) => {
            let inner = parse_expression::<F>(lexer, 0);
            match inner {
                Err(e) => Err(e),
                Ok(expr) => match lexer.next_token() {
                    Some(Token::CloseParen) => Ok(expr),
                    Some(_) => Err(ParseError::UnmatchedParenthesis),
                    None => Err(ParseError::UnmatchedParenthesis),
                },
            }
        },
        Some(Token::Not) => {
            let inner = primary_parser::<F>(lexer);
            match inner {
                Err(e) => Err(e),
                Ok(expr) => Ok(F::not(expr)),
            }
        },
        Some(Token::Filter(prefix)) => {
            let colon = lexer.next_token();
            let has_colon = match colon {
                Some(Token::Colon) => true,
                _ => false,
            };
            if !has_colon {
                return Err(
                    ParseError::InvalidSyntax(
                        concat3("Missing colon after '", prefix.as_str(), "' filter"),
                    ),
                );
            }
            match lexer.next_token() {
                Some(Token::Filter(value)) => F::parse_filter_value(prefix.as_str(), value.as_str()),
                _ => Err(
                    ParseError::InvalidSyntax(
                        concat3("Missing value after '", prefix.as_str(), "':"),
                    ),
                ),
            }
        },
        Some(other) => {
            let name = unit_token_debug(&other);
            let mut message = string_from_literal("Unexpected token: ");
            message.append(name.as_str());
            Err(ParseError::InvalidToken(message))
        },
    }
}

/// Open parentheses not yet closed after reading `s`; `None` once a `)`
/// has closed more than was opened.
pub open spec fn paren_scan(s: Seq<char>) -> Option<nat>
    decreases s.len(),
{
    if s.len() == 0 {
        Some(0)
    } else {
        match paren_scan(s.drop_last()) {
            None => None,
            Some(d) => if s.last() == '(' {
                Some(d + 1)
            } else if s.last() == ')' {
                if d == 0 {
                    None
                } else {
                    Some((d - 1) as nat)
                }
            } else {
                Some(d)
            },
        }
    }
}

/// Why the syntax check refuses `input`, if it does: blank input, then
/// unbalanced parentheses, then a doubled `and` or `or` (in any case).
pub open spec fn syntax_error(input: Seq<char>) -> Option<ParseErrorView> {
    if str_trim(input).len() == 0 {
        Some(ParseErrorView::EmptyExpression)
    } else if paren_scan(input) != Some(0nat) {
        Some(ParseErrorView::UnmatchedParenthesis)
    } else if has_substring(lowercased(input), "and and"@) || has_substring(
        lowercased(input),
        "or or"@,
    ) {
        Some(ParseErrorView::InvalidSyntax("Consecutive operators"@))
    } else {
        None
    }
}

/// Quick checks made before parsing (see [`syntax_error`]).
pub fn validate_filter_syntax(input: &str) -> (r: ParseResult<()>)
    ensures
        match r {
            Ok(_) => syntax_error(input@) is None,
            Err(e) => syntax_error(input@) == Some(e@),
        },
{
    let trimmed = trim(input);
    if trimmed.is_empty() {
        return Err(ParseError::EmptyExpression);
    }
    let chars = chars_of(input);
    let mut depth: usize = 0;
    let mut i: usize = 0;
    assert(chars@.subrange(0, 0) =~= Seq::<char>::empty());
    while i < chars.len()
        invariant
            chars@ == input@,
            str_trim(input@).len() > 0,
            i <= chars@.len(),
            depth <= i,
            paren_scan(chars@.subrange(0, i as int)) == Some(depth as nat),
        decreases chars.len() - i,
    {
        let c = chars[i];
        assert(chars@.subrange(0, i + 1).drop_last() =~= chars@.subrange(0, i as int));
        assert(chars@.subrange(0, i + 1).last() == c);
        if c == '(' {
            depth = depth + 1;
        } else if c == ')' {
            if depth == 0 {
                proof {
                    lemma_scan_stays_none(chars@, i as int + 1);
                }
                return Err(ParseError::UnmatchedParenthesis);
            }
            depth = depth - 1;
        }
        i = i + 1;
    }
    assert(chars@.subrange(0, chars.len() as int) =~= chars@);
    if depth != 0 {
        return Err(ParseError::UnmatchedParenthesis);
    }
    let lowered = to_lowercase(input);
    let lowered_chars = chars_of(lowered.as_str());
    let and_and = chars_of("and and");
    let or_or = chars_of("or or");
    if chars_contain(&lowered_chars, &and_and) || chars_contain(&lowered_chars, &or_or) {
        return Err(ParseError::InvalidSyntax(string_from_literal("Consecutive operators")));
    }
    Ok(())
}

proof fn lemma_scan_stays_none(s: Seq<char>, k: int)
    requires
        0 <= k <= s.len(),
        paren_scan(s.subrange(0, k)) is None,
    ensures
        paren_scan(s) is None,
    decreases s.len() - k,
{
    if k < s.len() {
        assert(s.subrange(0, k + 1).drop_last() =~= s.subrange(0, k));
        lemma_scan_stays_none(s, k + 1);
    } else {
        assert(s.subrange(0, k) =~= s);
    }
}

/// What [`parse_filter`] gives for `filter`.
pub open spec fn spec_parse_filter<F: CommonFilterParser + FilterCombinator<'static>>(
    filter: Seq<char>,
) -> Result<<F as View>::V, ParseErrorView> {
    match syntax_error(filter) {
        Some(e) => Err(e),
        None => spec_expression::<F>(lex(filter), 0).0,
    }
}

/// Checks, splits and parses a filter expression.
pub fn parse_filter<F>(filter: &str) -> (r: Result<F, ParseError>) where
    F: CommonFilterParser + FilterCombinator<'static>,

    ensures
        result_view(r) == spec_parse_filter::<F>(filter@),
{
    match validate_filter_syntax(filter) {
        Err(e) => {
            return Err(e);
        },
        Ok(_) => {},
    }
    let mut lexer = Lexer::new(filter);
    parse_expression::<F>(&mut lexer, 0)
}

/// Whether a table shows a row under the filter text `filter`: a filter
/// that does not parse hides nothing.
pub open spec fn shows_row<'a, F>(filter: Seq<char>, ctx: &<F as FilterExpression<'a>>::Context) -> bool where
    F: CommonFilterParser + FilterCombinator<'static> + FilterExpression<'a>,
 {
    match spec_parse_filter::<F>(filter) {
        Ok(f) => F::spec_matches(f, ctx),
        Err(_) => true,
    }
}

/// Parses `filter` and checks it against a row; a filter that does not
/// parse hides nothing.
pub fn parsed_filter_matches<'a, F>(
    filter: &str,
    ctx: &<F as FilterExpression<'a>>::Context,
) -> (r: bool) where F: CommonFilterParser + FilterCombinator<'static> + FilterExpression<'a>
    ensures
        r == shows_row::<'a, F>(filter@, ctx),
{
    match parse_filter::<F>(filter) {
        Ok(f) => f.matches(ctx),
        Err(_) => true,
    }
}

} // verus!
