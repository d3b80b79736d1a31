//! Splits a filter expression into tokens.
use vstd::prelude::*;
use std::collections::VecDeque;
use super::types::{Token, TokenView};
use crate::text::{ascii_lowered, is_ascii_text, lowercased, push_char, str_eq, to_lowercase};

verus! {

/// How a space-terminated word is read, given its lower-case form:
/// `and`, `or` and `not` are operators, anything else is a filter word.
pub open spec fn classify_word(word: Seq<char>, lower: Seq<char>) -> TokenView {
    if lower == "and"@ {
        TokenView::And
    } else if lower == "or"@ {
        TokenView::Or
    } else if lower == "not"@ {
        TokenView::Not
    } else {
        TokenView::Filter(word)
    }
}

/// The token of a word that a space ends (operators are recognised
/// whatever their case).
pub open spec fn word_token(word: Seq<char>) -> TokenView {
    classify_word(word, lowercased(word))
}

/// Appends the pending word, if any, as a filter token.
pub open spec fn flush(tokens: Seq<TokenView>, current: Seq<char>) -> Seq<TokenView> {
    if current.len() > 0 {
        tokens.push(TokenView::Filter(current))
    } else {
        tokens
    }
}

/// One character of input: `(`, `)` and `:` end the pending word (which
/// then always counts as a filter word) and are tokens of their own; a space
/// ends the pending word, which may be an operator; any other character
/// extends the pending word.
pub open spec fn lex_step(state: (Seq<TokenView>, Seq<char>), c: char) -> (Seq<TokenView>, Seq<char>) {
    let (tokens, current) = state;
    if c == '(' {
        (flush(tokens, current).push(TokenView::OpenParen), Seq::empty())
    } else if c == ')' {
        (flush(tokens, current).push(TokenView::CloseParen), Seq::empty())
    } else if c == ':' {
        (flush(tokens, current).push(TokenView::Colon), Seq::empty())
    } else if c == ' ' {
        if current.len() > 0 {
            (tokens.push(word_token(current)), Seq::empty())
        } else {
            (tokens, current)
        }
    } else {
        (tokens, current.push(c))
    }
}

/// Tokens and pending word after reading `input`.
pub open spec fn lex_state(input: Seq<char>) -> (Seq<TokenView>, Seq<char>)
    decreases input.len(),
{
    if input.len() == 0 {
        (Seq::empty(), Seq::empty())
    } else {
        lex_step(lex_state(input.drop_last()), input.last())
    }
}

/// The tokens of a whole input; a word left pending at the end is a filter
/// word.
pub open spec fn lex(input: Seq<char>) -> Seq<TokenView> {
    flush(lex_state(input).0, lex_state(input).1)
}

/// Tokens and pending word after reading `input` from the state `st`.
pub open spec fn lex_run(st: (Seq<TokenView>, Seq<char>), input: Seq<char>) -> (
    Seq<TokenView>,
    Seq<char>,
)
    decreases input.len(),
{
    if input.len() == 0 {
        st
    } else {
        lex_step(lex_run(st, input.drop_last()), input.last())
    }
}

pub(crate) proof fn lemma_lex_state_run(input: Seq<char>)
    ensures
        lex_state(input) == lex_run((Seq::empty(), Seq::empty()), input),
    decreases input.len(),
{
    if input.len() > 0 {
        lemma_lex_state_run(input.drop_last());
    }
}

pub(crate) proof fn lemma_lex_run_concat(st: (Seq<TokenView>, Seq<char>), a: Seq<char>, b: Seq<char>)
    ensures
        lex_run(st, a + b) == lex_run(lex_run(st, a), b),
    decreases b.len(),
{
    if b.len() == 0 {
        assert(a + b =~= a);
    } else {
        assert((a + b).drop_last() =~= a + b.drop_last());
        assert((a + b).last() == b.last());
        lemma_lex_run_concat(st, a, b.drop_last());
    }
}

/// A character that neither ends a word nor is a token of its own.
pub open spec fn is_word_char(c: char) -> bool {
    c != '(' && c != ')' && c != ':' && c != ' '
}

/// Reading word characters only extends the pending word.
pub(crate) proof fn lemma_lex_word(st: (Seq<TokenView>, Seq<char>), w: Seq<char>)
    requires
        forall|i: int| 0 <= i < w.len() ==> is_word_char(#[trigger] w[i]),
    ensures
        lex_run(st, w) == (st.0, st.1 + w),
    decreases w.len(),
{
    if w.len() == 0 {
        assert(st.1 + w =~= st.1);
    } else {
        lemma_lex_word(st, w.drop_last());
        assert((st.1 + w.drop_last()).push(w.last()) =~= st.1 + w);
    }
}

/// Reading one character is one step.
pub(crate) proof fn lemma_lex_char(st: (Seq<TokenView>, Seq<char>), c: char)
    ensures
        lex_run(st, seq![c]) == lex_step(st, c),
{
    assert(seq![c].drop_last() =~= Seq::<char>::empty());
    assert(seq![c].last() == c);
    assert(lex_run(st, Seq::<char>::empty()) == st);
}

/// Reading from a state with tokens `p` only appends to `p`.
proof fn lemma_lex_run_prefix(p: Seq<TokenView>, c: Seq<char>, input: Seq<char>)
    ensures
        lex_run((p, c), input) == (
            p + lex_run((Seq::empty(), c), input).0,
            lex_run((Seq::empty(), c), input).1,
        ),
    decreases input.len(),
{
    if input.len() == 0 {
        assert(p + Seq::<TokenView>::empty() =~= p);
    } else {
        lemma_lex_run_prefix(p, c, input.drop_last());
        let (t, cur) = lex_run((Seq::empty(), c), input.drop_last());
        let ch = input.last();
        assert(flush(p + t, cur) =~= p + flush(t, cur));
        assert((p + t).push(TokenView::OpenParen) =~= p + t.push(TokenView::OpenParen));
        assert(flush(p + t, cur).push(TokenView::OpenParen) =~= p + flush(t, cur).push(
            TokenView::OpenParen,
        ));
        assert(flush(p + t, cur).push(TokenView::CloseParen) =~= p + flush(t, cur).push(
            TokenView::CloseParen,
        ));
        assert(flush(p + t, cur).push(TokenView::Colon) =~= p + flush(t, cur).push(
            TokenView::Colon,
        ));
        assert((p + t).push(word_token(cur)) =~= p + t.push(word_token(cur)));
    }
}

/// A text in parentheses reads as its tokens in parentheses.
pub proof fn lemma_lex_parenthesized(s: Seq<char>)
    ensures
        lex(seq!['('] + s + seq![')']) == seq![TokenView::OpenParen] + lex(s) + seq![
            TokenView::CloseParen,
        ],
{
    let open = seq!['('];
    let whole = open + s + seq![')'];
    let e = (Seq::<TokenView>::empty(), Seq::<char>::empty());
    lemma_lex_state_run(whole);
    lemma_lex_state_run(s);
    lemma_lex_run_concat(e, open + s, seq![')']);
    lemma_lex_run_concat(e, open, s);
    assert(open.drop_last() =~= Seq::<char>::empty());
    assert(lex_run(e, Seq::<char>::empty()) == e);
    assert(open.last() == '(');
    assert(Seq::<TokenView>::empty().push(TokenView::OpenParen) =~= seq![TokenView::OpenParen]);
    assert(flush(Seq::<TokenView>::empty(), Seq::<char>::empty()) =~= Seq::<TokenView>::empty());
    assert(lex_run(e, open) == (seq![TokenView::OpenParen], Seq::<char>::empty()));
    lemma_lex_run_prefix(seq![TokenView::OpenParen], Seq::empty(), s);
    let (t, c) = lex_run(e, s);
    let mid = lex_run(e, open + s);
    assert(mid == (seq![TokenView::OpenParen] + t, c));
    let close = seq![')'];
    assert(close.drop_last() =~= Seq::<char>::empty());
    assert(close.last() == ')');
    assert(lex_run(mid, Seq::<char>::empty()) == mid);
    assert(lex_run(mid, close) == (
        flush(seq![TokenView::OpenParen] + t, c).push(TokenView::CloseParen),
        Seq::<char>::empty(),
    ));
    assert(lex_state(whole) == lex_run(mid, close));
    assert(flush(seq![TokenView::OpenParen] + t, c) =~= seq![TokenView::OpenParen] + flush(t, c));
    assert(lex(s) == flush(t, c));
    assert(lex(whole) =~= seq![TokenView::OpenParen] + lex(s) + seq![TokenView::CloseParen]);
}

/// `NOT`, `AND` and `OR` lower-case to `not`, `and` and `or`.
pub(crate) proof fn lemma_operators_lowercased()
    ensures
        lowercased("NOT"@) == "not"@,
        lowercased("AND"@) == "and"@,
        lowercased("OR"@) == "or"@,
{
    reveal_strlit("NOT");
    reveal_strlit("not");
    reveal_strlit("AND");
    reveal_strlit("and");
    reveal_strlit("OR");
    reveal_strlit("or");
    let w = "NOT"@;
    assert forall|i: int| 0 <= i < w.len() implies (#[trigger] w[i] as u32) < 128 by {
        assert(w[0] == 'N' && w[1] == 'O' && w[2] == 'T');
    }
    assert(is_ascii_text(w));
    assert(ascii_lowered(w) =~= "not"@);
    let a = "AND"@;
    assert forall|i: int| 0 <= i < a.len() implies (#[trigger] a[i] as u32) < 128 by {
        assert(a[0] == 'A' && a[1] == 'N' && a[2] == 'D');
    }
    assert(is_ascii_text(a));
    assert(ascii_lowered(a) =~= "and"@);
    let o = "OR"@;
    assert forall|i: int| 0 <= i < o.len() implies (#[trigger] o[i] as u32) < 128 by {
        assert(o[0] == 'O' && o[1] == 'R');
    }
    assert(is_ascii_text(o));
    assert(ascii_lowered(o) =~= "or"@);
}

/// `NOT ` before a text in parentheses reads as a `NOT` token before its
/// tokens in parentheses.
pub proof fn lemma_lex_not_parenthesized(s: Seq<char>)
    ensures
        lex("NOT "@ + (seq!['('] + s + seq![')'])) == seq![TokenView::Not, TokenView::OpenParen]
            + lex(s) + seq![TokenView::CloseParen],
{
    lemma_operators_lowercased();
    reveal_strlit("NOT ");
    reveal_strlit("NOT");
    reveal_strlit("not");
    reveal_strlit("and");
    reveal_strlit("or");
    let e = (Seq::<TokenView>::empty(), Seq::<char>::empty());
    let head = "NOT "@;
    let p = seq!['('] + s + seq![')'];
    let whole = head + p;
    lemma_lex_state_run(whole);
    lemma_lex_state_run(p);
    lemma_lex_run_concat(e, head, p);
    assert(head.drop_last() =~= "NOT"@);
    assert("NOT"@.drop_last() =~= seq!['N', 'O']);
    assert(seq!['N', 'O'].drop_last() =~= seq!['N']);
    assert(seq!['N'].drop_last() =~= Seq::<char>::empty());
    assert(lex_run(e, Seq::<char>::empty()) == e);
    assert(Seq::<char>::empty().push('N') =~= seq!['N']);
    assert(seq!['N'].push('O') =~= seq!['N', 'O']);
    assert(seq!['N', 'O'].push('T') =~= "NOT"@);
    assert(lex_run(e, seq!['N']) == (Seq::<TokenView>::empty(), seq!['N']));
    assert(lex_run(e, seq!['N', 'O']) == (Seq::<TokenView>::empty(), seq!['N', 'O']));
    assert(lex_run(e, "NOT"@) == (Seq::<TokenView>::empty(), "NOT"@));
    assert("not"@ != "and"@) by {
        assert("not"@[0] != "and"@[0]);
    }
    assert("not"@ != "or"@) by {
        assert("not"@.len() != "or"@.len());
    }
    assert(word_token("NOT"@) == TokenView::Not);
    assert(Seq::<TokenView>::empty().push(TokenView::Not) =~= seq![TokenView::Not]);
    assert(lex_run(e, head) == (seq![TokenView::Not], Seq::<char>::empty()));
    lemma_lex_run_prefix(seq![TokenView::Not], Seq::empty(), p);
    let (t, c) = lex_run(e, p);
    assert(flush(seq![TokenView::Not] + t, c) =~= seq![TokenView::Not] + flush(t, c));
    assert(lex(p) == flush(t, c));
    lemma_lex_parenthesized(s);
    assert(lex(whole) =~= seq![TokenView::Not, TokenView::OpenParen] + lex(s) + seq![
        TokenView::CloseParen,
    ]);
}

/// The views of a queue of tokens.
pub open spec fn tokens_view(tokens: Seq<Token>) -> Seq<TokenView> {
    tokens.map_values(|t: Token| t@)
}

impl Token {
    /// The token for a space-terminated `word` whose lower-case form is
    /// `lowered`.
    pub fn from_word(word: String, lowered: &str) -> (t: Token)
        ensures
            t@ == classify_word(word@, lowered@),
    {
        if str_eq(lowered, "and") {
            Token::And
        } else if str_eq(lowered, "or") {
            Token::Or
        } else if str_eq(lowered, "not") {
            Token::Not
        } else {
            Token::Filter(word)
        }
    }
}

/// A queue of tokens read from a filter expression.
pub struct Lexer {
    tokens: VecDeque<Token>,
}

impl View for Lexer {
    type V = Seq<TokenView>;

    closed spec fn view(&self) -> Seq<TokenView> {
        tokens_view(self.tokens@)
    }
}

impl Lexer {
    /// Splits `input` into tokens (see [`lex`]).
    pub fn new(input: &str) -> (lexer: Self)
        ensures
            lexer@ == lex(input@),
    {
        let mut tokens: VecDeque<Token> = VecDeque::new();
        let mut current = String::new();
        let n = input.unicode_len();
        let mut i: usize = 0;
        assert(tokens_view(tokens@) =~= Seq::<TokenView>::empty());
        assert(input@.subrange(0, 0) =~= Seq::<char>::empty());
        while i < n
            invariant
                n == input@.len(),
                i <= n,
                (tokens_view(tokens@), current@) == lex_state(input@.subrange(0, i as int)),
            decreases n - i,
        {
            let c = input.get_char(i);
            let ghost before = (tokens_view(tokens@), current@);
            assert(input@.subrange(0, i + 1).drop_last() =~= input@.subrange(0, i as int));
            assert(input@.subrange(0, i + 1).last() == c);
            if c == '(' {
                Self::push_if_not_empty(&mut tokens, &mut current);
                tokens.push_back(Token::OpenParen);
            } else if c == ')' {
                Self::push_if_not_empty(&mut tokens, &mut current);
                tokens.push_back(Token::CloseParen);
            } else if c == ':' {
                Self::push_if_not_empty(&mut tokens, &mut current);
                tokens.push_back(Token::Colon);
            } else if c == ' ' {
                if !current.as_str().is_empty() {
                    let lowered = to_lowercase(current.as_str());
                    let word = current.clone();
                    tokens.push_back(Token::from_word(word, lowered.as_str()));
                    current = String::new();
                }
            } else {
                push_char(&mut current, c);
            }
            assert(tokens_view(tokens@) =~= lex_step(before, c).0);
            assert(current@ =~= lex_step(before, c).1);
            i = i + 1;
        }
        assert(input@.subrange(0, n as int) =~= input@);
        Self::push_if_not_empty(&mut tokens, &mut current);
        Lexer { tokens }
    }

    fn push_if_not_empty(tokens: &mut VecDeque<Token>, current: &mut String)
        ensures
            tokens_view(final(tokens)@) == flush(tokens_view(old(tokens)@), old(current)@),
            final(current)@ == Seq::<char>::empty(),
    {
        if !current.as_str().is_empty() {
            tokens.push_back(Token::Filter(current.clone()));
            *current = String::new();
        }
        assert(tokens_view(tokens@) =~= flush(tokens_view(old(tokens)@), old(current)@));
    }

    /// Removes and returns the first token.
    pub fn next_token(&mut self) -> (t: Option<Token>)
        ensures
            old(self)@.len() > 0 ==> (t matches Some(tok) && tok@ == old(self)@[0]
                && final(self)@ == old(self)@.drop_first()),
            old(self)@.len() == 0 ==> t is None && final(self)@ == old(self)@,
    {
        let t = self.tokens.pop_front();
        proof {
            if old(self).tokens@.len() > 0 {
                assert(tokens_view(self.tokens@) =~= tokens_view(old(self).tokens@).drop_first());
            }
        }
        t
    }

    /// The first token, left in place.
    pub fn peek_token(&self) -> (t: Option<&Token>)
        ensures
            self@.len() > 0 ==> (t matches Some(tok) && tok@ == self@[0]),
            self@.len() == 0 ==> t is None,
    {
        if self.tokens.len() > 0 {
            Some(&self.tokens[0])
        } else {
            None
        }
    }

    /// How many tokens are left.
    pub fn remaining_tokens(&self) -> (n: usize)
        ensures
            n == self@.len(),
    {
        self.tokens.len()
    }

    /// No token is left.
    pub fn is_empty(&self) -> (b: bool)
        ensures
            b == (self@.len() == 0),
    {
        self.tokens.len() == 0
    }
}

/// A word that a space ends is the operator `AND`, `OR` or `NOT` when it
/// lower-cases to `and`, `or` or `not` (so in any mix of cases for ASCII
/// words), and a filter word otherwise.
pub proof fn lemma_word_tokens(w: Seq<char>)
    ensures
        lowercased(w) == "and"@ ==> word_token(w) == TokenView::And,
        lowercased(w) == "or"@ ==> word_token(w) == TokenView::Or,
        lowercased(w) == "not"@ ==> word_token(w) == TokenView::Not,
        lowercased(w) != "and"@ && lowercased(w) != "or"@ && lowercased(w) != "not"@
            ==> word_token(w) == TokenView::Filter(w),
        is_ascii_text(w) ==> lowercased(w) == ascii_lowered(w),
{
    reveal_strlit("and");
    reveal_strlit("or");
    reveal_strlit("not");
    assert("and"@.len() != "or"@.len());
    assert("not"@.len() != "or"@.len());
    assert("and"@[0] != "not"@[0]);
}

} // verus!
