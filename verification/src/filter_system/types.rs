//! Tokens of the filter language.
use vstd::prelude::*;

verus! {

/// A lexical unit of a filter expression.
#[derive(Debug, Clone, PartialEq)]
pub enum Token {
    OpenParen,
    CloseParen,
    And,
    Or,
    Not,
    Colon,
    Filter(String),
}

/// A token with its text as a sequence of characters.
pub enum TokenView {
    OpenParen,
    CloseParen,
    And,
    Or,
    Not,
    Colon,
    Filter(Seq<char>),
}

impl View for Token {
    type V = TokenView;

    open spec fn view(&self) -> TokenView {
        match self {
            Token::OpenParen => TokenView::OpenParen,
            Token::CloseParen => TokenView::CloseParen,
            Token::And => TokenView::And,
            Token::Or => TokenView::Or,
            Token::Not => TokenView::Not,
            Token::Colon => TokenView::Colon,
            Token::Filter(s) => TokenView::Filter(s@),
        }
    }
}

/// Binding strength of a token: `OR` binds 1, `AND` binds 2, every other
/// token 0.
pub open spec fn operator_precedence(token: TokenView) -> u8 {
    match token {
        TokenView::Or => 1,
        TokenView::And => 2,
        _ => 0,
    }
}

/// The binding strength of `token` (see [`operator_precedence`]).
pub fn get_operator_precedence(token: &Token) -> (p: u8)
    ensures
        p == operator_precedence(token@),
{
    match token {
        Token::Or => 1,
        Token::And => 2,
        _ => 0,
    }
}

} // verus!
