//! Errors reported while checking and parsing a filter expression.
use vstd::prelude::*;
use crate::text::{concat3, string_from_literal};

verus! {

/// Why a filter expression was refused.
#[derive(Debug, Clone, PartialEq)]
pub enum ParseError {
    UnmatchedParenthesis,
    MissingOperand,
    InvalidToken(String),
    UnexpectedToken,
    InvalidSyntax(String),
    EmptyExpression,
}

/// A [`ParseError`] with its message text as a sequence of characters.
pub enum ParseErrorView {
    UnmatchedParenthesis,
    MissingOperand,
    InvalidToken(Seq<char>),
    UnexpectedToken,
    InvalidSyntax(Seq<char>),
    EmptyExpression,
}

impl View for ParseError {
    type V = ParseErrorView;

    open spec fn view(&self) -> ParseErrorView {
        match self {
            ParseError::UnmatchedParenthesis => ParseErrorView::UnmatchedParenthesis,
            ParseError::MissingOperand => ParseErrorView::MissingOperand,
            ParseError::InvalidToken(s) => ParseErrorView::InvalidToken(s@),
            ParseError::UnexpectedToken => ParseErrorView::UnexpectedToken,
            ParseError::InvalidSyntax(s) => ParseErrorView::InvalidSyntax(s@),
            ParseError::EmptyExpression => ParseErrorView::EmptyExpression,
        }
    }
}

/// The message shown to the user for an error.
pub open spec fn error_message(e: ParseErrorView) -> Seq<char> {
    match e {
        ParseErrorView::UnmatchedParenthesis => "Unmatched parenthesis"@,
        ParseErrorView::MissingOperand => "Missing operand"@,
        ParseErrorView::InvalidToken(t) => t,
        ParseErrorView::UnexpectedToken => "Unexpected token"@,
        ParseErrorView::InvalidSyntax(s) => s,
        ParseErrorView::EmptyExpression => "Empty expression"@,
    }
}

/// A result of a parse, with both sides taken by their views.
pub open spec fn result_view<T: View>(r: Result<T, ParseError>) -> Result<T::V, ParseErrorView> {
    match r {
        Ok(t) => Ok(t@),
        Err(e) => Err(e@),
    }
}

impl ParseError {
    /// The user-facing message of this error (what its `Display` writes).
    pub fn to_string(&self) -> (s: String)
        ensures
            s@ == error_message(self@),
    {
        match self {
            ParseError::UnmatchedParenthesis => string_from_literal("Unmatched parenthesis"),
            ParseError::MissingOperand => string_from_literal("Missing operand"),
            ParseError::InvalidToken(t) => t.clone(),
            ParseError::UnexpectedToken => string_from_literal("Unexpected token"),
            ParseError::InvalidSyntax(s) => s.clone(),
            ParseError::EmptyExpression => string_from_literal("Empty expression"),
        }
    }
}

} // verus!

verus! {

/// The message for a filter whose value is blank.
pub open spec fn empty_value_message(prefix: Seq<char>) -> Seq<char> {
    "Empty value for filter '"@ + prefix + "'.\nExample: "@ + prefix + ":value"@
}

/// The error for a filter whose value is blank.
pub fn empty_value_error(prefix: &str) -> (e: ParseError)
    ensures
        e@ == ParseErrorView::InvalidSyntax(empty_value_message(prefix@)),
{
    let mut message = string_from_literal("Empty value for filter '");
    message.append(prefix);
    message.append("'.\nExample: ");
    message.append(prefix);
    message.append(":value");
    ParseError::InvalidSyntax(message)
}

/// A syntax error with a fixed message.
pub fn syntax_error(message: &str) -> (e: ParseError)
    ensures
        e@ == ParseErrorView::InvalidSyntax(message@),
{
    ParseError::InvalidSyntax(string_from_literal(message))
}

/// A syntax error whose message quotes the filter's prefix between two
/// fixed texts.
pub fn syntax_error_around(lead: &str, prefix: &str, tail: &str) -> (e: ParseError)
    ensures
        e@ == ParseErrorView::InvalidSyntax(lead@ + prefix@ + tail@),
{
    ParseError::InvalidSyntax(concat3(lead, prefix, tail))
}

} // verus!
