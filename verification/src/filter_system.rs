//! The filter language shared by every table: tokens, lexer, parser and
//! the traits that each table's filter type implements.
pub mod comparison;
pub mod error;
pub mod lexer;
pub mod parser;
pub mod traits;
pub mod types;

pub use comparison::ComparisonFilter;
pub use error::ParseError;
pub use lexer::Lexer;
pub use parser::{parse_expression, parse_filter, validate_filter_syntax};
pub use traits::{CommonFilterParser, FilterCombinator, FilterExpression, FilterLogic, FilterParser};
pub use types::{get_operator_precedence, Token};
