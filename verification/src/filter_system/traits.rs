//! The interface that every table's filter type offers to the parser.
use vstd::prelude::*;
use super::error::{result_view, ParseError, ParseErrorView};

verus! {

/// Builds a single `prefix:value` filter.
pub trait FilterParser: View + Sized {
    /// The filter (or the error) that `prefix:value` denotes.
    spec fn spec_parse_filter_value(prefix: Seq<char>, value: Seq<char>) -> Result<
        <Self as View>::V,
        ParseErrorView,
    >;

    fn parse_filter_value(prefix: &str, value: &str) -> (r: Result<Self, ParseError>)
        ensures
            result_view(r) == Self::spec_parse_filter_value(prefix@, value@),
    ;
}

/// Decides whether a filter holds of a row of a table.
pub trait FilterExpression<'a>: View {
    type Context;

    /// The filter `f` holds of `ctx`.
    spec fn spec_matches(f: <Self as View>::V, ctx: &Self::Context) -> bool;

    fn matches(&self, ctx: &Self::Context) -> (r: bool)
        ensures
            r == Self::spec_matches(self@, ctx),
    ;
}

/// Joins two filters with `AND` or `OR`.
pub trait FilterCombinator<'a>: View + Sized {
    spec fn spec_and(left: <Self as View>::V, right: <Self as View>::V) -> <Self as View>::V;

    spec fn spec_or(left: <Self as View>::V, right: <Self as View>::V) -> <Self as View>::V;

    fn and(left: Self, right: Self) -> (r: Self)
        ensures
            r@ == Self::spec_and(left@, right@),
    ;

    fn or(left: Self, right: Self) -> (r: Self)
        ensures
            r@ == Self::spec_or(left@, right@),
    ;
}

/// Negates a filter.
pub trait CommonFilterParser: FilterParser + Sized {
    spec fn spec_not(expr: <Self as View>::V) -> <Self as View>::V;

    fn not(expr: Self) -> (r: Self)
        ensures
            r@ == Self::spec_not(expr@),
    ;
}

/// Filters combine as Boolean formulas: `NOT`, `AND` and `OR` hold of a row
/// exactly when the negation, conjunction and disjunction of what they join
/// does.
pub trait FilterLogic<'a>: CommonFilterParser + FilterCombinator<'a> + FilterExpression<'a> {
    proof fn lemma_not_matches(f: <Self as View>::V, ctx: &Self::Context)
        ensures
            Self::spec_matches(Self::spec_not(f), ctx) == !Self::spec_matches(f, ctx),
    ;

    proof fn lemma_and_matches(
        left: <Self as View>::V,
        right: <Self as View>::V,
        ctx: &Self::Context,
    )
        ensures
            Self::spec_matches(Self::spec_and(left, right), ctx) == (Self::spec_matches(left, ctx)
                && Self::spec_matches(right, ctx)),
    ;

    proof fn lemma_or_matches(left: <Self as View>::V, right: <Self as View>::V, ctx: &Self::Context)
        ensures
            Self::spec_matches(Self::spec_or(left, right), ctx) == (Self::spec_matches(left, ctx)
                || Self::spec_matches(right, ctx)),
    ;
}

} // verus!
