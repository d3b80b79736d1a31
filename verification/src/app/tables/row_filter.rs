//! What a table does with the text typed in its filter box.
use vstd::prelude::*;
use crate::filter_system::comparison::option_view;
use crate::filter_system::error::ParseError;
use crate::filter_system::parser::{parse_filter, spec_parse_filter};
use crate::filter_system::traits::{CommonFilterParser, FilterCombinator, FilterExpression};

verus! {

/// The filter that a table applies for the text in its filter box, and the
/// error that it shows: an empty text applies no filter; a text that does
/// not parse applies no filter either, and its error is shown.
pub fn filter_from_text<F>(text: &str) -> (r: (Option<F>, Option<ParseError>)) where
    F: CommonFilterParser + FilterCombinator<'static>,

    ensures
        text@.len() == 0 ==> r.0 is None && r.1 is None,
        text@.len() > 0 ==> match spec_parse_filter::<F>(text@) {
            Ok(f) => option_view(r.0) == Some(f) && r.1 is None,
            Err(e) => r.0 is None && (r.1 matches Some(err) && err@ == e),
        },
{
    if text.is_empty() {
        return (None, None);
    }
    match parse_filter::<F>(text) {
        Ok(f) => (Some(f), None),
        Err(e) => (None, Some(e)),
    }
}

/// A row passes an optional filter: every row passes when there is none.
pub open spec fn passes<'a, F: FilterExpression<'a>>(
    filter: Option<<F as View>::V>,
    row: &<F as FilterExpression<'a>>::Context,
) -> bool {
    match filter {
        None => true,
        Some(f) => F::spec_matches(f, row),
    }
}

/// Which rows pass an optional filter, in order.
pub fn rows_passing<'a, F: FilterExpression<'a>>(
    filter: &Option<F>,
    rows: &Vec<<F as FilterExpression<'a>>::Context>,
) -> (mask: Vec<bool>)
    ensures
        mask@.len() == rows@.len(),
        forall|i: int|
            0 <= i < rows@.len() ==> mask@[i] == passes::<F>(option_view(*filter), &rows@[i]),
{
    let mut mask: Vec<bool> = Vec::new();
    let mut i: usize = 0;
    while i < rows.len()
        invariant
            i <= rows@.len(),
            mask@.len() == i,
            forall|k: int|
                0 <= k < i ==> mask@[k] == passes::<F>(option_view(*filter), &rows@[k]),
        decreases rows.len() - i,
    {
        let pass = match filter {
            None => true,
            Some(f) => f.matches(&rows[i]),
        };
        mask.push(pass);
        i = i + 1;
    }
    mask
}

/// With no filter every row passes; with a filter a row passes exactly when
/// the filter holds of it.
pub proof fn lemma_passes<'a, F: FilterExpression<'a>>(
    f: <F as View>::V,
    row: &<F as FilterExpression<'a>>::Context,
)
    ensures
        passes::<F>(None, row),
        passes::<F>(Some(f), row) == F::spec_matches(f, row),
{
}

} // verus!
