//! The table of all captured packets.
use vstd::prelude::*;
use crate::app::tables::filters::packets_filter::{holds, parse_filter, FilterContext, FilterType};
use crate::filter_system::error::ParseError;
use crate::filter_system::parser::spec_parse_filter;
use crate::text::{str_trim, trim};

pub mod filters;

verus! {

/// Which packets the table shows for the text in its filter box, and the
/// error that it shows: a blank text shows every packet; a text that does
/// not parse shows none, with its error; otherwise the packets that the
/// filter keeps are shown.
pub fn visible_packets(text: &str, rows: &Vec<FilterContext>) -> (r: (Vec<bool>, Option<ParseError>))
    ensures
        r.0@.len() == rows@.len(),
        str_trim(text@).len() == 0 ==> r.1 is None && forall|i: int|
            0 <= i < rows@.len() ==> r.0@[i],
        str_trim(text@).len() > 0 ==> match spec_parse_filter::<FilterType>(text@) {
            Ok(f) => r.1 is None && forall|i: int|
                0 <= i < rows@.len() ==> r.0@[i] == holds(f, *rows@[i].packet),
            Err(e) => (r.1 matches Some(err) && err@ == e) && forall|i: int|
                0 <= i < rows@.len() ==> !r.0@[i],
        },
{
    let blank = trim(text).is_empty();
    let parsed = if blank {
        None
    } else {
        Some(parse_filter(text))
    };
    let mut shown: Vec<bool> = Vec::new();
    let mut i: usize = 0;
    while i < rows.len()
        invariant
            i <= rows@.len(),
            shown@.len() == i,
            blank == (str_trim(text@).len() == 0),
            blank ==> parsed is None,
            !blank ==> (parsed matches Some(p) && crate::filter_system::error::result_view(p)
                == spec_parse_filter::<FilterType>(text@)),
            forall|k: int|
                0 <= k < i ==> shown@[k] == match parsed {
                    None => true,
                    Some(Ok(f)) => holds(f@, *rows@[k].packet),
                    Some(Err(_)) => false,
                },
        decreases rows.len() - i,
    {
        let pass = match &parsed {
            None => true,
            Some(Ok(f)) => crate::filter_system::traits::FilterExpression::matches(f, &rows[i]),
            Some(Err(_)) => false,
        };
        shown.push(pass);
        i = i + 1;
    }
    let error = match parsed {
        Some(Err(e)) => Some(e),
        _ => None,
    };
    (shown, error)
}

} // verus!
