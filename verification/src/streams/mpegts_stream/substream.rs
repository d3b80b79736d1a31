//! Names of the elementary streams found inside an MPEG-TS stream.
use vstd::prelude::*;
use crate::streams::{base26_letters, int_to_letter};
use crate::text::{decimal, decimal_string};

verus! {

/// How an elementary stream and its program are named in the tables.
#[derive(Debug, Clone)]
pub struct Aliases {
    pub stream_alias: String,
    pub program_alias: String,
}

/// `"<transport stream in base-26 letters>-<stream type letter>"`.
pub open spec fn stream_alias_text(transport_stream_id: u16, stream_type_letter: Seq<char>) -> Seq<
    char,
> {
    base26_letters(transport_stream_id as nat) + "-"@ + stream_type_letter
}

impl Aliases {
    /// The aliases of the stream of the given type in the given program of
    /// the given transport stream.  `stream_type_letter` is the letter that
    /// the stream type is known by.
    pub fn new(transport_stream_id: u16, program_number: u16, stream_type_letter: &str) -> (a:
        Aliases)
        ensures
            a.stream_alias@ == stream_alias_text(transport_stream_id, stream_type_letter@),
            a.program_alias@ == decimal(program_number as nat),
    {
        let mut stream_alias = int_to_letter(transport_stream_id as usize);
        stream_alias.append("-");
        stream_alias.append(stream_type_letter);
        Aliases { stream_alias, program_alias: decimal_string(program_number as u128) }
    }
}

} // verus!
