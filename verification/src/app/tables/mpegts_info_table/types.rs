//! Rows of the MPEG-TS program table view.
use vstd::prelude::*;
use crate::packet::PIDTable;

verus! {

/// Identifies a row: the PID of the table and the alias of its stream.
pub struct RowKey {
    pub pid: PIDTable,
    pub alias: String,
}

} // verus!
