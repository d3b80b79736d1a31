//! The Info column of the MPEG-TS streams overview: what program tables a
//! stream has carried.
use vstd::prelude::*;
use crate::text::{concat3, decimal, decimal_string, string_from_literal};

verus! {

/// The Info text of a stream: how many PMTs it carried when it carried a
/// PAT, `PAT only` when there was no PMT, and `No PSI data` without a PAT.
pub open spec fn psi_summary_text(has_pat: bool, pmt_count: usize) -> Seq<char> {
    if has_pat {
        if pmt_count > 0 {
            decimal(pmt_count as nat) + " PMT(s)"@
        } else {
            "PAT only"@
        }
    } else {
        "No PSI data"@
    }
}

/// Writes [`psi_summary_text`].
pub fn psi_summary(has_pat: bool, pmt_count: usize) -> (r: String)
    ensures
        r@ == psi_summary_text(has_pat, pmt_count),
{
    if has_pat {
        if pmt_count > 0 {
            let n = decimal_string(pmt_count as u128);
            let r = concat3(n.as_str(), " PMT(s)", "");
            proof {
                reveal_strlit("");
            }
            assert(r@ =~= decimal(pmt_count as nat) + " PMT(s)"@);
            r
        } else {
            string_from_literal("PAT only")
        }
    } else {
        string_from_literal("No PSI data")
    }
}

} // verus!
