//! The table of RTCP packets.
use vstd::prelude::*;
use crate::text::{decimal, decimal_string};

pub mod filters;
pub mod table;

pub use filters::RtcpFilterContext;
pub use table::StreamAliasHelper;

verus! {

/// What the RTCP packets table reads of a packet's contents.
pub enum RtcpSummary {
    SenderReport { ssrc: u32, packet_count: u32, octet_count: u32 },
    ReceiverReport { ssrc: u32, report_count: usize },
    /// The names of the item types of every chunk, in order.
    SourceDescription { item_types: Vec<String> },
    Goodbye { source_count: usize },
    /// Any other packet, by the name of its type.
    Other { kind_name: String },
}

/// An [`RtcpSummary`] with its texts as characters.
pub enum RtcpSummaryView {
    SenderReport { ssrc: u32, packet_count: u32, octet_count: u32 },
    ReceiverReport { ssrc: u32, report_count: usize },
    SourceDescription { item_types: Seq<Seq<char>> },
    Goodbye { source_count: usize },
    Other { kind_name: Seq<char> },
}

impl View for RtcpSummary {
    type V = RtcpSummaryView;

    open spec fn view(&self) -> RtcpSummaryView {
        match self {
            RtcpSummary::SenderReport { ssrc, packet_count, octet_count } => {
                RtcpSummaryView::SenderReport {
                    ssrc: *ssrc,
                    packet_count: *packet_count,
                    octet_count: *octet_count,
                }
            },
            RtcpSummary::ReceiverReport { ssrc, report_count } => RtcpSummaryView::ReceiverReport {
                ssrc: *ssrc,
                report_count: *report_count,
            },
            RtcpSummary::SourceDescription { item_types } => RtcpSummaryView::SourceDescription {
                item_types: item_types@.map_values(|t: String| t@),
            },
            RtcpSummary::Goodbye { source_count } => RtcpSummaryView::Goodbye {
                source_count: *source_count,
            },
            RtcpSummary::Other { kind_name } => RtcpSummaryView::Other { kind_name: kind_name@ },
        }
    }
}

/// The texts joined with `", "` between them.
pub open spec fn joined(items: Seq<Seq<char>>) -> Seq<char>
    decreases items.len(),
{
    if items.len() == 0 {
        Seq::empty()
    } else if items.len() == 1 {
        items[0]
    } else {
        joined(items.drop_last()) + ", "@ + items.last()
    }
}

/// The details column of a packet.
pub open spec fn rtcp_details(r: RtcpSummaryView) -> Seq<char> {
    match r {
        RtcpSummaryView::SenderReport { ssrc, packet_count, octet_count } => "SSRC: "@ + decimal(
            ssrc as nat,
        ) + ", Packets: "@ + decimal(packet_count as nat) + ", Bytes: "@ + decimal(
            octet_count as nat,
        ),
        RtcpSummaryView::ReceiverReport { ssrc, report_count } => "SSRC: "@ + decimal(ssrc as nat)
            + ", Reports: "@ + decimal(report_count as nat),
        RtcpSummaryView::SourceDescription { item_types } => "Items: "@ + joined(item_types),
        RtcpSummaryView::Goodbye { source_count } => "SSRCs: "@ + decimal(source_count as nat),
        RtcpSummaryView::Other { kind_name } => kind_name,
    }
}

/// The details shown for a packet.
pub fn get_rtcp_details(rtcp: &RtcpSummary) -> (r: String)
    ensures
        r@ == rtcp_details(rtcp@),
{
    match rtcp {
        RtcpSummary::SenderReport { ssrc, packet_count, octet_count } => {
            let mut r = "SSRC: ".to_owned();
            r.append(decimal_string(*ssrc as u128).as_str());
            r.append(", Packets: ");
            r.append(decimal_string(*packet_count as u128).as_str());
            r.append(", Bytes: ");
            r.append(decimal_string(*octet_count as u128).as_str());
            r
        },
        RtcpSummary::ReceiverReport { ssrc, report_count } => {
            let mut r = "SSRC: ".to_owned();
            r.append(decimal_string(*ssrc as u128).as_str());
            r.append(", Reports: ");
            r.append(decimal_string(*report_count as u128).as_str());
            r
        },
        RtcpSummary::SourceDescription { item_types } => {
            let mut r = "Items: ".to_owned();
            let ghost items = item_types@.map_values(|t: String| t@);
            let mut i: usize = 0;
            assert(items.take(0) =~= Seq::<Seq<char>>::empty());
            while i < item_types.len()
                invariant
                    items == item_types@.map_values(|t: String| t@),
                    i <= item_types@.len(),
                    r@ == "Items: "@ + joined(items.take(i as int)),
                decreases item_types.len() - i,
            {
                assert(items.take(i + 1).drop_last() =~= items.take(i as int));
                assert(items.take(i + 1).last() == item_types@[i as int]@);
                if i > 0 {
                    r.append(", ");
                } else {
                    assert(items.take(1) =~= seq![items[0]]);
                }
                r.append(item_types[i].as_str());
                i = i + 1;
            }
            assert(items.take(i as int) =~= items);
            r
        },
        RtcpSummary::Goodbye { source_count } => {
            let mut r = "SSRCs: ".to_owned();
            r.append(decimal_string(*source_count as u128).as_str());
            r
        },
        RtcpSummary::Other { kind_name } => kind_name.clone(),
    }
}

} // verus!
