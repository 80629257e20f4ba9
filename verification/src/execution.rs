//! Order construction and interpretation of the venue's response.
//!
//! A directive is executed by a marketable limit order: the mid price is
//! offset by a fixed amount in the direction that crosses the book, rounded
//! to the venue's whole-unit price granularity, and submitted
//! immediate-or-cancel.  The venue's answer — transport failure, venue-level
//! rejection, or a list of per-order statuses — is folded into a fill
//! outcome of `(filled size, order id)` plus a note saying what the caller
//! should log.

use vstd::prelude::*;
use crate::bytes::{contains_bytes, contains_seq};
use crate::PX_MAX;

verus! {

/// Absolute price offset that guarantees crossing the spread (100 units).
pub const CROSS_OFFSET: i64 = 100_000_000;

/// The only time-in-force this strategy ever uses.
#[derive(PartialEq, Eq, Structural, Clone, Copy, Debug)]
pub enum TimeInForce {
    Ioc,
}

/// A fully specified order, ready for submission by the transport layer.
pub struct OrderRequest {
    pub asset: Vec<u8>,
    pub is_buy: bool,
    pub reduce_only: bool,
    pub limit_px: i64,
    pub sz: i64,
    pub tif: TimeInForce,
}

/// Rounds a scaled price to the nearest whole unit, halves away from zero.
pub open spec fn round_to_unit(p: int) -> int {
    if p >= 0 {
        ((p + 500_000) / 1_000_000) * 1_000_000
    } else {
        -(((-p + 500_000) / 1_000_000) * 1_000_000)
    }
}

/// The marketable limit price: offset above the mid for a buy, below for a
/// sell, rounded to the venue's granularity.
pub open spec fn crossing_px(mid: int, is_buy: bool) -> int {
    if is_buy {
        round_to_unit(mid + CROSS_OFFSET as int)
    } else {
        round_to_unit(mid - CROSS_OFFSET as int)
    }
}

/// Computes the marketable limit price for one side.
pub fn crossing_price(mid: i64, is_buy: bool) -> (px: i64)
    requires
        0 <= mid <= PX_MAX,
    ensures
        px == crossing_px(mid as int, is_buy),
{
    if is_buy {
        let p = (mid + CROSS_OFFSET) as u64;
        let q = (p + 500_000) / 1_000_000;
        (q * 1_000_000) as i64
    } else if mid >= CROSS_OFFSET {
        let p = (mid - CROSS_OFFSET) as u64;
        let q = (p + 500_000) / 1_000_000;
        (q * 1_000_000) as i64
    } else {
        let a = (CROSS_OFFSET - mid) as u64;
        let q = (a + 500_000) / 1_000_000;
        -((q * 1_000_000) as i64)
    }
}

/// One entry of the venue's per-order status list.
pub enum OrderStatus {
    Filled(u64),
    Resting(u64),
    Error(Vec<u8>),
    Other,
}

/// The structured payload of an accepted submission.
pub struct OrderPayload {
    pub statuses: Vec<OrderStatus>,
}

/// Everything the venue can answer to an order submission.
pub enum VenueResponse {
    /// The submission was accepted; the payload may still be missing.
    Accepted(Option<OrderPayload>),
    /// The venue rejected the order with a free-text reason.
    Rejected(Vec<u8>),
    /// The submission itself failed in transport.
    TransportFailed(Vec<u8>),
}

/// The realized result of a submission attempt: `filled == 0` with
/// `oid == 0` means no immediate fill was captured.
pub struct FillOutcome {
    pub filled: i64,
    pub oid: u64,
}

/// What the caller should log about the outcome.
pub enum ExecNote {
    FilledOk,
    RestingIgnored,
    StatusError(Vec<u8>),
    UnknownStatusIgnored,
    AnomalousResponse,
    VenueRejected { message: Vec<u8>, margin: bool },
    TransportError(Vec<u8>),
}

/// The venue's marker for an order that failed for lack of margin.
pub open spec fn margin_marker() -> Seq<u8> {
    seq![
        73u8, 110u8, 115u8, 117u8, 102u8, 102u8, 105u8, 99u8, 105u8, 101u8, 110u8, 116u8, 32u8,
        109u8, 97u8, 114u8, 103u8, 105u8, 110u8,
    ]
}

/// Builds the ASCII text "Insufficient margin".
fn margin_needle() -> (v: Vec<u8>)
    ensures
        v@ == margin_marker(),
{
    let mut v: Vec<u8> = Vec::new();
    v.push(73);
    v.push(110);
    v.push(115);
    v.push(117);
    v.push(102);
    v.push(102);
    v.push(105);
    v.push(99);
    v.push(105);
    v.push(101);
    v.push(110);
    v.push(116);
    v.push(32);
    v.push(109);
    v.push(97);
    v.push(114);
    v.push(103);
    v.push(105);
    v.push(110);
    proof {
        assert(v@ =~= margin_marker());
    }
    v
}

/// Folds a venue response into a fill outcome and a log note, first match
/// wins: transport failure, venue rejection (with the margin marker
/// flagged), then the first status entry — `Filled` yields the full
/// requested size with the returned order id, `Resting` counts as not
/// executed, a status error or an unrecognized status yields no fill, and
/// a missing payload or an empty status list is anomalous.
pub fn interpret_response(resp: VenueResponse, requested: i64) -> (r: (FillOutcome, ExecNote))
    requires
        0 <= requested,
    ensures
        match resp {
            VenueResponse::TransportFailed(m) => r.0.filled == 0 && r.0.oid == 0 && (r.1 matches
                ExecNote::TransportError(mm) && mm@ == m@),
            VenueResponse::Rejected(m) => r.0.filled == 0 && r.0.oid == 0 && (r.1 matches
                ExecNote::VenueRejected { message, margin } && message@ == m@ && (margin
                <==> contains_seq(m@, margin_marker()))),
            VenueResponse::Accepted(payload) => match payload {
                Option::None => r.0.filled == 0 && r.0.oid == 0 && r.1
                    == ExecNote::AnomalousResponse,
                Option::Some(p) => if p.statuses@.len() == 0 {
                    r.0.filled == 0 && r.0.oid == 0 && r.1 == ExecNote::AnomalousResponse
                } else {
                    match p.statuses@[0] {
                        OrderStatus::Filled(oid) => r.0.filled == requested && r.0.oid == oid
                            && r.1 == ExecNote::FilledOk,
                        OrderStatus::Resting(_) => r.0.filled == 0 && r.0.oid == 0 && r.1
                            == ExecNote::RestingIgnored,
                        OrderStatus::Error(e) => r.0.filled == 0 && r.0.oid == 0 && (r.1 matches
                            ExecNote::StatusError(mm) && mm@ == e@),
                        OrderStatus::Other => r.0.filled == 0 && r.0.oid == 0 && r.1
                            == ExecNote::UnknownStatusIgnored,
                    }
                },
            },
        },
{
    match resp {
        VenueResponse::TransportFailed(m) => (
            FillOutcome { filled: 0, oid: 0 },
            ExecNote::TransportError(m),
        ),
        VenueResponse::Rejected(m) => {
            let needle = margin_needle();
            let margin = contains_bytes(&m, &needle);
            (FillOutcome { filled: 0, oid: 0 }, ExecNote::VenueRejected { message: m, margin })
        },
        VenueResponse::Accepted(payload) => match payload {
            Option::None => (FillOutcome { filled: 0, oid: 0 }, ExecNote::AnomalousResponse),
            Option::Some(mut p) => {
                if p.statuses.len() == 0 {
                    (FillOutcome { filled: 0, oid: 0 }, ExecNote::AnomalousResponse)
                } else {
                    let first = p.statuses.remove(0);
                    match first {
                        OrderStatus::Filled(oid) => (
                            FillOutcome { filled: requested, oid },
                            ExecNote::FilledOk,
                        ),
                        OrderStatus::Resting(_) => (
                            FillOutcome { filled: 0, oid: 0 },
                            ExecNote::RestingIgnored,
                        ),
                        OrderStatus::Error(e) => (
                            FillOutcome { filled: 0, oid: 0 },
                            ExecNote::StatusError(e),
                        ),
                        OrderStatus::Other => (
                            FillOutcome { filled: 0, oid: 0 },
                            ExecNote::UnknownStatusIgnored,
                        ),
                    }
                }
            },
        },
    }
}

/// Whether an outcome counts as an immediate capture worth a success log.
pub fn fill_succeeded(out: &FillOutcome) -> (r: bool)
    ensures
        r <==> out.filled > 0,
{
    out.filled > 0
}

} // verus!
