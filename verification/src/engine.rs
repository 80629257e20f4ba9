//! The decision loop's state and its per-event step.
//!
//! The engine owns the latest venue mid price and the rolling deviation
//! window.  Each normalized upstream event is folded into the state by
//! `process_event`, which returns the single action the surrounding loop
//! must perform: submit an order, record fill notes, or log a dropped
//! event.  The reference price is snapshotted by the caller from the
//! cross-task mirror and passed in per tick.

use vstd::prelude::*;
use crate::bytes::bytes_eq;
use crate::execution::{crossing_price, crossing_px, OrderRequest, TimeInForce};
use crate::prices::{is_price_text, parse_px, px_value};
use crate::signal::{classify, dev_spec, evaluate, scaled_deviation, Directive};
use crate::window::DeviationWindow;
use crate::{MID_SENTINEL, PX_MAX, TRADE_SIZE, WINDOW_SIZE};

verus! {

/// One asset-to-price-text pair of a mid-price snapshot.
pub struct MidEntry {
    pub asset: Vec<u8>,
    pub price_text: Vec<u8>,
}

/// One fill notification for the owning account.
pub struct FillEntry {
    pub coin: Vec<u8>,
    pub side: Vec<u8>,
    pub size_text: Vec<u8>,
}

/// A normalized upstream event, in venue-observed arrival order.
pub enum Event {
    /// A snapshot of mid prices, one entry per asset.
    Mids(Vec<MidEntry>),
    /// A batch of user fill events.
    Fills(Vec<FillEntry>),
    /// Any other message kind; ignored.
    Other,
}

/// What the decision loop should log about one fill of the tracked asset.
pub struct FillNote {
    pub side: Vec<u8>,
    pub amount: i64,
}

/// The single action the surrounding loop performs after one event.
pub enum StepAction {
    /// Submit this order and interpret the response before the next event.
    Submit(OrderRequest),
    /// Nothing to do this tick.
    Idle,
    /// The snapshot had no entry for the tracked asset.
    LogMissingMid,
    /// The tracked asset's price text did not parse.
    LogBadPrice,
    /// Fills of the tracked asset, to be logged in order.
    Fills(Vec<FillNote>),
}

/// Immutable per-run parameters, set once at startup.  Sizes are scaled by
/// `PRICE_SCALE`.
pub struct Input {
    pub asset: Vec<u8>,
    pub target_liquidity: i64,
    pub half_spread: u16,
    pub max_bps_diff: u16,
    pub max_absolute_position_size: i64,
    pub decimals: u32,
}

/// The engine state owned by the decision loop.
pub struct MarketMaker {
    pub asset: Vec<u8>,
    pub latest_mid_price: i64,
    pub diffs: DeviationWindow,
}

/// The price text of the first snapshot entry for `asset`, if any.
pub open spec fn find_mid(mids: Seq<MidEntry>, asset: Seq<u8>) -> Option<Seq<u8>>
    decreases mids.len(),
{
    if mids.len() == 0 {
        Option::None
    } else if mids[0].asset@ == asset {
        Option::Some(mids[0].price_text@)
    } else {
        find_mid(mids.drop_first(), asset)
    }
}

/// The logged amount of a fill: its parsed size, or zero when the size
/// text does not parse.
pub open spec fn note_amount(t: Seq<u8>) -> int {
    if is_price_text(t) && px_value(t) <= PX_MAX as int {
        px_value(t)
    } else {
        0
    }
}

/// The `(side, amount)` notes for the fills of the tracked asset, in
/// arrival order.
pub open spec fn fill_notes(fills: Seq<FillEntry>, asset: Seq<u8>) -> Seq<(Seq<u8>, int)>
    decreases fills.len(),
{
    if fills.len() == 0 {
        Seq::empty()
    } else {
        let rest = fill_notes(fills.drop_last(), asset);
        if fills.last().coin@ == asset {
            rest.push((fills.last().side@, note_amount(fills.last().size_text@)))
        } else {
            rest
        }
    }
}

/// Whether the concrete notes carry exactly the specified sides and
/// amounts.
pub open spec fn fill_notes_match(notes: Seq<FillNote>, expected: Seq<(Seq<u8>, int)>) -> bool {
    &&& notes.len() == expected.len()
    &&& forall|k: int|
        0 <= k < notes.len() ==> (#[trigger] notes[k]).side@ == expected[k].0 && notes[k].amount
            == expected[k].1
}

/// The window contents after one mid-price tick: unchanged when the
/// reference is not ready, otherwise the deviation is appended FIFO.
pub open spec fn window_after(w: Seq<int>, mid: int, reference: int) -> Seq<int> {
    if reference < 1 {
        w
    } else {
        DeviationWindow::appended(w, dev_spec(mid, reference))
    }
}

/// The directive of one mid-price tick: `Hold` when the reference is not
/// ready or the window is still warming up, otherwise the z-score
/// classification of the fresh deviation against the updated window.
pub open spec fn decision(w: Seq<int>, mid: int, reference: int) -> Directive {
    if reference < 1 {
        Directive::Hold
    } else {
        let d = dev_spec(mid, reference);
        let w2 = DeviationWindow::appended(w, d);
        if w2.len() < WINDOW_SIZE {
            Directive::Hold
        } else {
            classify(w2, d)
        }
    }
}

/// The order that executes `dir` at the current mid price: the fixed trade
/// size, immediate-or-cancel, at the crossing limit price.
pub open spec fn order_matches(o: OrderRequest, asset: Seq<u8>, mid: int, dir: Directive) -> bool {
    &&& o.asset@ == asset
    &&& o.is_buy == (dir == Directive::Buy)
    &&& !o.reduce_only
    &&& o.sz == TRADE_SIZE
    &&& o.tif == TimeInForce::Ioc
    &&& o.limit_px == crossing_px(mid, o.is_buy)
}

/// While the window is still warming up — fewer than `WINDOW_SIZE` entries
/// even after this tick's append — no directive fires, regardless of how
/// extreme the raw deviation is.
pub proof fn lemma_warmup_no_signal(w: Seq<int>, mid: int, reference: int)
    requires
        w.len() + 1 < WINDOW_SIZE,
    ensures
        decision(w, mid, reference) == Directive::Hold,
{
}

proof fn lemma_find_mid_skip(s: Seq<MidEntry>, a: Seq<u8>, k: int)
    requires
        0 <= k <= s.len(),
        forall|j: int| 0 <= j < k ==> (#[trigger] s[j]).asset@ != a,
    ensures
        find_mid(s, a) == find_mid(s.skip(k), a),
    decreases k,
{
    if k > 0 {
        assert(s.drop_first() =~= s.skip(1));
        assert(forall|j: int|
            0 <= j < k - 1 ==> (#[trigger] s.drop_first()[j]).asset@ != a) by {
            assert(forall|j: int| 0 <= j < k - 1 ==> s.drop_first()[j] == #[trigger] s[j + 1]);
        }
        lemma_find_mid_skip(s.drop_first(), a, k - 1);
        assert(s.drop_first().skip(k - 1) =~= s.skip(k));
        assert(s[0].asset@ != a);
        assert(find_mid(s, a) == find_mid(s.drop_first(), a));
    } else {
        assert(s.skip(0) =~= s);
    }
}

/// Finds the index of the first snapshot entry for `asset`.
fn find_mid_entry(mids: &Vec<MidEntry>, asset: &Vec<u8>) -> (r: Option<usize>)
    ensures
        match r {
            Option::Some(idx) => idx < mids@.len() && mids@[idx as int].asset@ == asset@
                && find_mid(mids@, asset@) == Option::Some(mids@[idx as int].price_text@),
            Option::None => find_mid(mids@, asset@) is None,
        },
{
    let n = mids.len();
    let mut idx: usize = 0;
    while idx < n
        invariant
            n == mids@.len(),
            0 <= idx <= n,
            forall|j: int| 0 <= j < idx ==> (#[trigger] mids@[j]).asset@ != asset@,
        decreases n - idx,
    {
        if bytes_eq(&mids[idx].asset, asset) {
            proof {
                lemma_find_mid_skip(mids@, asset@, idx as int);
                assert(mids@.skip(idx as int)[0] == mids@[idx as int]);
            }
            return Some(idx);
        }
        idx = idx + 1;
    }
    proof {
        lemma_find_mid_skip(mids@, asset@, n as int);
        assert(mids@.skip(n as int).len() == 0);
    }
    None
}

impl MarketMaker {
    /// The window is well formed and the mid price is either the sentinel
    /// or a parsed price.
    pub open spec fn wf(&self) -> bool {
        &&& self.diffs.wf()
        &&& (self.latest_mid_price == MID_SENTINEL || 0 <= self.latest_mid_price <= PX_MAX)
    }

    /// The deviation window contents, oldest first.
    pub open spec fn window(&self) -> Seq<int> {
        self.diffs@
    }

    /// A fresh engine: empty window, mid price not yet received.
    pub fn new(input: Input) -> (mm: Self)
        ensures
            mm.wf(),
            mm.asset@ == input.asset@,
            mm.latest_mid_price == MID_SENTINEL,
            mm.window() == Seq::<int>::empty(),
    {
        MarketMaker { asset: input.asset, latest_mid_price: MID_SENTINEL, diffs: DeviationWindow::new() }
    }

    /// One signal evaluation against the current mid price and a snapshot
    /// of the reference price.  When the reference is not ready the window
    /// is left untouched; otherwise the fresh deviation is appended FIFO,
    /// and once the window is full and the variance non-degenerate, a
    /// directive other than `Hold` yields the order that executes it.
    pub fn on_price_update(&mut self, reference: i64) -> (act: Option<OrderRequest>)
        requires
            old(self).wf(),
            0 <= old(self).latest_mid_price <= PX_MAX,
            0 <= reference <= PX_MAX,
        ensures
            final(self).wf(),
            final(self).asset@ == old(self).asset@,
            final(self).latest_mid_price == old(self).latest_mid_price,
            final(self).window() == window_after(
                old(self).window(),
                old(self).latest_mid_price as int,
                reference as int,
            ),
            ({
                let dir = decision(
                    old(self).window(),
                    old(self).latest_mid_price as int,
                    reference as int,
                );
                match act {
                    Option::Some(o) => dir != Directive::Hold && order_matches(
                        o,
                        old(self).asset@,
                        old(self).latest_mid_price as int,
                        dir,
                    ),
                    Option::None => dir == Directive::Hold,
                }
            }),
    {
        if reference == 0 {
            return None;
        }
        let mid = self.latest_mid_price;
        let d = scaled_deviation(mid, reference);
        self.diffs.append(d);
        if self.diffs.len() < WINDOW_SIZE {
            return None;
        }
        let dir = evaluate(&self.diffs, d);
        match dir {
            Directive::Hold => None,
            Directive::Sell => {
                let limit_px = crossing_price(mid, false);
                Some(
                    OrderRequest {
                        asset: crate::bytes::clone_bytes(&self.asset),
                        is_buy: false,
                        reduce_only: false,
                        limit_px,
                        sz: TRADE_SIZE,
                        tif: TimeInForce::Ioc,
                    },
                )
            },
            Directive::Buy => {
                let limit_px = crossing_price(mid, true);
                Some(
                    OrderRequest {
                        asset: crate::bytes::clone_bytes(&self.asset),
                        is_buy: true,
                        reduce_only: false,
                        limit_px,
                        sz: TRADE_SIZE,
                        tif: TimeInForce::Ioc,
                    },
                )
            },
        }
    }

    /// Folds one normalized event into the state.  A mid-price snapshot
    /// updates the mid price and runs the signal path; its price text is
    /// dropped (with a log action) when missing or malformed.  Fill events
    /// of the tracked asset are turned into log notes; everything else is
    /// ignored.  No state other than the mid price and the window ever
    /// changes.
    pub fn process_event(&mut self, event: Event, reference: i64) -> (act: StepAction)
        requires
            old(self).wf(),
            0 <= reference <= PX_MAX,
        ensures
            final(self).wf(),
            final(self).asset@ == old(self).asset@,
            match event {
                Event::Mids(mids) => match find_mid(mids@, old(self).asset@) {
                    Option::Some(txt) => if is_price_text(txt) && px_value(txt) <= PX_MAX as int {
                        let v = px_value(txt);
                        let dir = decision(old(self).window(), v, reference as int);
                        &&& final(self).latest_mid_price == v
                        &&& final(self).window() == window_after(
                            old(self).window(),
                            v,
                            reference as int,
                        )
                        &&& match act {
                            StepAction::Submit(o) => dir != Directive::Hold && order_matches(
                                o,
                                old(self).asset@,
                                v,
                                dir,
                            ),
                            StepAction::Idle => dir == Directive::Hold,
                            _ => false,
                        }
                    } else {
                        &&& act == StepAction::LogBadPrice
                        &&& final(self).latest_mid_price == old(self).latest_mid_price
                        &&& final(self).window() == old(self).window()
                    },
                    Option::None => {
                        &&& act == StepAction::LogMissingMid
                        &&& final(self).latest_mid_price == old(self).latest_mid_price
                        &&& final(self).window() == old(self).window()
                    },
                },
                Event::Fills(fills) => {
                    &&& final(self).latest_mid_price == old(self).latest_mid_price
                    &&& final(self).window() == old(self).window()
                    &&& match act {
                        StepAction::Fills(notes) => fill_notes_match(
                            notes@,
                            fill_notes(fills@, old(self).asset@),
                        ),
                        _ => false,
                    }
                },
                Event::Other => {
                    &&& act == StepAction::Idle
                    &&& final(self).latest_mid_price == old(self).latest_mid_price
                    &&& final(self).window() == old(self).window()
                },
            },
    {
        match event {
            Event::Mids(mids) => {
                match find_mid_entry(&mids, &self.asset) {
                    Option::Some(idx) => {
                        match parse_px(&mids[idx].price_text) {
                            Option::Some(v) => {
                                self.latest_mid_price = v;
                                match self.on_price_update(reference) {
                                    Option::Some(o) => StepAction::Submit(o),
                                    Option::None => StepAction::Idle,
                                }
                            },
                            Option::None => StepAction::LogBadPrice,
                        }
                    },
                    Option::None => StepAction::LogMissingMid,
                }
            },
            Event::Fills(fills) => {
                let mut rest = fills;
                let ghost all = rest@;
                let ghost asset_spec = self.asset@;
                let mut notes: Vec<FillNote> = Vec::new();
                let mut p: usize = 0;
                let n0 = rest.len();
                while rest.len() > 0
                    invariant
                        all.len() == n0 as int,
                        0 <= p <= all.len(),
                        p + rest@.len() == all.len(),
                        rest@ == all.skip(p as int),
                        asset_spec == self.asset@,
                        fill_notes_match(notes@, fill_notes(all.take(p as int), asset_spec)),
                    decreases rest@.len(),
                {
                    let f = rest.remove(0);
                    proof {
                        assert(f == all[p as int]);
                        assert(all.skip(p as int).remove(0) =~= all.skip(p + 1));
                        assert(all.take(p + 1).drop_last() =~= all.take(p as int));
                        assert(all.take(p + 1).last() == all[p as int]);
                    }
                    if bytes_eq(&f.coin, &self.asset) {
                        let amount = match parse_px(&f.size_text) {
                            Option::Some(v) => v,
                            Option::None => 0,
                        };
                        notes.push(FillNote { side: f.side, amount });
                    }
                    p = p + 1;
                }
                proof {
                    assert(all.take(all.len() as int) =~= all);
                }
                StepAction::Fills(notes)
            },
            Event::Other => StepAction::Idle,
        }
    }
}

} // verus!
