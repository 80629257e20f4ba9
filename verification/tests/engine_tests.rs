use statarb::engine::{Event, FillEntry, Input, MarketMaker, MidEntry, StepAction};
use statarb::execution::TimeInForce;

fn input(asset: &str) -> Input {
    Input {
        asset: asset.as_bytes().to_vec(),
        target_liquidity: 200,
        half_spread: 5,
        max_bps_diff: 20,
        max_absolute_position_size: 4_000,
        decimals: 0,
    }
}

fn mids(asset: &str, price: &str) -> Event {
    Event::Mids(vec![MidEntry {
        asset: asset.as_bytes().to_vec(),
        price_text: price.as_bytes().to_vec(),
    }])
}

#[test]
fn constant_prices_never_fire_a_directive() {
    // reference constant 100.0, one hundred mid ticks at 100.0: every
    // deviation is zero, the variance is degenerate, nothing fires
    let mut mm = MarketMaker::new(input("BTC"));
    for _ in 0..100 {
        let act = mm.process_event(mids("BTC", "100.0"), 100_000_000);
        assert!(matches!(act, StepAction::Idle));
    }
    assert_eq!(mm.diffs.len(), 100);
}

#[test]
fn flat_history_then_collapse_fires_a_buy() {
    // reference constant 100.0; one hundred ticks at 101.0 warm the window
    // up without firing (flat history); a collapse to 50.0 then yields an
    // extreme negative z-score and a buy
    let mut mm = MarketMaker::new(input("BTC"));
    for _ in 0..100 {
        let act = mm.process_event(mids("BTC", "101.0"), 100_000_000);
        assert!(matches!(act, StepAction::Idle));
    }
    let act = mm.process_event(mids("BTC", "50.0"), 100_000_000);
    match act {
        StepAction::Submit(o) => {
            assert!(o.is_buy);
            assert!(!o.reduce_only);
            assert_eq!(o.sz, 1_000);
            assert_eq!(o.tif, TimeInForce::Ioc);
            // 50 + 100 offset, rounded to whole units
            assert_eq!(o.limit_px, 150_000_000);
            assert_eq!(o.asset, b"BTC".to_vec());
        },
        _ => panic!("expected an order submission"),
    }
}

#[test]
fn no_signal_while_warming_up_however_extreme() {
    let mut mm = MarketMaker::new(input("BTC"));
    for _ in 0..50 {
        let act = mm.process_event(mids("BTC", "100.0"), 100_000_000);
        assert!(matches!(act, StepAction::Idle));
    }
    // a wild price with only 51 window entries still cannot fire
    let act = mm.process_event(mids("BTC", "900.0"), 100_000_000);
    assert!(matches!(act, StepAction::Idle));
    assert_eq!(mm.diffs.len(), 51);
}

#[test]
fn unready_reference_leaves_the_window_unchanged() {
    let mut mm = MarketMaker::new(input("BTC"));
    let act = mm.process_event(mids("BTC", "100.0"), 0);
    assert!(matches!(act, StepAction::Idle));
    assert_eq!(mm.diffs.len(), 0);
    assert_eq!(mm.latest_mid_price, 100_000_000);
}

#[test]
fn missing_asset_key_is_logged_and_ignored() {
    let mut mm = MarketMaker::new(input("BTC"));
    let act = mm.process_event(mids("ETH", "100.0"), 100_000_000);
    assert!(matches!(act, StepAction::LogMissingMid));
    assert_eq!(mm.diffs.len(), 0);
}

#[test]
fn malformed_price_is_logged_and_ignored() {
    let mut mm = MarketMaker::new(input("BTC"));
    let act = mm.process_event(mids("BTC", "not-a-price"), 100_000_000);
    assert!(matches!(act, StepAction::LogBadPrice));
    assert_eq!(mm.diffs.len(), 0);
}

#[test]
fn first_matching_mid_entry_wins() {
    let mut mm = MarketMaker::new(input("BTC"));
    let ev = Event::Mids(vec![
        MidEntry { asset: b"ETH".to_vec(), price_text: b"5.0".to_vec() },
        MidEntry { asset: b"BTC".to_vec(), price_text: b"123.5".to_vec() },
    ]);
    let act = mm.process_event(ev, 0);
    assert!(matches!(act, StepAction::Idle));
    assert_eq!(mm.latest_mid_price, 123_500_000);
}

#[test]
fn fills_of_the_tracked_asset_become_notes() {
    let mut mm = MarketMaker::new(input("BTC"));
    let ev = Event::Fills(vec![
        FillEntry {
            coin: b"BTC".to_vec(),
            side: b"B".to_vec(),
            size_text: b"0.001".to_vec(),
        },
        FillEntry {
            coin: b"ETH".to_vec(),
            side: b"A".to_vec(),
            size_text: b"1.0".to_vec(),
        },
        FillEntry {
            coin: b"BTC".to_vec(),
            side: b"A".to_vec(),
            size_text: b"junk".to_vec(),
        },
    ]);
    let act = mm.process_event(ev, 100_000_000);
    match act {
        StepAction::Fills(notes) => {
            assert_eq!(notes.len(), 2);
            assert_eq!(notes[0].side, b"B".to_vec());
            assert_eq!(notes[0].amount, 1_000);
            assert_eq!(notes[1].side, b"A".to_vec());
            // an unparseable size is logged as zero, as the event is kept
            assert_eq!(notes[1].amount, 0);
        },
        _ => panic!("expected fill notes"),
    }
    assert_eq!(mm.diffs.len(), 0);
}

#[test]
fn other_events_are_ignored() {
    let mut mm = MarketMaker::new(input("BTC"));
    let act = mm.process_event(Event::Other, 100_000_000);
    assert!(matches!(act, StepAction::Idle));
    assert_eq!(mm.diffs.len(), 0);
    assert_eq!(mm.latest_mid_price, -1_000_000);
}

#[test]
fn sell_fires_on_a_positive_spike() {
    // warm the window with alternating small deviations so the variance is
    // non-degenerate, then spike upward
    let mut mm = MarketMaker::new(input("BTC"));
    for k in 0..100 {
        let price = if k % 2 == 0 { "100.001" } else { "99.999" };
        let act = mm.process_event(mids("BTC", price), 100_000_000);
        assert!(matches!(act, StepAction::Idle));
    }
    let act = mm.process_event(mids("BTC", "110.0"), 100_000_000);
    match act {
        StepAction::Submit(o) => {
            assert!(!o.is_buy);
            // 110 - 100 offset, rounded
            assert_eq!(o.limit_px, 10_000_000);
        },
        _ => panic!("expected a sell submission"),
    }
}
