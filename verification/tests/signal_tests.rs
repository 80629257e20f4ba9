use statarb::mirror::ReferencePriceMirror;
use statarb::signal::{evaluate, scaled_deviation, Directive};
use statarb::window::DeviationWindow;

#[test]
fn mirror_reflects_the_most_recent_write() {
    let mut m = ReferencePriceMirror::new();
    assert_eq!(m.get(), 0);
    m.set(100_000_000);
    assert_eq!(m.get(), 100_000_000);
    m.set(50_000_000);
    assert_eq!(m.get(), 50_000_000);
    m.set(50_000_001);
    assert_eq!(m.get(), 50_000_001);
}

#[test]
fn window_is_fifo_and_bounded_at_capacity() {
    let mut w = DeviationWindow::new();
    for k in 0..100i64 {
        w.append(k);
        assert_eq!(w.len(), (k + 1) as usize);
    }
    // at capacity: the next append evicts exactly the oldest entry
    w.append(100);
    assert_eq!(w.len(), 100);
    assert_eq!(w.get(0), 1);
    assert_eq!(w.get(98), 99);
    assert_eq!(w.get(99), 100);
    w.append(101);
    assert_eq!(w.len(), 100);
    assert_eq!(w.get(0), 2);
    assert_eq!(w.get(99), 101);
}

fn window_of(values: &[i64]) -> DeviationWindow {
    let mut w = DeviationWindow::new();
    for &v in values {
        w.append(v);
    }
    w
}

#[test]
fn deviation_is_clamped_at_its_limit() {
    // a near-zero reference against a huge mid would overflow any window
    // statistic; the deviation saturates at the limit instead
    assert_eq!(
        scaled_deviation(1_000_000_000_000_000, 1),
        1_000_000_000_000_000
    );
    assert_eq!(
        scaled_deviation(0, 1_000_000_000_000_000),
        -1_000_000
    );
}

#[test]
fn deviation_is_scaled_and_signed() {
    // (101 - 100) / 100 = 0.01 -> 10_000 at the deviation scale
    assert_eq!(scaled_deviation(101_000_000, 100_000_000), 10_000);
    // (50 - 100) / 100 = -0.5 -> -500_000
    assert_eq!(scaled_deviation(50_000_000, 100_000_000), -500_000);
    assert_eq!(scaled_deviation(100_000_000, 100_000_000), 0);
}

#[test]
fn boundary_z_scores_yield_no_directive() {
    // window: one entry 100 and 99 zeros: mean 1, sample stddev 10, so
    // z == (d - 1) / 10 is exactly 2 at d == 21 and exactly -2 at d == -19
    let mut values = vec![100i64];
    values.extend(std::iter::repeat(0i64).take(99));
    let w = window_of(&values);
    assert_eq!(evaluate(&w, 21), Directive::Hold);
    assert_eq!(evaluate(&w, -19), Directive::Hold);
}

#[test]
fn directives_fire_strictly_beyond_the_threshold() {
    let mut values = vec![100i64];
    values.extend(std::iter::repeat(0i64).take(99));
    let w = window_of(&values);
    assert_eq!(evaluate(&w, 22), Directive::Sell);
    assert_eq!(evaluate(&w, -20), Directive::Buy);
    // well inside the band: no directive
    assert_eq!(evaluate(&w, 1), Directive::Hold);
}

#[test]
fn degenerate_variance_blocks_any_signal() {
    // a perfectly flat history cannot be normalized, however extreme the
    // current deviation
    let w = window_of(&[10_000i64; 100]);
    assert_eq!(evaluate(&w, 1_000_000_000), Directive::Hold);
    assert_eq!(evaluate(&w, -1_000_000_000), Directive::Hold);
}

#[test]
fn evaluate_needs_at_least_two_entries() {
    // a single entry has no sample variance at all: always Hold; with two
    // entries the statistic exists (the engine itself only evaluates full
    // windows)
    assert_eq!(evaluate(&window_of(&[5]), 1_000_000_000), Directive::Hold);
    let w = window_of(&[0, 1_000_000]);
    assert!(matches!(evaluate(&w, 1_000_000_000), Directive::Sell));
}
