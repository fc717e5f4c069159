use ladybug_engine::indicators::TechnicalAnalysis;
use ladybug_engine::market::Bar;

const M: u64 = 1_000_000;

fn bar(close: u64) -> Bar {
    Bar { t: String::new(), o: close, h: close, l: close, c: close, v: 0 }
}

fn series(closes: &[u64]) -> Vec<Bar> {
    closes.iter().map(|c| bar(*c)).collect()
}

fn rising(n: u64, start: u64) -> Vec<Bar> {
    (0..n).map(|i| bar((start + i) * M)).collect()
}

#[test]
fn short_series_gives_neutral_signal() {
    for n in 0..20u64 {
        let bars = rising(n, 100);
        assert_eq!(TechnicalAnalysis::generate_signal(&bars, 10000), 0);
        assert_eq!(TechnicalAnalysis::generate_signal_with_perturbation(&bars, -10000, 1250), 0);
    }
}

#[test]
fn rsi_of_rising_series_is_100() {
    let bars = rising(30, 100);
    assert_eq!(TechnicalAnalysis::calculate_rsi(&bars, 14), Some(10000));
    assert_eq!(TechnicalAnalysis::calculate_rsi(&bars, 29), Some(10000));
}

#[test]
fn rsi_needs_period_plus_one_bars() {
    let bars = rising(14, 100);
    assert_eq!(TechnicalAnalysis::calculate_rsi(&bars, 14), None);
    assert_eq!(TechnicalAnalysis::calculate_rsi(&bars, 0), None);
}

#[test]
fn rsi_of_mixed_changes() {
    // gains 2 + 2 = 4, losses 1 + 1 = 2 over the last four changes: 100 * 4 / 6
    let bars = series(&[10 * M, 12 * M, 11 * M, 13 * M, 12 * M]);
    assert_eq!(TechnicalAnalysis::calculate_rsi(&bars, 4), Some(6666));
}

#[test]
fn sma_of_constant_series_is_that_constant() {
    let bars = series(&[42_500_000; 60]);
    assert_eq!(TechnicalAnalysis::calculate_sma(&bars, 20), Some(42_500_000));
    assert_eq!(TechnicalAnalysis::calculate_sma(&bars, 50), Some(42_500_000));
    assert_eq!(TechnicalAnalysis::calculate_sma(&bars, 60), Some(42_500_000));
}

#[test]
fn sma_of_last_closes() {
    let bars = series(&[1, 2, 3, 4, 5]);
    assert_eq!(TechnicalAnalysis::calculate_sma(&bars, 2), Some(4));
    assert_eq!(TechnicalAnalysis::calculate_sma(&bars, 6), None);
    assert_eq!(TechnicalAnalysis::calculate_sma(&bars, 0), None);
}

#[test]
fn ema_of_constant_series_is_that_constant() {
    let bars = series(&[7 * M; 30]);
    assert_eq!(TechnicalAnalysis::calculate_ema(&bars, 10), Some(7 * M));
    assert_eq!(TechnicalAnalysis::calculate_ema(&bars, 31), None);
}

#[test]
fn ema_smooths_toward_recent_closes() {
    // seed (10 + 20 + 30) / 3 = 20; then 20 + (20 - 20) * 2 / 4 = 20; then 20 + (30 - 20) * 2 / 4 = 25
    let bars = series(&[10, 20, 30]);
    assert_eq!(TechnicalAnalysis::calculate_ema(&bars, 3), Some(25));
}

#[test]
fn signal_of_linear_rise() {
    // closes 100..=149: RSI 100 gives -0.3, SMA(20) above SMA(50) gives +0.2,
    // momentum (149 - 140) / 140 truncated to 0.0642
    let bars = rising(50, 100);
    assert_eq!(TechnicalAnalysis::generate_signal(&bars, 0), -3000 + 2000 + 642);
}

#[test]
fn signal_adds_a_fifth_of_sentiment() {
    let bars = rising(50, 100);
    assert_eq!(TechnicalAnalysis::generate_signal(&bars, 10000), -358 + 2000);
    assert_eq!(TechnicalAnalysis::generate_signal(&bars, -7), -358 - 1);
}

#[test]
fn signal_of_falling_series_is_oversold() {
    // closes 149 down to 100: RSI 0 gives +0.3, SMA(20) below SMA(50) gives -0.2,
    // momentum (100 - 109) / 109 truncated to -0.0825
    let bars: Vec<Bar> = (0..50u64).map(|i| bar((149 - i) * M)).collect();
    assert_eq!(TechnicalAnalysis::generate_signal(&bars, 0), 3000 - 2000 - 825);
}

#[test]
fn momentum_is_clamped() {
    // 20 bars: RSI term -0.3 (no losses), no crossover term, momentum capped at +0.3
    let mut closes = vec![M; 11];
    closes.extend(vec![10 * M; 9]);
    let bars = series(&closes);
    assert_eq!(TechnicalAnalysis::generate_signal(&bars, 0), -3000 + 3000);
}

#[test]
fn signal_is_clamped_to_one() {
    let mut closes: Vec<u64> = (0..40u64).map(|i| (200 - i) * M).collect();
    closes.extend((0..10u64).map(|_| 1000 * M));
    let bars = series(&closes);
    let s = TechnicalAnalysis::generate_signal_with_perturbation(&bars, 10000, 1250);
    assert!(s <= 10000 && s >= -10000);
}

#[test]
fn perturbation_stays_in_bounds() {
    for _ in 0..200 {
        let p = TechnicalAnalysis::draw_perturbation();
        assert!((-1250..=1250).contains(&p));
    }
}

#[test]
fn perturbation_is_added() {
    let bars = rising(50, 100);
    assert_eq!(TechnicalAnalysis::generate_signal_with_perturbation(&bars, 0, 1000), -358 + 1000);
}

#[test]
fn perturbation_from_draw_maps_modulo() {
    assert_eq!(TechnicalAnalysis::perturbation_from_draw(0), -1250);
    assert_eq!(TechnicalAnalysis::perturbation_from_draw(1250), 0);
    assert_eq!(TechnicalAnalysis::perturbation_from_draw(2500), 1250);
    assert_eq!(TechnicalAnalysis::perturbation_from_draw(2501), -1250);
    assert_eq!(TechnicalAnalysis::perturbation_from_draw(u64::MAX), (u64::MAX % 2501) as i64 - 1250);
}
