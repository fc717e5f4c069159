use ladybug_engine::history::TradeAction;
use ladybug_engine::market::{Account, Bar, Position};
use ladybug_engine::pipeline::{Cycle, InstrumentRun, Outcome, Request, Stage};
use ladybug_engine::policy::{decide, is_profit_target_reached, order_quantity, AssetClass, Decision};
use ladybug_engine::settings::{EngineSettings, TradingMode};

const M: u64 = 1_000_000;

fn bar(close: u64) -> Bar {
    Bar { t: String::new(), o: close, h: close, l: close, c: close, v: 0 }
}

fn position(symbol: &str, qty: &str, entry: &str, current: &str, pnl: &str) -> Position {
    Position {
        symbol: symbol.to_string(),
        qty: qty.to_string(),
        avg_entry_price: entry.to_string(),
        current_price: current.to_string(),
        unrealized_pl: pnl.to_string(),
    }
}

fn account(buying_power: &str) -> Account {
    Account {
        buying_power: buying_power.to_string(),
        cash: "0".to_string(),
        portfolio_value: "0".to_string(),
    }
}

#[test]
fn profit_take_beats_strong_sell_signal() {
    // held at 100, now 120: a 20% gain, with a signal far below the sell threshold
    assert_eq!(decide(AssetClass::Equity, -9000, Some(100 * M as i64), 120 * M), Decision::ProfitTake);
    assert_eq!(decide(AssetClass::Crypto, -9000, Some(100 * M as i64), 120 * M), Decision::ProfitTake);
}

#[test]
fn profit_threshold_is_inclusive() {
    assert!(is_profit_target_reached(AssetClass::Equity, 100 * M as i64, 115 * M));
    assert!(!is_profit_target_reached(AssetClass::Equity, 100 * M as i64, 115 * M - 1));
    assert!(!is_profit_target_reached(AssetClass::Crypto, 100 * M as i64, 119 * M));
    assert!(is_profit_target_reached(AssetClass::Crypto, 100 * M as i64, 120 * M));
    assert!(!is_profit_target_reached(AssetClass::Equity, 0, 120 * M));
}

#[test]
fn sell_needs_holding_and_strong_signal() {
    assert_eq!(decide(AssetClass::Equity, -1501, Some(100 * M as i64), 100 * M), Decision::Sell);
    assert_eq!(decide(AssetClass::Equity, -1500, Some(100 * M as i64), 100 * M), Decision::Hold);
    assert_eq!(decide(AssetClass::Crypto, -2000, Some(100 * M as i64), 100 * M), Decision::Hold);
    assert_eq!(decide(AssetClass::Equity, -9000, None, 100 * M), Decision::Hold);
}

#[test]
fn buy_needs_no_holding_and_strong_signal() {
    assert_eq!(decide(AssetClass::Equity, 1501, None, 100 * M), Decision::Buy);
    assert_eq!(decide(AssetClass::Equity, 1500, None, 100 * M), Decision::Hold);
    assert_eq!(decide(AssetClass::Crypto, 2001, None, 100 * M), Decision::Buy);
    assert_eq!(decide(AssetClass::Crypto, 1900, None, 100 * M), Decision::Hold);
    assert_eq!(decide(AssetClass::Equity, 9000, Some(100 * M as i64), 100 * M), Decision::Hold);
}

#[test]
fn order_size_for_ten_thousand_at_150() {
    // signal above the threshold, no holding, $10,000 buying power, price $150:
    // floor(min(500, 5000) / 150) = 3 shares
    assert_eq!(decide(AssetClass::Equity, 2000, None, 150 * M), Decision::Buy);
    assert_eq!(order_quantity(AssetClass::Equity, 10_000 * M as i64, 150 * M), 3);
}

#[test]
fn order_size_is_capped() {
    // 5% of $1,000,000 is $50,000, capped at $5,000: 50 shares at $100
    assert_eq!(order_quantity(AssetClass::Equity, 1_000_000 * M as i64, 100 * M), 50);
    // crypto: 2% of $1,000,000 capped at $2,000, at $30,000 a coin: 0.066666 coins
    assert_eq!(order_quantity(AssetClass::Crypto, 1_000_000 * M as i64, 30_000 * M), 66_666);
}

#[test]
fn order_size_without_power_or_price_is_zero() {
    assert_eq!(order_quantity(AssetClass::Equity, 0, 150 * M), 0);
    assert_eq!(order_quantity(AssetClass::Equity, -5 * M as i64, 150 * M), 0);
    assert_eq!(order_quantity(AssetClass::Crypto, 10_000 * M as i64, 0), 0);
    assert_eq!(order_quantity(AssetClass::Equity, 1_000 * M as i64, 150 * M), 0);
}

#[test]
fn run_buys_on_strong_signal() {
    let bars: Vec<Bar> = (0..50u64).map(|i| bar((149 - i) * M)).collect();
    let mut run = InstrumentRun::new(AssetClass::Equity, "AAPL", 10000, 0);
    assert_eq!(run.on_price(Some(150 * M)), Request::FetchBars);
    assert_eq!(run.on_bars(Some(bars.as_slice())), Request::FetchPositions);
    assert_eq!(run.signal, 175 + 2000);
    let others = vec![position("MSFT", "1", "10", "10", "0")];
    assert_eq!(run.on_positions(Some(others.as_slice())), Request::FetchAccount);
    assert_eq!(run.on_account(Some(&account("10000.00"))), Request::PlaceOrder(3));
    assert_eq!(run.on_order(true), Request::Finish(Outcome::Bought));
    let trade = run.trade_record().unwrap();
    assert_eq!(trade.action, TradeAction::Buy);
    assert_eq!(trade.quantity, 3 * M as i64);
    assert_eq!(trade.price, 150 * M);
    assert_eq!(trade.pnl, 0);
    assert_eq!(trade.symbol, "AAPL");
}

#[test]
fn run_takes_profit_before_selling() {
    let bars: Vec<Bar> = (0..50u64).map(|i| bar((100 + i) * M)).collect();
    let mut run = InstrumentRun::new(AssetClass::Equity, "AAPL", -10000, 0);
    run.on_price(Some(130 * M));
    run.on_bars(Some(bars.as_slice()));
    assert!(run.signal < -1500);
    let held = vec![position("AAPL", "4", "100.00", "130.00", "120.50")];
    assert_eq!(run.on_positions(Some(held.as_slice())), Request::ClosePosition);
    assert_eq!(run.decision, Decision::ProfitTake);
    assert_eq!(run.on_close(true), Request::Finish(Outcome::ProfitTaken));
    let trade = run.trade_record().unwrap();
    assert_eq!(trade.action, TradeAction::Sell);
    assert_eq!(trade.quantity, 4 * M as i64);
    assert_eq!(trade.pnl, 120_500_000);
}

#[test]
fn run_sells_on_strong_bearish_signal() {
    let bars: Vec<Bar> = (0..50u64).map(|i| bar((100 + i) * M)).collect();
    let mut run = InstrumentRun::new(AssetClass::Crypto, "BTC/USD", -10000, 0);
    run.on_price(Some(101 * M));
    run.on_bars(Some(bars.as_slice()));
    let held = vec![position("BTC/USD", "0.5", "100", "101", "0.5")];
    assert_eq!(run.on_positions(Some(held.as_slice())), Request::ClosePosition);
    assert_eq!(run.decision, Decision::Sell);
    assert_eq!(run.on_close(true), Request::Finish(Outcome::Sold));
    assert_eq!(run.trade_record().unwrap().quantity, 500_000);
}

#[test]
fn run_fails_without_price() {
    let mut run = InstrumentRun::new(AssetClass::Equity, "AAPL", 0, 0);
    assert_eq!(run.on_price(None), Request::Finish(Outcome::Failed));
    assert_eq!(run.stage, Stage::Finished);
    assert!(run.trade_record().is_none());
}

#[test]
fn run_skips_short_series() {
    let bars: Vec<Bar> = (0..19u64).map(|i| bar((100 + i) * M)).collect();
    let mut run = InstrumentRun::new(AssetClass::Equity, "AAPL", 0, 0);
    run.on_price(Some(100 * M));
    assert_eq!(run.on_bars(Some(bars.as_slice())), Request::Finish(Outcome::InsufficientData));
}

#[test]
fn run_fails_without_bars_or_positions() {
    let mut run = InstrumentRun::new(AssetClass::Equity, "AAPL", 0, 0);
    run.on_price(Some(100 * M));
    assert_eq!(run.on_bars(None), Request::Finish(Outcome::Failed));

    let bars: Vec<Bar> = (0..50u64).map(|i| bar((100 + i) * M)).collect();
    let mut run = InstrumentRun::new(AssetClass::Equity, "AAPL", 0, 0);
    run.on_price(Some(100 * M));
    run.on_bars(Some(bars.as_slice()));
    assert_eq!(run.on_positions(None), Request::Finish(Outcome::Failed));

    // a crypto pair whose positions could not be read is taken as not held
    let mut run = InstrumentRun::new(AssetClass::Crypto, "ETH/USD", 0, 0);
    run.on_price(Some(100 * M));
    run.on_bars(Some(bars.as_slice()));
    assert_eq!(run.on_positions(None), Request::Finish(Outcome::Neutral));
}

#[test]
fn run_with_zero_quantity_is_neutral() {
    let bars: Vec<Bar> = (0..50u64).map(|i| bar((149 - i) * M)).collect();
    let mut run = InstrumentRun::new(AssetClass::Equity, "AAPL", 10000, 0);
    run.on_price(Some(150 * M));
    run.on_bars(Some(bars.as_slice()));
    run.on_positions(Some(&Vec::<Position>::new()[..]));
    assert_eq!(run.on_account(Some(&account("100"))), Request::Finish(Outcome::Neutral));
    assert!(run.trade_record().is_none());
}

#[test]
fn rejected_order_is_a_failure() {
    let bars: Vec<Bar> = (0..50u64).map(|i| bar((149 - i) * M)).collect();
    let mut run = InstrumentRun::new(AssetClass::Equity, "AAPL", 10000, 0);
    run.on_price(Some(150 * M));
    run.on_bars(Some(bars.as_slice()));
    run.on_positions(Some(&Vec::<Position>::new()[..]));
    run.on_account(Some(&account("10000")));
    assert_eq!(run.on_order(false), Request::Finish(Outcome::Failed));
    assert!(run.trade_record().is_none());
}

#[test]
fn mode_switch_waits_for_next_cycle() {
    let mut settings = EngineSettings::new();
    let mut cycle = Cycle::start(AssetClass::Equity, settings.mode);
    assert_eq!(cycle.pending().unwrap(), "AAPL");
    cycle.complete(Outcome::Neutral);
    settings.set_mode(TradingMode::Volatile);
    let mut seen = vec!["AAPL".to_string()];
    while let Some(s) = cycle.pending() {
        seen.push(s);
        cycle.complete(Outcome::Neutral);
    }
    let hybrid: Vec<String> = TradingMode::Hybrid.get_stocks().iter().map(|s| s.to_string()).collect();
    assert_eq!(seen, hybrid);
    let next = Cycle::start(AssetClass::Equity, settings.mode);
    assert_eq!(next.pending().unwrap(), "TSLA");
}

#[test]
fn cycle_tallies_outcomes() {
    let mut cycle = Cycle::start(AssetClass::Crypto, TradingMode::Conservative);
    cycle.complete(Outcome::Bought);
    cycle.complete(Outcome::Failed);
    assert!(!cycle.is_finished());
    cycle.complete(Outcome::InsufficientData);
    assert!(cycle.is_finished());
    assert!(cycle.pending().is_none());
    let t = cycle.get_tally();
    assert_eq!((t.analyzed, t.buys, t.failed, t.skipped, t.sells), (2, 1, 1, 1, 0));
}

#[test]
fn settings_gate_cycles() {
    let mut settings = EngineSettings::new();
    assert!(settings.should_run_equities(true));
    assert!(!settings.should_run_equities(false));
    settings.trading_enabled = false;
    assert!(!settings.should_run_equities(true));
    assert!(settings.should_run_crypto());
    assert_eq!(settings.news_symbols, vec!["AAPL", "GOOGL", "BTC/USD", "ETH/USD"]);
}

#[test]
fn crypto_order_size_is_not_rounded_early() {
    // 2% of 49 micro-dollars is 0.98 micro-dollars: at a price of 1 micro-dollar, 0.98 coins
    assert_eq!(order_quantity(AssetClass::Crypto, 49, 1), 980_000);
    // equities: 5% of $59.99 is $2.9995, which buys one share at $2.9995 but none at $3
    assert_eq!(order_quantity(AssetClass::Equity, 59_990_000, 2_999_500), 1);
    assert_eq!(order_quantity(AssetClass::Equity, 59_990_000, 3_000_000), 0);
}
