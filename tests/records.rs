use ladybug_engine::history::{PortfolioHistory, PortfolioSnapshot, TradeAction, TradeLedger, TradeRecord};
use ladybug_engine::ledger::{ActivityLog, ActivityLogger, LogLevel};
use ladybug_engine::market::Account;

fn entry(ts: i64) -> ActivityLog {
    ActivityLog {
        id: format!("id-{}", ts),
        timestamp: ts,
        level: LogLevel::Info,
        category: "Test".to_string(),
        message: format!("event {}", ts),
        symbol: None,
    }
}

fn snapshot(n: i64) -> PortfolioSnapshot {
    PortfolioSnapshot { timestamp: n, total_value: n, cash: 0, positions_value: n as i128 }
}

#[test]
fn ledger_over_capacity_drops_oldest() {
    let cap = 10usize;
    let mut log = ActivityLogger::with_capacity(cap);
    for ts in 1..=(cap as i64 + 5) {
        log.insert_entry(entry(ts * 1000));
    }
    assert_eq!(log.len(), cap);
    let kept: Vec<i64> = log.get_logs().iter().map(|e| e.timestamp).collect();
    for ts in 1..=5 {
        assert!(!kept.contains(&(ts * 1000)));
    }
    assert_eq!(kept, (6..=15).rev().map(|t| t * 1000).collect::<Vec<i64>>());
}

#[test]
fn ledger_evicts_by_timestamp_not_arrival() {
    let mut log = ActivityLogger::with_capacity(3);
    for ts in [50, 10, 40, 20, 30] {
        log.insert_entry(entry(ts));
    }
    let kept: Vec<i64> = log.get_logs().iter().map(|e| e.timestamp).collect();
    assert_eq!(kept, vec![50, 40, 30]);
}

#[test]
fn ledger_newest_first_with_ties_latest_first() {
    let mut log = ActivityLogger::new();
    log.insert_entry(entry(5));
    let mut twin = entry(5);
    twin.id = "second".to_string();
    log.insert_entry(twin);
    log.insert_entry(entry(1));
    let logs = log.get_logs();
    assert_eq!(logs.len(), 3);
    assert_eq!(logs[0].id, "second");
    assert_eq!(logs[1].id, "id-5");
    assert_eq!(logs[2].timestamp, 1);
}

#[test]
fn default_ledger_keeps_one_hundred() {
    let mut log = ActivityLogger::new();
    for ts in 0..130 {
        log.insert_entry(entry(ts));
    }
    assert_eq!(log.len(), 100);
    assert_eq!(log.get_logs().last().unwrap().timestamp, 30);
}

#[test]
fn log_helpers_stamp_entries() {
    let mut log = ActivityLogger::new();
    log.info("System", "started");
    log.trade(LogLevel::Success, "BUY 3", "AAPL");
    log.analysis("signal", "MSFT");
    let logs = log.get_logs();
    assert_eq!(logs.len(), 3);
    assert!(logs.iter().all(|e| e.id.len() == 36 && e.timestamp > 0));
    let trade = logs.iter().find(|e| e.category == "Trade").unwrap();
    assert_eq!(trade.symbol.as_deref(), Some("AAPL"));
    assert_eq!(trade.level, LogLevel::Success);
    assert!(logs.iter().any(|e| e.category == "System" && e.symbol.is_none()));
}

#[test]
fn empty_ledger() {
    let log = ActivityLogger::with_capacity(0);
    assert_eq!(log.len(), 0);
    assert!(log.get_logs().is_empty());
    let mut zero = ActivityLogger::with_capacity(0);
    zero.insert_entry(entry(1));
    assert_eq!(zero.len(), 0);
}

#[test]
fn portfolio_ring_keeps_last_hundred() {
    let mut history = PortfolioHistory::new(100);
    for n in 1..=105 {
        history.push(snapshot(n));
    }
    assert_eq!(history.len(), 100);
    let all = history.snapshots();
    assert_eq!(all[0].timestamp, 6);
    assert_eq!(all[99].timestamp, 105);
}

#[test]
fn portfolio_ring_below_capacity_keeps_all() {
    let mut history = PortfolioHistory::new(3);
    history.push(snapshot(1));
    history.push(snapshot(2));
    assert_eq!(history.snapshots(), vec![snapshot(1), snapshot(2)]);
}

#[test]
fn snapshot_from_account() {
    let account = Account {
        buying_power: "1".to_string(),
        cash: "2500.25".to_string(),
        portfolio_value: "10000".to_string(),
    };
    let s = PortfolioSnapshot::from_account(&account, 7);
    assert_eq!(s.total_value, 10_000_000_000);
    assert_eq!(s.cash, 2_500_250_000);
    assert_eq!(s.positions_value, 7_499_750_000);
    assert_eq!(s.timestamp, 7);
}

#[test]
fn snapshot_defaults_unreadable_figures() {
    let account = Account {
        buying_power: String::new(),
        cash: "n/a".to_string(),
        portfolio_value: "12".to_string(),
    };
    let s = PortfolioSnapshot::from_account(&account, 0);
    assert_eq!(s.cash, 100_000_000_000);
    assert_eq!(s.total_value, 12_000_000);
    assert_eq!(s.positions_value, 12_000_000 - 100_000_000_000);
}

#[test]
fn trade_ledger_appends_and_resets() {
    let mut ledger = TradeLedger::new();
    ledger.record(TradeRecord::new("AAPL", TradeAction::Buy, 3_000_000, 150_000_000, 0));
    ledger.record(TradeRecord::new("AAPL", TradeAction::Sell, 3_000_000, 160_000_000, 30_000_000));
    let trades = ledger.trades();
    assert_eq!(trades.len(), 2);
    assert_eq!(trades[1].action, TradeAction::Sell);
    assert_eq!(trades[1].pnl, 30_000_000);
    assert_ne!(trades[0].id, trades[1].id);
    assert_eq!(trades[0].id.len(), 36);
    ledger.reset();
    assert_eq!(ledger.len(), 0);
}

#[test]
fn ledger_in_time_order_keeps_most_recent() {
    let cap = 100usize;
    let mut log = ActivityLogger::new();
    for ts in 1..=(cap as i64 + 5) {
        log.insert_entry(entry(ts));
    }
    let kept: Vec<i64> = log.get_logs().iter().map(|e| e.timestamp).collect();
    assert_eq!(kept.len(), cap);
    assert_eq!(kept, (6..=105).rev().collect::<Vec<i64>>());
    assert!(kept.windows(2).all(|w| w[0] >= w[1]));
}
