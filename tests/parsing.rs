use ladybug_engine::decimal::{decimal_string, micros_or_zero, micros_string, padded_string, parse_micros};
use ladybug_engine::market::{select_crypto_price, select_equity_price, CryptoBar, CryptoOrderRequest, OrderRequest};
use ladybug_engine::policy::AssetClass;
use ladybug_engine::reconcile::{
    asset_class_of, find_holding, find_position, is_crypto_symbol, market_value, pnl_percent,
    prepare_manual_close, same_text, summarize_crypto_positions, summarize_positions,
    BulkCloseTally, ManualCloseError,
};
use ladybug_engine::market::Position;
use ladybug_engine::sentiment::{average_sentiment, SentimentCache};
use ladybug_engine::settings::{equities_market_open_at, is_session_open, TradingMode};

fn position(symbol: &str, qty: &str, entry: &str, current: &str, pnl: &str) -> Position {
    Position {
        symbol: symbol.to_string(),
        qty: qty.to_string(),
        avg_entry_price: entry.to_string(),
        current_price: current.to_string(),
        unrealized_pl: pnl.to_string(),
    }
}

#[test]
fn parses_decimal_amounts() {
    assert_eq!(parse_micros("123.45"), Some(123_450_000));
    assert_eq!(parse_micros("-0.5"), Some(-500_000));
    assert_eq!(parse_micros("+7"), Some(7_000_000));
    assert_eq!(parse_micros(".25"), Some(250_000));
    assert_eq!(parse_micros("3."), Some(3_000_000));
    assert_eq!(parse_micros("1.23456789"), Some(1_234_567));
    assert_eq!(parse_micros("-1.23456789"), Some(-1_234_567));
    assert_eq!(parse_micros("9223372036854.775807"), Some(i64::MAX));
}

#[test]
fn rejects_malformed_amounts() {
    assert_eq!(parse_micros(""), None);
    assert_eq!(parse_micros("."), None);
    assert_eq!(parse_micros("-"), None);
    assert_eq!(parse_micros("1.2.3"), None);
    assert_eq!(parse_micros("12a"), None);
    assert_eq!(parse_micros("1e5"), None);
    assert_eq!(parse_micros("9223372036855"), None);
    assert_eq!(parse_micros("9223372036854.775808"), None);
    assert_eq!(micros_or_zero("n/a"), 0);
    assert_eq!(micros_or_zero("2"), 2_000_000);
}

#[test]
fn writes_quantities() {
    assert_eq!(decimal_string(0), "0");
    assert_eq!(decimal_string(1_234_567_890), "1234567890");
    assert_eq!(padded_string(42, 6), "000042");
    assert_eq!(micros_string(1_500_000), "1.500000");
    assert_eq!(micros_string(66_666), "0.066666");
    assert_eq!(micros_string(0), "0.000000");
}

#[test]
fn builds_orders() {
    let o = OrderRequest::market_buy("AAPL", 3);
    assert_eq!((o.symbol.as_str(), o.qty.as_str(), o.side.as_str()), ("AAPL", "3", "buy"));
    assert_eq!((o.order_type.as_str(), o.time_in_force.as_str()), ("market", "day"));
    let c = CryptoOrderRequest::market_buy("BTC/USD", 66_666);
    assert_eq!((c.qty.as_str(), c.time_in_force.as_str()), ("0.066666", "gtc"));
}

#[test]
fn selects_prices() {
    assert_eq!(select_equity_price(Some(5), Some(9)), Some(5));
    assert_eq!(select_equity_price(Some(0), Some(9)), Some(9));
    assert_eq!(select_equity_price(None, None), None);
    assert_eq!(select_crypto_price(Some(0), Some(4), Some(9)), Some(4));
    assert_eq!(select_crypto_price(None, Some(0), Some(9)), Some(9));
    assert_eq!(select_crypto_price(Some(3), Some(4), None), Some(3));
    assert_eq!(select_crypto_price(None, None, None), None);
}

#[test]
fn converts_crypto_bars() {
    let b = CryptoBar { t: "t".to_string(), o: 1, h: 2, l: 0, c: 1, v: 2_500_000, vw: 1 };
    let e = b.to_bar();
    assert_eq!((e.c, e.h, e.v), (1, 2, 2));
}

#[test]
fn classifies_symbols() {
    assert!(is_crypto_symbol("BTC/USD"));
    assert!(is_crypto_symbol("ETHUSD"));
    assert!(!is_crypto_symbol("USD"));
    assert!(!is_crypto_symbol("USDUSD"));
    assert!(!is_crypto_symbol("AAPL"));
    assert!(!is_crypto_symbol(""));
    assert_eq!(asset_class_of("DOGE/USD"), AssetClass::Crypto);
    assert_eq!(asset_class_of("MSFT"), AssetClass::Equity);
    assert!(same_text("AB", "AB"));
    assert!(!same_text("AB", "ABC"));
}

#[test]
fn finds_first_holding() {
    let ps = vec![
        position("MSFT", "1", "10", "11", "1"),
        position("AAPL", "2", "100.5", "101", "1"),
        position("AAPL", "9", "1", "1", "0"),
    ];
    assert_eq!(find_position(&ps, "AAPL"), Some(1));
    let h = find_holding(&ps, "AAPL").unwrap();
    assert_eq!((h.quantity, h.entry_price, h.current_price), (2_000_000, 100_500_000, 101_000_000));
    assert!(find_holding(&ps, "TSLA").is_none());
}

#[test]
fn summarizes_positions() {
    let ps = vec![
        position("AAPL", "2", "100", "110", "20"),
        position("BTCUSD", "0.5", "40000", "30000", "-5000"),
        position("ETH/USD", "x", "0", "10", "0"),
    ];
    let all = summarize_positions(&ps);
    assert_eq!(all.len(), 3);
    assert_eq!(all[0].pnl_percent, 1000);
    assert_eq!(all[0].market_value, 220_000_000);
    assert_eq!(all[0].asset_type, AssetClass::Equity);
    assert_eq!(all[1].pnl_percent, -2500);
    assert_eq!(all[1].market_value, 15_000_000_000);
    assert_eq!(all[2].quantity, 0);
    assert_eq!(all[2].pnl_percent, 0);
    let crypto = summarize_crypto_positions(&ps);
    assert_eq!(crypto.len(), 2);
    assert_eq!(crypto[0].symbol, "BTCUSD");
    assert_eq!(crypto[1].symbol, "ETH/USD");
    assert_eq!(pnl_percent(3, 2), -3333);
    assert_eq!(market_value(-1_500_000, 3_000_000), -4_500_000);
}

#[test]
fn manual_close_needs_a_position() {
    let ps = vec![position("ETH/USD", "2", "100", "130", "60")];
    let c = prepare_manual_close(Some(ps.as_slice()), "ETH/USD").unwrap();
    assert_eq!(c.class, AssetClass::Crypto);
    assert_eq!(c.holding.unrealized_pnl, 60_000_000);
    let t = c.holding.sale_record("ETH/USD");
    assert_eq!((t.quantity, t.price, t.pnl), (2_000_000, 130_000_000, 60_000_000));
    assert_eq!(prepare_manual_close(Some(ps.as_slice()), "AAPL").unwrap_err(), ManualCloseError::NotFound);
    assert_eq!(prepare_manual_close(None, "ETH/USD").unwrap_err(), ManualCloseError::NotFound);
}

#[test]
fn tallies_bulk_close() {
    let mut t = BulkCloseTally::new();
    t.record("AAPL", 5_000_000, true);
    t.record("TSLA", -1_000_000, false);
    t.record("BTC/USD", -2_000_000, true);
    assert_eq!((t.closed_count, t.failed_count, t.total_pnl), (2, 1, 3_000_000));
    assert_eq!(t.closed_symbols, vec!["AAPL", "BTC/USD"]);
}

#[test]
fn sentiment_cache_defaults_to_neutral() {
    let mut cache = SentimentCache::new();
    assert_eq!(cache.get_sentiment("AAPL"), 0);
    cache.update("AAPL", 4200);
    assert_eq!(cache.get_sentiment("AAPL"), 4200);
    cache.update("AAPL", 25_000);
    assert_eq!(cache.get_sentiment("AAPL"), 10_000);
    cache.update_all(&["TSLA".to_string(), "NVDA".to_string()], -300);
    assert_eq!(cache.get_sentiment("TSLA"), -300);
    assert_eq!(cache.get_sentiment("NVDA"), -300);
    assert_eq!(cache.get_sentiment("AAPL"), 10_000);
}

#[test]
fn averages_article_sentiment() {
    assert_eq!(average_sentiment(&[]), 0);
    assert_eq!(average_sentiment(&[1000, 2000, 4000]), 2333);
    assert_eq!(average_sentiment(&[-1000, -2000]), -1500);
    assert_eq!(average_sentiment(&[-7]), -7);
    assert_eq!(average_sentiment(&[30_000, 30_000]), 10_000);
}

#[test]
fn session_hours() {
    assert!(is_session_open(1, 9, 30));
    assert!(!is_session_open(1, 9, 29));
    assert!(is_session_open(5, 15, 59));
    assert!(!is_session_open(5, 16, 0));
    assert!(!is_session_open(6, 12, 0));
    // 2024-01-02 15:00 UTC is 10:00 on a Tuesday in New York
    assert!(equities_market_open_at(1_704_207_600_000));
    // 2024-01-02 22:00 UTC is 17:00 in New York
    assert!(!equities_market_open_at(1_704_232_800_000));
    // 2024-01-06 15:00 UTC is a Saturday
    assert!(!equities_market_open_at(1_704_553_200_000));
}

#[test]
fn universes() {
    assert_eq!(TradingMode::Conservative.get_stocks().len(), 20);
    assert_eq!(TradingMode::Volatile.get_stocks()[0], "TSLA");
    assert_eq!(TradingMode::Hybrid.get_crypto(), vec!["BTC/USD", "ETH/USD", "SOL/USD", "DOGE/USD", "AVAX/USD"]);
    assert_eq!(TradingMode::Conservative.get_crypto().len(), 3);
}
