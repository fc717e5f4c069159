use crate::clock::{new_york_time, new_york_wall_clock};
use vstd::prelude::*;
use vstd::string::StringExecFns;

verus! {

/// The active instrument universe.
#[derive(Clone, Copy, Debug, PartialEq, Eq, Structural)]
pub enum TradingMode {
    Conservative,
    Volatile,
    Hybrid,
}

/// The equity symbols of a mode, in processing order.
pub open spec fn stock_universe(mode: TradingMode) -> Seq<Seq<char>> {
    match mode {
        TradingMode::Conservative => seq![
            "AAPL"@, "GOOGL"@, "MSFT"@, "TSLA"@, "AMZN"@,
            "NVDA"@, "META"@, "NFLX"@, "AMD"@, "INTC"@,
            "PYPL"@, "ADBE"@, "CRM"@, "ORCL"@, "QCOM"@,
            "TXN"@, "AVGO"@, "CSCO"@, "ASML"@, "AMAT"@,
        ],
        TradingMode::Volatile => seq![
            "TSLA"@, "GME"@, "PLTR"@, "RIOT"@,
            "MARA"@, "MSTR"@, "COIN"@, "ROKU"@, "SNAP"@,
            "SQ"@, "SHOP"@, "ARKK"@, "UPST"@, "CRWD"@,
            "ZM"@, "UBER"@, "LYFT"@, "DKNG"@, "HOOD"@, "SOFI"@,
        ],
        TradingMode::Hybrid => seq![
            "AAPL"@, "GOOGL"@, "MSFT"@, "AMZN"@, "META"@,
            "NFLX"@, "ADBE"@, "CRM"@, "ORCL"@, "CSCO"@,
            "TSLA"@, "GME"@, "PLTR"@, "RIOT"@, "COIN"@,
            "MSTR"@, "SNAP"@, "ROKU"@, "MARA"@, "ARKK"@,
        ],
    }
}

/// The crypto pairs of a mode, in processing order.
pub open spec fn crypto_universe(mode: TradingMode) -> Seq<Seq<char>> {
    match mode {
        TradingMode::Conservative => seq!["BTC/USD"@, "ETH/USD"@, "XRP/USD"@],
        TradingMode::Volatile => seq![
            "BTC/USD"@, "ETH/USD"@, "SOL/USD"@,
            "DOGE/USD"@, "AVAX/USD"@, "MATIC/USD"@,
        ],
        TradingMode::Hybrid => seq![
            "BTC/USD"@, "ETH/USD"@, "SOL/USD"@,
            "DOGE/USD"@, "AVAX/USD"@,
        ],
    }
}

/// The text of each symbol of a list.
pub open spec fn symbol_texts(v: Seq<&'static str>) -> Seq<Seq<char>> {
    v.map_values(|s: &'static str| s@)
}

impl TradingMode {
    pub fn get_stocks(&self) -> (r: Vec<&'static str>)
        ensures
            symbol_texts(r@) == stock_universe(*self),
    {
        let r = match self {
            TradingMode::Conservative => vec![
                "AAPL", "GOOGL", "MSFT", "TSLA", "AMZN",
                "NVDA", "META", "NFLX", "AMD", "INTC",
                "PYPL", "ADBE", "CRM", "ORCL", "QCOM",
                "TXN", "AVGO", "CSCO", "ASML", "AMAT",
            ],
            TradingMode::Volatile => vec![
                "TSLA", "GME", "PLTR", "RIOT",
                "MARA", "MSTR", "COIN", "ROKU", "SNAP",
                "SQ", "SHOP", "ARKK", "UPST", "CRWD",
                "ZM", "UBER", "LYFT", "DKNG", "HOOD", "SOFI",
            ],
            TradingMode::Hybrid => vec![
                "AAPL", "GOOGL", "MSFT", "AMZN", "META",
                "NFLX", "ADBE", "CRM", "ORCL", "CSCO",
                "TSLA", "GME", "PLTR", "RIOT", "COIN",
                "MSTR", "SNAP", "ROKU", "MARA", "ARKK",
            ],
        };
        assert(symbol_texts(r@) =~= stock_universe(*self));
        r
    }

    pub fn get_crypto(&self) -> (r: Vec<&'static str>)
        ensures
            symbol_texts(r@) == crypto_universe(*self),
    {
        let r = match self {
            TradingMode::Conservative => vec!["BTC/USD", "ETH/USD", "XRP/USD"],
            TradingMode::Volatile => vec![
                "BTC/USD", "ETH/USD", "SOL/USD",
                "DOGE/USD", "AVAX/USD", "MATIC/USD",
            ],
            TradingMode::Hybrid => vec![
                "BTC/USD", "ETH/USD", "SOL/USD",
                "DOGE/USD", "AVAX/USD",
            ],
        };
        assert(symbol_texts(r@) =~= crypto_universe(*self));
        r
    }
}

/// Minutes after midnight at which the equity session opens (9:30) and closes (16:00).
pub const SESSION_OPEN_MINUTE: u32 = 570;
pub const SESSION_CLOSE_MINUTE: u32 = 960;

/// The equity session is open on weekdays from 9:30 (inclusive) to 16:00 (exclusive),
/// exchange-local time.
pub open spec fn session_open(weekday: int, hour: int, minute: int) -> bool {
    &&& 1 <= weekday <= 5
    &&& SESSION_OPEN_MINUTE <= hour * 60 + minute < SESSION_CLOSE_MINUTE
}

/// Whether the equity session is open at a local weekday (Monday = 1) and time.
pub fn is_session_open(weekday: u32, hour: u32, minute: u32) -> (r: bool)
    requires
        hour < 24,
        minute < 60,
    ensures
        r == session_open(weekday as int, hour as int, minute as int),
{
    let m: u32 = hour * 60 + minute;
    1 <= weekday && weekday <= 5 && SESSION_OPEN_MINUTE <= m && m < SESSION_CLOSE_MINUTE
}

/// Whether the New York equity session is open at a Unix time in milliseconds.
pub fn equities_market_open_at(unix_ms: i64) -> (r: bool)
    ensures
        r == (new_york_wall_clock(unix_ms as int) matches Some((w, h, m)) && session_open(
            w as int,
            h as int,
            m as int,
        )),
{
    match new_york_time(unix_ms) {
        Some((w, h, m)) => is_session_open(w, h, m),
        None => false,
    }
}

/// The runtime switches read at each scheduler tick. A change takes effect at the next
/// tick, never in a cycle already running.
pub struct EngineSettings {
    pub trading_enabled: bool,
    pub crypto_trading_enabled: bool,
    pub mode: TradingMode,
    pub news_symbols: Vec<String>,
}

impl EngineSettings {
    /// Both kinds of trading enabled, the hybrid universe, and the default news symbols.
    pub fn new() -> (r: EngineSettings)
        ensures
            r.trading_enabled,
            r.crypto_trading_enabled,
            r.mode == TradingMode::Hybrid,
            r.news_symbols@.map_values(|s: String| s@) == seq![
                "AAPL"@,
                "GOOGL"@,
                "BTC/USD"@,
                "ETH/USD"@,
            ],
    {
        let mut news_symbols: Vec<String> = Vec::new();
        news_symbols.push(String::from_str("AAPL"));
        news_symbols.push(String::from_str("GOOGL"));
        news_symbols.push(String::from_str("BTC/USD"));
        news_symbols.push(String::from_str("ETH/USD"));
        let r = EngineSettings {
            trading_enabled: true,
            crypto_trading_enabled: true,
            mode: TradingMode::Hybrid,
            news_symbols,
        };
        assert(r.news_symbols@.map_values(|s: String| s@) =~= seq![
            "AAPL"@,
            "GOOGL"@,
            "BTC/USD"@,
            "ETH/USD"@,
        ]);
        r
    }

    /// Whether an equity cycle runs at this tick: trading is enabled and the session open.
    pub fn should_run_equities(&self, market_open: bool) -> (r: bool)
        ensures
            r == (self.trading_enabled && market_open),
    {
        self.trading_enabled && market_open
    }

    /// Whether a crypto cycle runs at this tick.
    pub fn should_run_crypto(&self) -> (r: bool)
        ensures
            r == self.crypto_trading_enabled,
    {
        self.crypto_trading_enabled
    }

    /// Chooses the universe read by the next cycle.
    pub fn set_mode(&mut self, mode: TradingMode)
        ensures
            final(self).mode == mode,
            final(self).trading_enabled == old(self).trading_enabled,
            final(self).crypto_trading_enabled == old(self).crypto_trading_enabled,
            final(self).news_symbols@ == old(self).news_symbols@,
    {
        self.mode = mode;
    }
}

} // verus!
