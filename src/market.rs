use crate::decimal::{decimal_string, decimal_text, micros_string, micros_text};
use vstd::prelude::*;
use vstd::string::StringExecFns;

verus! {

/// One millionth: the scale of every price, amount and crypto quantity.
pub const MICROS: u64 = 1_000_000;

/// One OHLCV sample. Prices are in micro-dollars.
pub struct Bar {
    pub t: String,
    pub o: u64,
    pub h: u64,
    pub l: u64,
    pub c: u64,
    pub v: i64,
}

/// One OHLCV sample of a crypto pair. Prices in micro-dollars, volumes in micro-units.
pub struct CryptoBar {
    pub t: String,
    pub o: u64,
    pub h: u64,
    pub l: u64,
    pub c: u64,
    pub v: u64,
    pub vw: u64,
}

/// The closing prices of a bar series, oldest first.
pub open spec fn closes(bars: Seq<Bar>) -> Seq<int> {
    bars.map_values(|b: Bar| b.c as int)
}

/// Account figures as the venue reports them (decimal text).
pub struct Account {
    pub buying_power: String,
    pub cash: String,
    pub portfolio_value: String,
}

/// A holding as the venue reports it (decimal text).
pub struct Position {
    pub symbol: String,
    pub qty: String,
    pub avg_entry_price: String,
    pub current_price: String,
    pub unrealized_pl: String,
}

/// A crypto holding as the venue reports it.
pub struct CryptoPosition {
    pub symbol: String,
    pub qty: String,
    pub avg_entry_price: String,
    pub current_price: String,
    pub unrealized_pl: String,
    pub asset_class: String,
}

/// An order acknowledged by the venue.
pub struct Order {
    pub id: String,
    pub symbol: String,
    pub qty: String,
    pub side: String,
    pub order_type: String,
    pub status: String,
}

/// An equity order to submit.
pub struct OrderRequest {
    pub symbol: String,
    pub qty: String,
    pub side: String,
    pub order_type: String,
    pub time_in_force: String,
}

/// A crypto order to submit.
pub struct CryptoOrderRequest {
    pub symbol: String,
    pub qty: String,
    pub side: String,
    pub order_type: String,
    pub time_in_force: String,
}

/// A news item with its sentiment score in basis points.
pub struct NewsArticle {
    pub headline: String,
    pub summary: String,
    pub sentiment: String,
    pub sentiment_score: i64,
}

impl CryptoBar {
    /// The same sample as an equity-shaped bar (volume truncated to whole units).
    pub fn to_bar(&self) -> (r: Bar)
        ensures
            r.t@ == self.t@,
            r.o == self.o,
            r.h == self.h,
            r.l == self.l,
            r.c == self.c,
            r.v as int == self.v as int / MICROS as int,
    {
        Bar {
            t: self.t.clone(),
            o: self.o,
            h: self.h,
            l: self.l,
            c: self.c,
            v: (self.v / MICROS) as i64,
        }
    }
}

impl OrderRequest {
    /// A market buy of whole shares, good for the day.
    pub fn market_buy(symbol: &str, shares: u64) -> (r: OrderRequest)
        ensures
            r.symbol@ == symbol@,
            r.qty@ == decimal_text(shares as nat),
            r.side@ == "buy"@,
            r.order_type@ == "market"@,
            r.time_in_force@ == "day"@,
    {
        OrderRequest {
            symbol: symbol.to_owned(),
            qty: decimal_string(shares),
            side: String::from_str("buy"),
            order_type: String::from_str("market"),
            time_in_force: String::from_str("day"),
        }
    }
}

impl CryptoOrderRequest {
    /// A market buy of a crypto quantity in micro-units, good till cancelled.
    pub fn market_buy(symbol: &str, quantity: u64) -> (r: CryptoOrderRequest)
        ensures
            r.symbol@ == symbol@,
            r.qty@ == micros_text(quantity as nat),
            r.side@ == "buy"@,
            r.order_type@ == "market"@,
            r.time_in_force@ == "gtc"@,
    {
        CryptoOrderRequest {
            symbol: symbol.to_owned(),
            qty: micros_string(quantity),
            side: String::from_str("buy"),
            order_type: String::from_str("market"),
            time_in_force: String::from_str("gtc"),
        }
    }
}

/// The equity price: the last trade's price where positive, else the latest bar's close.
pub open spec fn equity_price_spec(trade: Option<u64>, bar_close: Option<u64>) -> Option<u64> {
    match trade {
        Some(p) if p > 0 => Some(p),
        _ => bar_close,
    }
}

/// The crypto price: the ask where positive, else the bid where positive, else the
/// latest bar's close.
pub open spec fn crypto_price_spec(ask: Option<u64>, bid: Option<u64>, bar_close: Option<u64>) -> Option<u64> {
    match ask {
        Some(a) if a > 0 => Some(a),
        _ => match bid {
            Some(b) if b > 0 => Some(b),
            _ => bar_close,
        },
    }
}

/// Picks the equity price from the last trade, falling back to the latest bar's close;
/// `None` where neither gives one.
pub fn select_equity_price(trade: Option<u64>, bar_close: Option<u64>) -> (r: Option<u64>)
    ensures
        r == equity_price_spec(trade, bar_close),
{
    match trade {
        Some(p) => if p > 0 {
            Some(p)
        } else {
            bar_close
        },
        None => bar_close,
    }
}

/// Picks the crypto price from the quote, falling back to the latest bar's close.
pub fn select_crypto_price(ask: Option<u64>, bid: Option<u64>, bar_close: Option<u64>) -> (r: Option<u64>)
    ensures
        r == crypto_price_spec(ask, bid, bar_close),
{
    match ask {
        Some(a) if a > 0 => Some(a),
        _ => match bid {
            Some(b) if b > 0 => Some(b),
            _ => bar_close,
        },
    }
}

} // verus!
