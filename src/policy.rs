use crate::market::MICROS;
use vstd::arithmetic::div_mod::lemma_div_is_ordered_by_denominator;
use vstd::prelude::*;

verus! {

/// The class of an instrument, which selects the policy's thresholds.
#[derive(Clone, Copy, Debug, PartialEq, Eq, Structural)]
pub enum AssetClass {
    Equity,
    Crypto,
}

/// What the policy asks for one instrument in one cycle.
#[derive(Clone, Copy, Debug, PartialEq, Eq, Structural)]
pub enum Decision {
    /// Close the holding: its gain reached the profit-take threshold.
    ProfitTake,
    /// Open a position (sized once buying power is known).
    Buy,
    /// Close the holding on a bearish signal.
    Sell,
    /// Do nothing: no threshold was met.
    Hold,
}

/// Gain, in percent of the entry price, at which a holding is closed.
pub open spec fn profit_take_percent(class: AssetClass) -> int {
    match class {
        AssetClass::Equity => 15,
        AssetClass::Crypto => 20,
    }
}

/// Signal strength, in basis points, beyond which the policy buys or sells.
pub open spec fn signal_threshold(class: AssetClass) -> int {
    match class {
        AssetClass::Equity => 1500,
        AssetClass::Crypto => 2000,
    }
}

/// Percent of the buying power that one order may use.
pub open spec fn risk_percent(class: AssetClass) -> int {
    match class {
        AssetClass::Equity => 5,
        AssetClass::Crypto => 2,
    }
}

/// The largest amount, in micro-dollars, that one order may use.
pub open spec fn order_cap(class: AssetClass) -> int {
    match class {
        AssetClass::Equity => 5_000_000_000,
        AssetClass::Crypto => 2_000_000_000,
    }
}

/// No order quantity exceeds this many micro-units (nor this many shares).
pub const MAX_ORDER_QUANTITY: u64 = 5_000_000_000_000_000;

/// No equity order exceeds this many shares.
pub const MAX_SHARES: u64 = 5_000_000_000;

/// Whether a holding bought at `entry` has gained the class's profit-take percentage at
/// `price`. A holding without a positive entry price never has.
pub open spec fn profit_reached(class: AssetClass, entry: int, price: int) -> bool {
    entry > 0 && 100 * (price - entry) >= profit_take_percent(class) * entry
}

/// The policy, in its fixed order: profit-take, then buy, then sell, else hold.
/// `entry` is the entry price of the holding, if the instrument is held.
pub open spec fn decision_spec(class: AssetClass, signal: int, entry: Option<int>, price: int) -> Decision {
    match entry {
        Some(e) => if profit_reached(class, e, price) {
            Decision::ProfitTake
        } else if signal < -signal_threshold(class) {
            Decision::Sell
        } else {
            Decision::Hold
        },
        None => if signal > signal_threshold(class) {
            Decision::Buy
        } else {
            Decision::Hold
        },
    }
}

/// The amount an order may use, in hundredths of a micro-dollar: the class's percentage
/// of the buying power, capped (kept in hundredths so that no rounding happens before
/// the division by the price).
pub open spec fn order_budget_hundredths(class: AssetClass, buying_power: int) -> int {
    let share = buying_power * risk_percent(class);
    if share < order_cap(class) * 100 {
        share
    } else {
        order_cap(class) * 100
    }
}

/// The order quantity, `min(buying_power * risk, cap) / price` rounded down: whole
/// shares for equities, micro-units (six decimals) for crypto; zero without buying
/// power or price.
pub open spec fn order_quantity_spec(class: AssetClass, buying_power: int, price: int) -> int {
    if buying_power <= 0 || price <= 0 {
        0
    } else {
        match class {
            AssetClass::Equity => order_budget_hundredths(class, buying_power) / (100 * price),
            AssetClass::Crypto => order_budget_hundredths(class, buying_power) * MICROS as int / (
            100 * price),
        }
    }
}

pub open spec fn as_int_option(x: Option<i64>) -> Option<int> {
    match x {
        Some(v) => Some(v as int),
        None => None,
    }
}

impl AssetClass {
    pub fn profit_take_percent(&self) -> (r: u64)
        ensures
            r == profit_take_percent(*self),
    {
        match self {
            AssetClass::Equity => 15,
            AssetClass::Crypto => 20,
        }
    }

    pub fn signal_threshold(&self) -> (r: i64)
        ensures
            r == signal_threshold(*self),
    {
        match self {
            AssetClass::Equity => 1500,
            AssetClass::Crypto => 2000,
        }
    }

    pub fn risk_percent(&self) -> (r: u64)
        ensures
            r == risk_percent(*self),
    {
        match self {
            AssetClass::Equity => 5,
            AssetClass::Crypto => 2,
        }
    }

    pub fn order_cap(&self) -> (r: u64)
        ensures
            r == order_cap(*self),
    {
        match self {
            AssetClass::Equity => 5_000_000_000,
            AssetClass::Crypto => 2_000_000_000,
        }
    }
}

/// Whether a holding bought at `entry` has reached the profit-take threshold at `price`.
pub fn is_profit_target_reached(class: AssetClass, entry: i64, price: u64) -> (r: bool)
    ensures
        r == profit_reached(class, entry as int, price as int),
{
    if entry <= 0 {
        return false;
    }
    let gain: i128 = 100 * (price as i128 - entry as i128);
    let pct = class.profit_take_percent();
    assert(pct * entry <= 20 * i64::MAX) by (nonlinear_arith)
        requires
            pct <= 20,
            0 < entry <= i64::MAX,
    ;
    gain >= pct as i128 * entry as i128
}

/// The decision for one instrument in one cycle. `entry` is the entry price of the
/// holding, `None` where the instrument is not held.
pub fn decide(class: AssetClass, signal: i64, entry: Option<i64>, price: u64) -> (r: Decision)
    ensures
        r == decision_spec(class, signal as int, as_int_option(entry), price as int),
{
    match entry {
        Some(e) => {
            if is_profit_target_reached(class, e, price) {
                Decision::ProfitTake
            } else if signal < -class.signal_threshold() {
                Decision::Sell
            } else {
                Decision::Hold
            }
        },
        None => {
            if signal > class.signal_threshold() {
                Decision::Buy
            } else {
                Decision::Hold
            }
        },
    }
}

/// The quantity to buy with `buying_power` (micro-dollars) at `price` (micro-dollars):
/// whole shares for equities, micro-units for crypto.
pub fn order_quantity(class: AssetClass, buying_power: i64, price: u64) -> (r: u64)
    ensures
        r == order_quantity_spec(class, buying_power as int, price as int),
        r <= MAX_ORDER_QUANTITY,
        class == AssetClass::Equity ==> r <= MAX_SHARES,
{
    if buying_power <= 0 || price == 0 {
        return 0;
    }
    let risk = class.risk_percent();
    assert(buying_power * risk <= 5 * i64::MAX) by (nonlinear_arith)
        requires
            risk <= 5,
            0 < buying_power <= i64::MAX,
    ;
    let share: u128 = buying_power as u128 * risk as u128;
    let cap = class.order_cap() as u128 * 100;
    let budget: u128 = if share < cap {
        share
    } else {
        cap
    };
    assert(budget <= 500_000_000_000);
    let divisor: u128 = 100 * price as u128;
    assert(budget * MICROS <= 500_000_000_000 * MICROS) by (nonlinear_arith)
        requires
            budget <= 500_000_000_000,
    ;
    let numerator: u128 = match class {
        AssetClass::Equity => budget,
        AssetClass::Crypto => budget * MICROS as u128,
    };
    let q = numerator / divisor;
    proof {
        lemma_div_is_ordered_by_denominator(numerator as int, 100, divisor as int);
    }
    if class == AssetClass::Crypto {
        assert(budget <= 200_000_000_000);
        assert(budget * MICROS <= 200_000_000_000 * MICROS) by (nonlinear_arith)
            requires
                budget <= 200_000_000_000,
        ;
    }
    q as u64
}

/// A holding whose gain reached the profit-take threshold is closed for profit whatever
/// the signal, even a signal strong enough to sell.
pub proof fn lemma_profit_take_comes_first(class: AssetClass, signal: int, entry: int, price: int)
    requires
        profit_reached(class, entry, price),
    ensures
        decision_spec(class, signal, Some(entry), price) == Decision::ProfitTake,
{
}

/// The policy buys only what is not held and sells only what is held.
pub proof fn lemma_orders_follow_holding(class: AssetClass, signal: int, entry: Option<int>, price: int)
    ensures
        decision_spec(class, signal, entry, price) == Decision::Buy ==> entry is None,
        decision_spec(class, signal, entry, price) == Decision::Sell ==> entry is Some,
        decision_spec(class, signal, entry, price) == Decision::ProfitTake ==> entry is Some,
{
}

} // verus!
