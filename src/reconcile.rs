use crate::decimal::{micros_or_zero, micros_value};
use crate::history::{TradeAction, TradeRecord};
use crate::market::{Position, MICROS};
use crate::policy::AssetClass;
use vstd::arithmetic::div_mod::lemma_div_is_ordered_by_denominator;
use vstd::prelude::*;
use vstd::string::StrSliceExecFns;

verus! {

pub open spec fn has_usd_suffix(s: Seq<char>) -> bool {
    s.len() >= 3 && s[s.len() - 3] == 'U' && s[s.len() - 2] == 'S' && s[s.len() - 1] == 'D'
}

pub open spec fn has_usd_prefix(s: Seq<char>) -> bool {
    s.len() >= 3 && s[0] == 'U' && s[1] == 'S' && s[2] == 'D'
}

/// A symbol names a crypto pair when it holds a `/`, or when it is longer than three
/// characters and ends in `USD` without starting with it.
pub open spec fn is_crypto_symbol_spec(s: Seq<char>) -> bool {
    s.contains('/') || (s.len() > 3 && has_usd_suffix(s) && !has_usd_prefix(s))
}

pub open spec fn class_of_symbol(s: Seq<char>) -> AssetClass {
    if is_crypto_symbol_spec(s) {
        AssetClass::Crypto
    } else {
        AssetClass::Equity
    }
}

/// Whether a symbol names a crypto pair (see `is_crypto_symbol_spec`).
pub fn is_crypto_symbol(symbol: &str) -> (r: bool)
    ensures
        r == is_crypto_symbol_spec(symbol@),
{
    let n = symbol.unicode_len();
    let mut i: usize = 0;
    while i < n
        invariant
            n == symbol@.len(),
            i <= n,
            forall|j: int| 0 <= j < i ==> symbol@[j] != '/',
        decreases n - i,
    {
        if symbol.get_char(i) == '/' {
            assert(symbol@.contains('/'));
            return true;
        }
        i = i + 1;
    }
    if n <= 3 {
        return false;
    }
    let suffix = symbol.get_char(n - 3) == 'U' && symbol.get_char(n - 2) == 'S' && symbol.get_char(
        n - 1,
    ) == 'D';
    let prefix = symbol.get_char(0) == 'U' && symbol.get_char(1) == 'S' && symbol.get_char(2)
        == 'D';
    suffix && !prefix
}

/// The asset class a symbol's shape indicates.
pub fn asset_class_of(symbol: &str) -> (r: AssetClass)
    ensures
        r == class_of_symbol(symbol@),
{
    if is_crypto_symbol(symbol) {
        AssetClass::Crypto
    } else {
        AssetClass::Equity
    }
}

/// Whether two texts are equal, character for character.
pub fn same_text(a: &str, b: &str) -> (r: bool)
    ensures
        r == (a@ == b@),
{
    let n = a.unicode_len();
    if n != b.unicode_len() {
        return false;
    }
    let mut i: usize = 0;
    while i < n
        invariant
            n == a@.len(),
            n == b@.len(),
            i <= n,
            forall|j: int| 0 <= j < i ==> a@[j] == b@[j],
        decreases n - i,
    {
        if a.get_char(i) != b.get_char(i) {
            return false;
        }
        i = i + 1;
    }
    assert(a@ =~= b@);
    true
}

/// A holding as the engine reads it: amounts in micro-units.
#[derive(Clone, Copy, Debug, PartialEq, Eq, Structural)]
pub struct Holding {
    pub quantity: i64,
    pub entry_price: i64,
    pub current_price: i64,
    pub unrealized_pnl: i64,
}

/// The reading of a venue position: each amount parsed, zero where it does not parse.
pub open spec fn reads_as(h: Holding, p: Position) -> bool {
    &&& h.quantity == micros_value(p.qty@)
    &&& h.entry_price == micros_value(p.avg_entry_price@)
    &&& h.current_price == micros_value(p.current_price@)
    &&& h.unrealized_pnl == micros_value(p.unrealized_pl@)
}

/// The index of the first position held in `symbol`.
pub open spec fn first_position_of(ps: Seq<Position>, symbol: Seq<char>) -> Option<int> {
    if exists|i: int| 0 <= i < ps.len() && ps[i].symbol@ == symbol {
        let i = choose|i: int|
            0 <= i < ps.len() && ps[i].symbol@ == symbol && forall|j: int|
                0 <= j < i ==> ps[j].symbol@ != symbol;
        Some(i)
    } else {
        None
    }
}

impl Holding {
    /// Reads the amounts of a venue position.
    pub fn from_position(p: &Position) -> (r: Holding)
        ensures
            reads_as(r, *p),
    {
        Holding {
            quantity: micros_or_zero(p.qty.as_str()),
            entry_price: micros_or_zero(p.avg_entry_price.as_str()),
            current_price: micros_or_zero(p.current_price.as_str()),
            unrealized_pnl: micros_or_zero(p.unrealized_pl.as_str()),
        }
    }
}

/// The index of the first position held in `symbol`, if any.
pub fn find_position(positions: &[Position], symbol: &str) -> (r: Option<usize>)
    ensures
        r matches Some(i) ==> {
            &&& i < positions@.len()
            &&& positions@[i as int].symbol@ == symbol@
            &&& forall|j: int| 0 <= j < i ==> positions@[j].symbol@ != symbol@
        },
        r is None ==> forall|j: int| 0 <= j < positions@.len() ==> positions@[j].symbol@ != symbol@,
{
    let mut i: usize = 0;
    while i < positions.len()
        invariant
            i <= positions@.len(),
            forall|j: int| 0 <= j < i ==> positions@[j].symbol@ != symbol@,
        decreases positions@.len() - i,
    {
        if same_text(positions[i].symbol.as_str(), symbol) {
            return Some(i);
        }
        i = i + 1;
    }
    None
}

/// Whether `symbol` is held, and if so the reading of its first position.
pub fn find_holding(positions: &[Position], symbol: &str) -> (r: Option<Holding>)
    ensures
        r is Some <==> exists|i: int|
            0 <= i < positions@.len() && #[trigger] positions@[i].symbol@ == symbol@,
        r matches Some(h) ==> first_position_of(positions@, symbol@) matches Some(i) && reads_as(
            h,
            positions@[i],
        ),
{
    match find_position(positions, symbol) {
        Some(i) => {
            let ghost ps = positions@;
            assert(exists|k: int| 0 <= k < ps.len() && ps[k].symbol@ == symbol@);
            let ghost k = choose|k: int|
                0 <= k < ps.len() && ps[k].symbol@ == symbol@ && forall|j: int|
                    0 <= j < k ==> ps[j].symbol@ != symbol@;
            assert(k == i) by {
                if k < i {
                    assert(ps[k].symbol@ != symbol@);
                } else if k > i {
                    assert(ps[i as int].symbol@ != symbol@);
                }
            }
            Some(Holding::from_position(&positions[i]))
        },
        None => None,
    }
}

/// `a / b` truncated toward zero, for a positive `b`.
pub open spec fn trunc_div(a: int, b: int) -> int {
    if a >= 0 {
        a / b
    } else {
        -((-a) / b)
    }
}

/// Gain in basis points of the entry price; zero without a positive entry price.
pub open spec fn pnl_percent_spec(entry: int, current: int) -> int {
    if entry > 0 {
        trunc_div(10000 * (current - entry), entry)
    } else {
        0
    }
}

/// Quantity times price, both in micro-units, as micro-dollars.
pub open spec fn market_value_spec(quantity: int, price: int) -> int {
    trunc_div(quantity * price, MICROS as int)
}

/// A holding as shown to the dashboard: amounts in micro-units, gain in basis points.
pub struct PositionSummary {
    pub symbol: String,
    pub quantity: i64,
    pub entry_price: i64,
    pub current_price: i64,
    pub pnl: i64,
    pub pnl_percent: i128,
    pub market_value: i128,
    pub asset_type: AssetClass,
}

/// `s` shows venue position `p`.
pub open spec fn summarizes(s: PositionSummary, p: Position) -> bool {
    let q = micros_value(p.qty@);
    let e = micros_value(p.avg_entry_price@);
    let c = micros_value(p.current_price@);
    &&& s.symbol@ == p.symbol@
    &&& s.quantity == q
    &&& s.entry_price == e
    &&& s.current_price == c
    &&& s.pnl == micros_value(p.unrealized_pl@)
    &&& s.pnl_percent == pnl_percent_spec(e, c)
    &&& s.market_value == market_value_spec(q, c)
    &&& s.asset_type == class_of_symbol(p.symbol@)
}

/// Gain in basis points of the entry price; zero without a positive entry price.
pub fn pnl_percent(entry: i64, current: i64) -> (r: i128)
    ensures
        r == pnl_percent_spec(entry as int, current as int),
{
    if entry <= 0 {
        return 0;
    }
    let up = current >= entry;
    let d: u128 = if up {
        (current as i128 - entry as i128) as u128
    } else {
        (entry as i128 - current as i128) as u128
    };
    let v = 10000 * d / entry as u128;
    proof {
        lemma_div_is_ordered_by_denominator(10000 * d as int, 1, entry as int);
    }
    if up {
        v as i128
    } else {
        -(v as i128)
    }
}

/// Quantity times price, both in micro-units, as micro-dollars, truncated toward zero.
pub fn market_value(quantity: i64, price: i64) -> (r: i128)
    ensures
        r == market_value_spec(quantity as int, price as int),
{
    let q: i128 = quantity as i128;
    let p: i128 = price as i128;
    assert(-(i64::MAX as int) * (i64::MAX as int) - i64::MAX <= q * p <= (i64::MAX as int + 1) * (
    i64::MAX as int + 1)) by (nonlinear_arith)
        requires
            i64::MIN <= q <= i64::MAX,
            i64::MIN <= p <= i64::MAX,
    ;
    let prod: i128 = q * p;
    if prod >= 0 {
        (prod as u128 / MICROS as u128) as i128
    } else {
        -(((-prod) as u128 / MICROS as u128) as i128)
    }
}

impl PositionSummary {
    /// The dashboard view of a venue position.
    pub fn from_position(p: &Position) -> (r: PositionSummary)
        ensures
            summarizes(r, *p),
    {
        let h = Holding::from_position(p);
        PositionSummary {
            symbol: p.symbol.clone(),
            quantity: h.quantity,
            entry_price: h.entry_price,
            current_price: h.current_price,
            pnl: h.unrealized_pnl,
            pnl_percent: pnl_percent(h.entry_price, h.current_price),
            market_value: market_value(h.quantity, h.current_price),
            asset_type: asset_class_of(p.symbol.as_str()),
        }
    }
}

/// The dashboard view of every venue position, in order.
pub fn summarize_positions(positions: &[Position]) -> (r: Vec<PositionSummary>)
    ensures
        r@.len() == positions@.len(),
        forall|i: int| 0 <= i < r@.len() ==> summarizes(#[trigger] r@[i], positions@[i]),
{
    let mut r: Vec<PositionSummary> = Vec::new();
    let mut i: usize = 0;
    while i < positions.len()
        invariant
            i <= positions@.len(),
            r@.len() == i,
            forall|j: int| 0 <= j < i ==> summarizes(#[trigger] r@[j], positions@[j]),
        decreases positions@.len() - i,
    {
        r.push(PositionSummary::from_position(&positions[i]));
        i = i + 1;
    }
    r
}

pub open spec fn crypto_held(ps: Seq<Position>) -> Seq<Position> {
    ps.filter(|p: Position| is_crypto_symbol_spec(p.symbol@))
}

/// The dashboard view of the crypto positions only, in order.
pub fn summarize_crypto_positions(positions: &[Position]) -> (r: Vec<PositionSummary>)
    ensures
        r@.len() == crypto_held(positions@).len(),
        forall|i: int| 0 <= i < r@.len() ==> summarizes(#[trigger] r@[i], crypto_held(positions@)[i]),
{
    let ghost ps = positions@;
    let ghost pred = |p: Position| is_crypto_symbol_spec(p.symbol@);
    let mut r: Vec<PositionSummary> = Vec::new();
    let mut i: usize = 0;
    assert(ps.take(0).filter(pred) =~= Seq::<Position>::empty()) by {
        reveal(Seq::filter);
    }
    while i < positions.len()
        invariant
            i <= ps.len(),
            ps == positions@,
            pred == (|p: Position| is_crypto_symbol_spec(p.symbol@)),
            r@.len() == ps.take(i as int).filter(pred).len(),
            forall|j: int|
                0 <= j < r@.len() ==> summarizes(#[trigger] r@[j], ps.take(i as int).filter(pred)[j]),
        decreases ps.len() - i,
    {
        assert(ps.take(i + 1) =~= ps.take(i as int).push(ps[i as int]));
        proof {
            ps.take(i as int).lemma_filter_push(ps[i as int], pred);
        }
        if is_crypto_symbol(positions[i].symbol.as_str()) {
            r.push(PositionSummary::from_position(&positions[i]));
        }
        i = i + 1;
    }
    assert(ps.take(ps.len() as int) =~= ps);
    r
}

/// What closing every position came to.
pub struct BulkCloseTally {
    pub closed_count: u64,
    pub failed_count: u64,
    pub total_pnl: i128,
    pub closed_symbols: Vec<String>,
}

impl BulkCloseTally {
    pub fn new() -> (r: BulkCloseTally)
        ensures
            r.closed_count == 0,
            r.failed_count == 0,
            r.total_pnl == 0,
            r.closed_symbols@.len() == 0,
    {
        BulkCloseTally { closed_count: 0, failed_count: 0, total_pnl: 0, closed_symbols: Vec::new() }
    }

    /// Counts one close attempt: a success adds the symbol and its P&L, a failure is
    /// counted apart.
    pub fn record(&mut self, symbol: &str, pnl: i64, closed: bool)
        requires
            old(self).closed_count < u64::MAX,
            old(self).failed_count < u64::MAX,
            -(old(self).closed_count * (i64::MAX as int + 1)) <= old(self).total_pnl <= old(self).closed_count * (i64::MAX as int + 1),
        ensures
            closed ==> {
                &&& final(self).closed_count == old(self).closed_count + 1
                &&& final(self).failed_count == old(self).failed_count
                &&& final(self).total_pnl == old(self).total_pnl + pnl
                &&& final(self).closed_symbols@.len() == old(self).closed_symbols@.len() + 1
                &&& final(self).closed_symbols@.last()@ == symbol@
                &&& final(self).closed_symbols@.drop_last() == old(self).closed_symbols@
            },
            !closed ==> {
                &&& final(self).closed_count == old(self).closed_count
                &&& final(self).failed_count == old(self).failed_count + 1
                &&& final(self).total_pnl == old(self).total_pnl
                &&& final(self).closed_symbols@ == old(self).closed_symbols@
            },
            -(final(self).closed_count * (i64::MAX as int + 1)) <= final(self).total_pnl <= final(self).closed_count * (i64::MAX as int + 1),
    {
        if closed {
            let ghost k = self.closed_count as int;
            let ghost t = self.total_pnl as int;
            assert((k + 1) * (i64::MAX as int + 1) == k * (i64::MAX as int + 1) + (i64::MAX as int + 1)) by (nonlinear_arith);
            assert(-((k + 1) * (i64::MAX as int + 1)) <= t + pnl <= (k + 1) * (i64::MAX as int + 1));
            self.closed_count = self.closed_count + 1;
            self.total_pnl = self.total_pnl + pnl as i128;
            let ghost before = self.closed_symbols@;
            self.closed_symbols.push(symbol.to_owned());
            assert(self.closed_symbols@.drop_last() =~= before);
        } else {
            self.failed_count = self.failed_count + 1;
        }
    }
}

/// Why a manual close cannot proceed.
#[derive(Clone, Copy, Debug, PartialEq, Eq, Structural)]
pub enum ManualCloseError {
    /// No position in that symbol is held (or the positions could not be read).
    NotFound,
}

/// A position the user asked to close: which gateway closes it, and what is held.
#[derive(Clone, Copy, Debug, PartialEq, Eq, Structural)]
pub struct ManualClose {
    pub class: AssetClass,
    pub holding: Holding,
}

/// Finds the position to close by hand. Fails where the positions could not be read or
/// none is held in `symbol`.
pub fn prepare_manual_close(positions: Option<&[Position]>, symbol: &str) -> (r: Result<
    ManualClose,
    ManualCloseError,
>)
    ensures
        match positions {
            Some(ps) => match r {
                Ok(c) => c.class == class_of_symbol(symbol@) && (first_position_of(ps@, symbol@) matches Some(i) && reads_as(c.holding, ps@[i])),
                Err(e) => e == ManualCloseError::NotFound && forall|j: int|
                    0 <= j < ps@.len() ==> #[trigger] ps@[j].symbol@ != symbol@,
            },
            None => r == Err::<ManualClose, ManualCloseError>(ManualCloseError::NotFound),
        },
{
    match positions {
        Some(ps) => match find_holding(ps, symbol) {
            Some(h) => Ok(ManualClose { class: asset_class_of(symbol), holding: h }),
            None => {
                assert forall|j: int| 0 <= j < ps@.len() implies #[trigger] ps@[j].symbol@
                    != symbol@ by {
                    if ps@[j].symbol@ == symbol@ {
                        assert(exists|i: int| 0 <= i < ps@.len() && #[trigger] ps@[i].symbol@ == symbol@);
                    }
                }
                Err(ManualCloseError::NotFound)
            },
        },
        None => Err(ManualCloseError::NotFound),
    }
}

/// The price a sale is recorded at: the holding's current price, zero where negative.
pub open spec fn sale_price(h: Holding) -> int {
    if h.current_price >= 0 {
        h.current_price as int
    } else {
        0
    }
}

impl Holding {
    /// The record of selling this holding: its quantity at its current price, with its
    /// unrealized P&L.
    pub fn sale_record(&self, symbol: &str) -> (r: TradeRecord)
        ensures
            r.symbol@ == symbol@,
            r.action == TradeAction::Sell,
            r.quantity == self.quantity,
            r.price == sale_price(*self),
            r.pnl == self.unrealized_pnl,
    {
        let price: u64 = if self.current_price >= 0 {
            self.current_price as u64
        } else {
            0
        };
        TradeRecord::new(symbol, TradeAction::Sell, self.quantity, price, self.unrealized_pnl)
    }
}

} // verus!
