use crate::clock::{fresh_id, now_unix_ms};
use crate::decimal::{fits_micros, micros_value, parse_micros};
use crate::market::Account;
use vstd::prelude::*;

verus! {

/// Portfolio value at one time. Amounts in micro-dollars; `timestamp` in Unix ms.
#[derive(Clone, Copy, Debug, PartialEq, Eq, Structural)]
pub struct PortfolioSnapshot {
    pub timestamp: i64,
    pub total_value: i64,
    pub cash: i64,
    pub positions_value: i128,
}

/// The amount assumed when the venue's figure does not parse: $100,000.
pub const DEFAULT_ACCOUNT_VALUE: i64 = 100_000_000_000;

/// The amount a decimal text denotes, or the default amount where it does not parse.
pub open spec fn amount_or_default(s: Seq<char>) -> int {
    if fits_micros(s) {
        micros_value(s)
    } else {
        DEFAULT_ACCOUNT_VALUE as int
    }
}

impl PortfolioSnapshot {
    /// The snapshot of an account: total and cash as reported (the default amount where
    /// a figure does not parse), and the positions' value as their difference.
    pub fn from_account(account: &Account, timestamp: i64) -> (r: PortfolioSnapshot)
        ensures
            r.timestamp == timestamp,
            r.total_value == amount_or_default(account.portfolio_value@),
            r.cash == amount_or_default(account.cash@),
            r.positions_value == r.total_value - r.cash,
    {
        let total = match parse_micros(account.portfolio_value.as_str()) {
            Some(v) => v,
            None => DEFAULT_ACCOUNT_VALUE,
        };
        let cash = match parse_micros(account.cash.as_str()) {
            Some(v) => v,
            None => DEFAULT_ACCOUNT_VALUE,
        };
        PortfolioSnapshot {
            timestamp,
            total_value: total,
            cash,
            positions_value: total as i128 - cash as i128,
        }
    }
}

/// The ring after one snapshot: appended, and the oldest dropped past the capacity.
pub open spec fn ring_push(s: Seq<PortfolioSnapshot>, x: PortfolioSnapshot, cap: int) -> Seq<
    PortfolioSnapshot,
> {
    let t = s.push(x);
    if t.len() > cap {
        t.subrange(1, t.len() as int)
    } else {
        t
    }
}

/// The ring after appending each of `xs`, in order, to `s`.
pub open spec fn ring_fold(s: Seq<PortfolioSnapshot>, xs: Seq<PortfolioSnapshot>, cap: int) -> Seq<
    PortfolioSnapshot,
>
    decreases xs.len(),
{
    if xs.len() == 0 {
        s
    } else {
        ring_push(ring_fold(s, xs.drop_last(), cap), xs.last(), cap)
    }
}

/// The bounded history of portfolio snapshots, oldest first.
pub struct PortfolioHistory {
    snapshots: Vec<PortfolioSnapshot>,
    capacity: usize,
}

impl View for PortfolioHistory {
    type V = Seq<PortfolioSnapshot>;

    closed spec fn view(&self) -> Seq<PortfolioSnapshot> {
        self.snapshots@
    }
}

impl PortfolioHistory {
    pub closed spec fn capacity(&self) -> int {
        self.capacity as int
    }

    /// Never more snapshots than the capacity, which is at least one.
    pub closed spec fn wf(&self) -> bool {
        self.capacity >= 1 && self.snapshots@.len() <= self.capacity
    }

    /// An empty history of the given capacity.
    pub fn new(capacity: usize) -> (r: PortfolioHistory)
        requires
            capacity >= 1,
        ensures
            r.wf(),
            r@.len() == 0,
            r.capacity() == capacity,
            r.capacity() >= 1,
    {
        PortfolioHistory { snapshots: Vec::new(), capacity }
    }

    pub fn len(&self) -> (r: usize)
        ensures
            r == self@.len(),
    {
        self.snapshots.len()
    }

    /// Appends a snapshot; past the capacity the oldest leaves.
    pub fn push(&mut self, snapshot: PortfolioSnapshot)
        requires
            old(self).wf(),
        ensures
            final(self).wf(),
            final(self).capacity() == old(self).capacity(),
            final(self)@ == ring_push(old(self)@, snapshot, old(self).capacity()),
            final(self)@.len() <= final(self).capacity(),
    {
        self.snapshots.push(snapshot);
        if self.snapshots.len() > self.capacity {
            let ghost t = self.snapshots@;
            self.snapshots.remove(0);
            assert(self.snapshots@ =~= t.subrange(1, t.len() as int));
        }
    }

    /// Every snapshot, oldest first.
    pub fn snapshots(&self) -> (r: Vec<PortfolioSnapshot>)
        ensures
            r@ == self@,
    {
        self.snapshots.clone()
    }
}

/// Appending snapshots to a ring that is within its capacity leaves the most recent
/// `cap` of all the snapshots held or appended, oldest first.
pub proof fn lemma_ring_keeps_most_recent(
    s: Seq<PortfolioSnapshot>,
    xs: Seq<PortfolioSnapshot>,
    cap: int,
)
    requires
        cap >= 1,
        s.len() <= cap,
    ensures
        ring_fold(s, xs, cap) == (s + xs).subrange(
            if s.len() + xs.len() > cap {
                s.len() + xs.len() - cap
            } else {
                0
            },
            (s.len() + xs.len()) as int,
        ),
    decreases xs.len(),
{
    let all = s + xs;
    let l = all.len() as int;
    if xs.len() == 0 {
        assert(all =~= s);
        assert(all.subrange(0, l) =~= s);
    } else {
        lemma_ring_keeps_most_recent(s, xs.drop_last(), cap);
        let before = s + xs.drop_last();
        assert(all =~= before.push(xs.last()));
        let lo = if l - 1 > cap {
            l - 1 - cap
        } else {
            0
        };
        let prev = before.subrange(lo, l - 1);
        let t = prev.push(xs.last());
        assert(t =~= all.subrange(lo, l));
        if t.len() > cap {
            assert(t.subrange(1, t.len() as int) =~= all.subrange(l - cap, l));
        }
    }
}

/// Buy or sell.
#[derive(Clone, Copy, Debug, PartialEq, Eq, Structural)]
pub enum TradeAction {
    Buy,
    Sell,
}

/// An executed trade. Quantity in micro-units (shares or coins), price and P&L in
/// micro-dollars, `timestamp` in Unix ms.
pub struct TradeRecord {
    pub id: String,
    pub timestamp: i64,
    pub symbol: String,
    pub action: TradeAction,
    pub quantity: i64,
    pub price: u64,
    pub pnl: i64,
}

impl TradeRecord {
    /// A record with a fresh identifier, stamped with the current time.
    pub fn new(symbol: &str, action: TradeAction, quantity: i64, price: u64, pnl: i64) -> (r:
        TradeRecord)
        ensures
            r.symbol@ == symbol@,
            r.action == action,
            r.quantity == quantity,
            r.price == price,
            r.pnl == pnl,
            r.id@.len() == 36,
    {
        TradeRecord {
            id: fresh_id(),
            timestamp: now_unix_ms(),
            symbol: symbol.to_owned(),
            action,
            quantity,
            price,
            pnl,
        }
    }

    /// A field-for-field copy.
    pub fn duplicate(&self) -> (r: TradeRecord)
        ensures
            r == *self,
    {
        TradeRecord {
            id: self.id.clone(),
            timestamp: self.timestamp,
            symbol: self.symbol.clone(),
            action: self.action,
            quantity: self.quantity,
            price: self.price,
            pnl: self.pnl,
        }
    }
}

/// The append-only record of executed trades.
pub struct TradeLedger {
    trades: Vec<TradeRecord>,
}

impl View for TradeLedger {
    type V = Seq<TradeRecord>;

    closed spec fn view(&self) -> Seq<TradeRecord> {
        self.trades@
    }
}

impl TradeLedger {
    pub fn new() -> (r: TradeLedger)
        ensures
            r@.len() == 0,
    {
        TradeLedger { trades: Vec::new() }
    }

    pub fn len(&self) -> (r: usize)
        ensures
            r == self@.len(),
    {
        self.trades.len()
    }

    /// Appends a trade.
    pub fn record(&mut self, trade: TradeRecord)
        ensures
            final(self)@ == old(self)@.push(trade),
    {
        self.trades.push(trade);
    }

    /// Removes every trade.
    pub fn reset(&mut self)
        ensures
            final(self)@.len() == 0,
    {
        self.trades = Vec::new();
    }

    /// Every trade, in the order recorded.
    pub fn trades(&self) -> (r: Vec<TradeRecord>)
        ensures
            r@ == self@,
    {
        let mut r: Vec<TradeRecord> = Vec::new();
        let mut i: usize = 0;
        while i < self.trades.len()
            invariant
                i <= self.trades@.len(),
                r@ == self.trades@.subrange(0, i as int),
            decreases self.trades@.len() - i,
        {
            r.push(self.trades[i].duplicate());
            i = i + 1;
            assert(r@ =~= self.trades@.subrange(0, i as int));
        }
        assert(self.trades@.subrange(0, i as int) =~= self.trades@);
        r
    }
}

} // verus!
