use crate::decimal::{micros_or_zero, micros_value};
use crate::history::{TradeAction, TradeRecord};
use crate::indicators::{signal_spec, TechnicalAnalysis, MIN_SIGNAL_BARS, PERTURBATION_BOUND, SIGNAL_BOUND};
use crate::market::{closes, Account, Bar, Position, MICROS};
use crate::policy::{MAX_ORDER_QUANTITY, MAX_SHARES, as_int_option, decide, decision_spec, order_quantity, order_quantity_spec, AssetClass, Decision};
use crate::reconcile::{find_holding, first_position_of, reads_as, Holding};
use crate::settings::{crypto_universe, stock_universe, TradingMode};
use vstd::prelude::*;

verus! {

/// Where the processing of one instrument stands.
#[derive(Clone, Copy, Debug, PartialEq, Eq, Structural)]
pub enum Stage {
    AwaitPrice,
    AwaitBars,
    AwaitPositions,
    AwaitAccount,
    AwaitOrder,
    AwaitClose,
    Finished,
}

/// How the processing of one instrument ended.
#[derive(Clone, Copy, Debug, PartialEq, Eq, Structural)]
pub enum Outcome {
    Bought,
    Sold,
    ProfitTaken,
    Neutral,
    InsufficientData,
    Failed,
}

/// What the engine asks of the gateway next, or that it is done.
#[derive(Clone, Copy, Debug, PartialEq, Eq, Structural)]
pub enum Request {
    FetchPrice,
    FetchBars,
    FetchPositions,
    FetchAccount,
    /// Submit a buy of this quantity (whole shares, or crypto micro-units).
    PlaceOrder(u64),
    ClosePosition,
    Finish(Outcome),
}

/// The decisions of one instrument's pass, fed with what the gateway returned.
/// Amounts are in micro-units; `signal` and `sentiment` in basis points.
pub struct InstrumentRun {
    pub class: AssetClass,
    pub symbol: String,
    pub sentiment: i64,
    pub perturbation: i64,
    pub stage: Stage,
    pub price: u64,
    pub signal: i64,
    pub holding: Option<Holding>,
    pub decision: Decision,
    pub quantity: u64,
    pub outcome: Option<Outcome>,
}

pub open spec fn entry_of(h: Option<Holding>) -> Option<int> {
    match h {
        Some(x) => Some(x.entry_price as int),
        None => None,
    }
}

impl InstrumentRun {
    pub open spec fn wf(&self) -> bool {
        &&& -SIGNAL_BOUND <= self.sentiment <= SIGNAL_BOUND
        &&& -PERTURBATION_BOUND <= self.perturbation <= PERTURBATION_BOUND
        &&& self.quantity <= MAX_ORDER_QUANTITY
        &&& self.class == AssetClass::Equity ==> self.quantity <= MAX_SHARES
    }

    /// Everything but the stage, outcome and what a step sets is kept.
    pub open spec fn same_inputs(&self, other: &InstrumentRun) -> bool {
        &&& self.class == other.class
        &&& self.symbol@ == other.symbol@
        &&& self.sentiment == other.sentiment
        &&& self.perturbation == other.perturbation
    }

    /// Starts processing `symbol`; the first request is `FetchPrice`.
    pub fn new(class: AssetClass, symbol: &str, sentiment: i64, perturbation: i64) -> (r:
        InstrumentRun)
        requires
            -SIGNAL_BOUND <= sentiment <= SIGNAL_BOUND,
            -PERTURBATION_BOUND <= perturbation <= PERTURBATION_BOUND,
        ensures
            r.wf(),
            r.class == class,
            r.symbol@ == symbol@,
            r.sentiment == sentiment,
            r.perturbation == perturbation,
            r.stage == Stage::AwaitPrice,
            r.outcome is None,
    {
        InstrumentRun {
            class,
            symbol: symbol.to_owned(),
            sentiment,
            perturbation,
            stage: Stage::AwaitPrice,
            price: 0,
            signal: 0,
            holding: None,
            decision: Decision::Hold,
            quantity: 0,
            outcome: None,
        }
    }

    fn finish(&mut self, outcome: Outcome) -> (r: Request)
        ensures
            final(self).stage == Stage::Finished,
            final(self).outcome == Some(outcome),
            r == Request::Finish(outcome),
            final(self).same_inputs(old(self)),
            final(self).price == old(self).price,
            final(self).signal == old(self).signal,
            final(self).holding == old(self).holding,
            final(self).decision == old(self).decision,
            final(self).quantity == old(self).quantity,
    {
        self.stage = Stage::Finished;
        self.outcome = Some(outcome);
        Request::Finish(outcome)
    }

    /// The current price: without one the instrument fails for this cycle.
    pub fn on_price(&mut self, price: Option<u64>) -> (r: Request)
        requires
            old(self).wf(),
            old(self).stage == Stage::AwaitPrice,
        ensures
            final(self).wf(),
            final(self).same_inputs(old(self)),
            match price {
                Some(p) => final(self).price == p && final(self).stage == Stage::AwaitBars && r
                    == Request::FetchBars,
                None => final(self).stage == Stage::Finished && final(self).outcome == Some(
                    Outcome::Failed,
                ) && r == Request::Finish(Outcome::Failed),
            },
    {
        match price {
            Some(p) => {
                self.price = p;
                self.stage = Stage::AwaitBars;
                Request::FetchBars
            },
            None => self.finish(Outcome::Failed),
        }
    }

    /// The bar series: without one the instrument fails; with fewer than 20 bars it is
    /// skipped; else the signal is computed.
    pub fn on_bars(&mut self, bars: Option<&[Bar]>) -> (r: Request)
        requires
            old(self).wf(),
            old(self).stage == Stage::AwaitBars,
        ensures
            final(self).wf(),
            final(self).same_inputs(old(self)),
            final(self).price == old(self).price,
            match bars {
                Some(b) => if b@.len() < MIN_SIGNAL_BARS {
                    final(self).stage == Stage::Finished && final(self).outcome == Some(
                        Outcome::InsufficientData,
                    ) && r == Request::Finish(Outcome::InsufficientData)
                } else {
                    &&& final(self).signal == signal_spec(
                        closes(b@),
                        old(self).sentiment as int,
                        old(self).perturbation as int,
                    )
                    &&& final(self).stage == Stage::AwaitPositions
                    &&& r == Request::FetchPositions
                },
                None => final(self).stage == Stage::Finished && final(self).outcome == Some(
                    Outcome::Failed,
                ) && r == Request::Finish(Outcome::Failed),
            },
    {
        match bars {
            Some(b) => {
                if b.len() < MIN_SIGNAL_BARS {
                    self.finish(Outcome::InsufficientData)
                } else {
                    self.signal =
                        TechnicalAnalysis::generate_signal_with_perturbation(
                        b,
                        self.sentiment,
                        self.perturbation,
                    );
                    self.stage = Stage::AwaitPositions;
                    Request::FetchPositions
                }
            },
            None => self.finish(Outcome::Failed),
        }
    }

    /// The venue's positions. Where they could not be read, an equity fails for this
    /// cycle and a crypto pair is taken as not held. Then the policy decides.
    pub fn on_positions(&mut self, positions: Option<&[Position]>) -> (r: Request)
        requires
            old(self).wf(),
            old(self).stage == Stage::AwaitPositions,
        ensures
            final(self).wf(),
            final(self).same_inputs(old(self)),
            final(self).price == old(self).price,
            final(self).signal == old(self).signal,
            positions is None && old(self).class == AssetClass::Equity ==> final(self).stage
                == Stage::Finished && final(self).outcome == Some(Outcome::Failed) && r
                == Request::Finish(Outcome::Failed),
            positions is None && old(self).class == AssetClass::Crypto ==> final(self).holding
                is None,
            positions matches Some(ps) ==> match final(self).holding {
                Some(h) => first_position_of(ps@, old(self).symbol@) matches Some(i) && reads_as(
                    h,
                    ps@[i],
                ),
                None => forall|j: int|
                    0 <= j < ps@.len() ==> #[trigger] ps@[j].symbol@ != old(self).symbol@,
            },
            positions is Some || old(self).class == AssetClass::Crypto ==> {
                &&& final(self).decision == decision_spec(
                    old(self).class,
                    old(self).signal as int,
                    entry_of(final(self).holding),
                    old(self).price as int,
                )
                &&& final(self).decision == Decision::ProfitTake ==> final(self).stage
                    == Stage::AwaitClose && r == Request::ClosePosition
                &&& final(self).decision == Decision::Sell ==> final(self).stage
                    == Stage::AwaitClose && r == Request::ClosePosition
                &&& final(self).decision == Decision::Buy ==> final(self).stage
                    == Stage::AwaitAccount && r == Request::FetchAccount
                &&& final(self).decision == Decision::Hold ==> final(self).stage
                    == Stage::Finished && final(self).outcome == Some(Outcome::Neutral) && r
                    == Request::Finish(Outcome::Neutral)
            },
    {
        let holding = match positions {
            Some(ps) => find_holding(ps, self.symbol.as_str()),
            None => {
                if self.class == AssetClass::Equity {
                    return self.finish(Outcome::Failed);
                }
                None
            },
        };
        proof {
            if positions is Some && holding is None {
                let ps = positions->0;
                assert forall|j: int| 0 <= j < ps@.len() implies #[trigger] ps@[j].symbol@
                    != self.symbol@ by {
                    if ps@[j].symbol@ == self.symbol@ {
                        assert(exists|i: int|
                            0 <= i < ps@.len() && #[trigger] ps@[i].symbol@ == self.symbol@);
                    }
                }
            }
        }
        self.holding = holding;
        let entry = match holding {
            Some(h) => Some(h.entry_price),
            None => None,
        };
        assert(as_int_option(entry) == entry_of(holding));
        self.decision = decide(self.class, self.signal, entry, self.price);
        match self.decision {
            Decision::ProfitTake => {
                self.stage = Stage::AwaitClose;
                Request::ClosePosition
            },
            Decision::Sell => {
                self.stage = Stage::AwaitClose;
                Request::ClosePosition
            },
            Decision::Buy => {
                self.stage = Stage::AwaitAccount;
                Request::FetchAccount
            },
            Decision::Hold => self.finish(Outcome::Neutral),
        }
    }

    /// The account, to size a buy: without it the instrument fails; a quantity of zero
    /// ends the pass as neutral.
    pub fn on_account(&mut self, account: Option<&Account>) -> (r: Request)
        requires
            old(self).wf(),
            old(self).stage == Stage::AwaitAccount,
        ensures
            final(self).wf(),
            final(self).same_inputs(old(self)),
            final(self).price == old(self).price,
            final(self).signal == old(self).signal,
            final(self).holding == old(self).holding,
            final(self).decision == old(self).decision,
            match account {
                Some(a) => {
                    let q = order_quantity_spec(
                        old(self).class,
                        micros_value(a.buying_power@),
                        old(self).price as int,
                    );
                    &&& final(self).quantity == q
                    &&& q == 0 ==> final(self).stage == Stage::Finished && final(self).outcome
                        == Some(Outcome::Neutral) && r == Request::Finish(Outcome::Neutral)
                    &&& q > 0 ==> final(self).stage == Stage::AwaitOrder && r
                        == Request::PlaceOrder(q as u64)
                },
                None => final(self).stage == Stage::Finished && final(self).outcome == Some(
                    Outcome::Failed,
                ) && r == Request::Finish(Outcome::Failed),
            },
    {
        match account {
            Some(a) => {
                let buying_power = micros_or_zero(a.buying_power.as_str());
                let q = order_quantity(self.class, buying_power, self.price);
                self.quantity = q;
                if q == 0 {
                    self.finish(Outcome::Neutral)
                } else {
                    self.stage = Stage::AwaitOrder;
                    Request::PlaceOrder(q)
                }
            },
            None => self.finish(Outcome::Failed),
        }
    }

    /// Whether the venue accepted the buy order.
    pub fn on_order(&mut self, accepted: bool) -> (r: Request)
        requires
            old(self).wf(),
            old(self).stage == Stage::AwaitOrder,
        ensures
            final(self).wf(),
            final(self).same_inputs(old(self)),
            final(self).price == old(self).price,
            final(self).quantity == old(self).quantity,
            final(self).holding == old(self).holding,
            final(self).decision == old(self).decision,
            final(self).stage == Stage::Finished,
            accepted ==> final(self).outcome == Some(Outcome::Bought) && r == Request::Finish(
                Outcome::Bought,
            ),
            !accepted ==> final(self).outcome == Some(Outcome::Failed) && r == Request::Finish(
                Outcome::Failed,
            ),
    {
        if accepted {
            self.finish(Outcome::Bought)
        } else {
            self.finish(Outcome::Failed)
        }
    }

    /// Whether the venue closed the position.
    pub fn on_close(&mut self, closed: bool) -> (r: Request)
        requires
            old(self).wf(),
            old(self).stage == Stage::AwaitClose,
        ensures
            final(self).wf(),
            final(self).same_inputs(old(self)),
            final(self).price == old(self).price,
            final(self).holding == old(self).holding,
            final(self).decision == old(self).decision,
            final(self).stage == Stage::Finished,
            closed && old(self).decision == Decision::ProfitTake ==> final(self).outcome == Some(
                Outcome::ProfitTaken,
            ) && r == Request::Finish(Outcome::ProfitTaken),
            closed && old(self).decision != Decision::ProfitTake ==> final(self).outcome == Some(
                Outcome::Sold,
            ) && r == Request::Finish(Outcome::Sold),
            !closed ==> final(self).outcome == Some(Outcome::Failed) && r == Request::Finish(
                Outcome::Failed,
            ),
    {
        if !closed {
            self.finish(Outcome::Failed)
        } else if self.decision == Decision::ProfitTake {
            self.finish(Outcome::ProfitTaken)
        } else {
            self.finish(Outcome::Sold)
        }
    }

    /// The trade that a successful pass executed: a buy of the ordered quantity at the
    /// current price, or a sale of the holding at the current price with its P&L.
    pub fn trade_record(&self) -> (r: Option<TradeRecord>)
        requires
            self.wf(),
        ensures
            match self.outcome {
                Some(Outcome::Bought) => r matches Some(t) && t.action == TradeAction::Buy
                    && t.symbol@ == self.symbol@ && t.price == self.price && t.pnl == 0
                    && t.quantity == (if self.class == AssetClass::Equity {
                    self.quantity * MICROS
                } else {
                    self.quantity as int
                }),
                Some(Outcome::Sold) | Some(Outcome::ProfitTaken) => match self.holding {
                    Some(h) => r matches Some(t) && t.action == TradeAction::Sell && t.symbol@
                        == self.symbol@ && t.price == self.price && t.quantity == h.quantity
                        && t.pnl == h.unrealized_pnl,
                    None => r is None,
                },
                _ => r is None,
            },
    {
        match self.outcome {
            Some(Outcome::Bought) => {
                let quantity: i64 = if self.class == AssetClass::Equity {
                    (self.quantity * MICROS) as i64
                } else {
                    self.quantity as i64
                };
                Some(TradeRecord::new(self.symbol.as_str(), TradeAction::Buy, quantity, self.price, 0))
            },
            Some(Outcome::Sold) | Some(Outcome::ProfitTaken) => match self.holding {
                Some(h) => Some(
                    TradeRecord::new(
                        self.symbol.as_str(),
                        TradeAction::Sell,
                        h.quantity,
                        self.price,
                        h.unrealized_pnl,
                    ),
                ),
                None => None,
            },
            _ => None,
        }
    }
}

/// What a cycle came to: passes that ended without failure (`analyzed`), broken down
/// by outcome, and failures.
#[derive(Clone, Copy, Debug, PartialEq, Eq, Structural)]
pub struct CycleTally {
    pub analyzed: usize,
    pub buys: usize,
    pub sells: usize,
    pub profit_takes: usize,
    pub neutrals: usize,
    pub skipped: usize,
    pub failed: usize,
}

/// The tally with one more outcome counted.
pub open spec fn tally_add(t: CycleTally, o: Outcome) -> CycleTally {
    match o {
        Outcome::Bought => CycleTally { analyzed: (t.analyzed + 1) as usize, buys: (t.buys + 1) as usize, ..t },
        Outcome::Sold => CycleTally { analyzed: (t.analyzed + 1) as usize, sells: (t.sells + 1) as usize, ..t },
        Outcome::ProfitTaken => CycleTally {
            analyzed: (t.analyzed + 1) as usize,
            profit_takes: (t.profit_takes + 1) as usize,
            ..t
        },
        Outcome::Neutral => CycleTally {
            analyzed: (t.analyzed + 1) as usize,
            neutrals: (t.neutrals + 1) as usize,
            ..t
        },
        Outcome::InsufficientData => CycleTally {
            analyzed: (t.analyzed + 1) as usize,
            skipped: (t.skipped + 1) as usize,
            ..t
        },
        Outcome::Failed => CycleTally { failed: (t.failed + 1) as usize, ..t },
    }
}

pub open spec fn tally_wf(t: CycleTally, n: int) -> bool {
    &&& t.analyzed + t.failed == n
    &&& t.buys + t.sells + t.profit_takes + t.neutrals + t.skipped == t.analyzed
}

/// The instrument universe of a class under a mode.
pub open spec fn universe(mode: TradingMode, class: AssetClass) -> Seq<Seq<char>> {
    match class {
        AssetClass::Equity => stock_universe(mode),
        AssetClass::Crypto => crypto_universe(mode),
    }
}

/// One sequential pass over an instrument universe. The symbol list is read once, when
/// the cycle starts; a later change of mode does not reach it.
pub struct Cycle {
    class: AssetClass,
    symbols: Vec<String>,
    next: usize,
    tally: CycleTally,
}

impl Cycle {
    pub closed spec fn class(&self) -> AssetClass {
        self.class
    }

    /// The texts of the symbols, in processing order.
    pub closed spec fn symbols(&self) -> Seq<Seq<char>> {
        self.symbols@.map_values(|s: String| s@)
    }

    /// How many symbols have been processed.
    pub closed spec fn done(&self) -> int {
        self.next as int
    }

    pub closed spec fn tally(&self) -> CycleTally {
        self.tally
    }

    pub closed spec fn wf(&self) -> bool {
        &&& self.next <= self.symbols@.len()
        &&& tally_wf(self.tally, self.next as int)
    }

    /// Starts a cycle over the universe of `class` under `mode`.
    pub fn start(class: AssetClass, mode: TradingMode) -> (r: Cycle)
        ensures
            r.wf(),
            r.class() == class,
            r.symbols() == universe(mode, class),
            r.done() == 0,
            tally_wf(r.tally(), 0),
            r.tally() == (CycleTally {
                analyzed: 0,
                buys: 0,
                sells: 0,
                profit_takes: 0,
                neutrals: 0,
                skipped: 0,
                failed: 0,
            }),
    {
        let list = match class {
            AssetClass::Equity => mode.get_stocks(),
            AssetClass::Crypto => mode.get_crypto(),
        };
        let mut symbols: Vec<String> = Vec::new();
        let mut i: usize = 0;
        while i < list.len()
            invariant
                i <= list@.len(),
                symbols@.len() == i,
                forall|j: int| 0 <= j < i ==> #[trigger] symbols@[j]@ == list@[j]@,
            decreases list@.len() - i,
        {
            symbols.push(list[i].to_owned());
            i = i + 1;
        }
        let r = Cycle {
            class,
            symbols,
            next: 0,
            tally: CycleTally {
                analyzed: 0,
                buys: 0,
                sells: 0,
                profit_takes: 0,
                neutrals: 0,
                skipped: 0,
                failed: 0,
            },
        };
        assert(r.symbols() =~= crate::settings::symbol_texts(list@));
        r
    }

    /// The symbol to process next, if any remains.
    pub fn pending(&self) -> (r: Option<String>)
        requires
            self.wf(),
        ensures
            self.done() < self.symbols().len() ==> (r matches Some(s) && s@ == self.symbols()[self.done()]),
            self.done() >= self.symbols().len() ==> r is None,
    {
        assert(self.symbols().len() == self.symbols@.len());
        if self.next < self.symbols.len() {
            Some(self.symbols[self.next].clone())
        } else {
            None
        }
    }

    /// Counts the outcome of the pending symbol and moves to the next one.
    pub fn complete(&mut self, outcome: Outcome)
        requires
            old(self).wf(),
            old(self).done() < old(self).symbols().len(),
        ensures
            final(self).wf(),
            final(self).class() == old(self).class(),
            final(self).symbols() == old(self).symbols(),
            final(self).done() == old(self).done() + 1,
            final(self).done() <= final(self).symbols().len(),
            final(self).tally() == tally_add(old(self).tally(), outcome),
            tally_wf(final(self).tally(), final(self).done()),
    {
        assert(self.symbols().len() == self.symbols@.len());
        let n = self.symbols.len();
        assert(self.next < n);
        let t = self.tally;
        self.tally = match outcome {
            Outcome::Bought => CycleTally { analyzed: t.analyzed + 1, buys: t.buys + 1, ..t },
            Outcome::Sold => CycleTally { analyzed: t.analyzed + 1, sells: t.sells + 1, ..t },
            Outcome::ProfitTaken => CycleTally {
                analyzed: t.analyzed + 1,
                profit_takes: t.profit_takes + 1,
                ..t
            },
            Outcome::Neutral => CycleTally { analyzed: t.analyzed + 1, neutrals: t.neutrals + 1, ..t },
            Outcome::InsufficientData => CycleTally {
                analyzed: t.analyzed + 1,
                skipped: t.skipped + 1,
                ..t
            },
            Outcome::Failed => CycleTally { failed: t.failed + 1, ..t },
        };
        self.next = self.next + 1;
    }

    /// Whether every symbol has been processed.
    pub fn is_finished(&self) -> (r: bool)
        requires
            self.wf(),
        ensures
            r == (self.done() == self.symbols().len()),
    {
        assert(self.symbols().len() == self.symbols@.len());
        self.next == self.symbols.len()
    }

    pub fn class_of(&self) -> (r: AssetClass)
        ensures
            r == self.class(),
    {
        self.class
    }

    pub fn get_tally(&self) -> (r: CycleTally)
        ensures
            r == self.tally(),
    {
        self.tally
    }
}

} // verus!
