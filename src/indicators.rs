use crate::clock::random_u64;
use crate::market::{closes, Bar};
use vstd::arithmetic::div_mod::{lemma_div_is_ordered_by_denominator, lemma_fundamental_div_mod_converse};
use vstd::prelude::*;

verus! {

/// Sum of `c[lo..hi]`.
pub open spec fn sum_range(c: Seq<int>, lo: int, hi: int) -> int
    decreases hi - lo,
{
    if hi <= lo {
        0
    } else {
        sum_range(c, lo, hi - 1) + c[hi - 1]
    }
}

/// Sum of the rises `c[i] - c[i - 1]` for `i` in `lo..hi` (falls count as zero).
pub open spec fn gain_sum(c: Seq<int>, lo: int, hi: int) -> int
    decreases hi - lo,
{
    if hi <= lo {
        0
    } else {
        gain_sum(c, lo, hi - 1) + if c[hi - 1] > c[hi - 2] {
            c[hi - 1] - c[hi - 2]
        } else {
            0
        }
    }
}

/// Sum of the falls `c[i - 1] - c[i]` for `i` in `lo..hi` (rises count as zero).
pub open spec fn loss_sum(c: Seq<int>, lo: int, hi: int) -> int
    decreases hi - lo,
{
    if hi <= lo {
        0
    } else {
        loss_sum(c, lo, hi - 1) + if c[hi - 1] < c[hi - 2] {
            c[hi - 2] - c[hi - 1]
        } else {
            0
        }
    }
}

/// RSI over the last `period` price changes, in hundredths of a point (0..=10000):
/// `100 * G / (G + L)` with `G`, `L` the summed gains and losses, and 100 where there
/// is no loss.
pub open spec fn rsi_spec(c: Seq<int>, period: int) -> Option<int> {
    if period == 0 || c.len() < period + 1 {
        None
    } else {
        let g = gain_sum(c, c.len() - period, c.len() as int);
        let l = loss_sum(c, c.len() - period, c.len() as int);
        if l == 0 {
            Some(10000)
        } else {
            Some(10000 * g / (g + l))
        }
    }
}

/// The mean of the last `period` closes, truncated to a whole micro-unit.
pub open spec fn sma_spec(c: Seq<int>, period: int) -> Option<int> {
    if period == 0 || c.len() < period {
        None
    } else {
        Some(sum_range(c, c.len() - period, c.len() as int) / period)
    }
}

/// One smoothing step: move `e` toward `x` by `2 / (period + 1)` of the gap, truncated.
pub open spec fn ema_step(e: int, x: int, period: int) -> int {
    if x >= e {
        e + (x - e) * 2 / (period + 1)
    } else {
        e - (e - x) * 2 / (period + 1)
    }
}

/// Smoothing `e` through `c[lo..hi]`.
pub open spec fn ema_fold(c: Seq<int>, period: int, e: int, lo: int, hi: int) -> int
    decreases hi - lo,
{
    if hi <= lo {
        e
    } else {
        ema_step(ema_fold(c, period, e, lo, hi - 1), c[hi - 1], period)
    }
}

/// EMA: seeded with the mean of the last `period` closes, then smoothed through the
/// last `period - 1` closes.
pub open spec fn ema_spec(c: Seq<int>, period: int) -> Option<int> {
    if period == 0 || c.len() < period {
        None
    } else {
        let seed = sum_range(c, c.len() - period, c.len() as int) / period;
        Some(ema_fold(c, period, seed, c.len() - period + 1, c.len() as int))
    }
}

/// Bars needed before any signal is computed.
pub const MIN_SIGNAL_BARS: usize = 20;

/// Signal terms, in basis points.
pub const RSI_TERM: i64 = 3000;
pub const CROSSOVER_TERM: i64 = 2000;
pub const MOMENTUM_CAP: i64 = 3000;
pub const SIGNAL_BOUND: i64 = 10000;
pub const PERTURBATION_BOUND: i64 = 1250;

/// +0.3 where RSI(14) is below 30, -0.3 where it is above 70 (or there is no loss).
pub open spec fn rsi_term(c: Seq<int>) -> int {
    if c.len() < 15 {
        0
    } else {
        let g = gain_sum(c, c.len() - 14, c.len() as int);
        let l = loss_sum(c, c.len() - 14, c.len() as int);
        if l > 0 && 7 * g < 3 * l {
            RSI_TERM as int
        } else if l == 0 || 3 * g > 7 * l {
            -RSI_TERM
        } else {
            0
        }
    }
}

/// +0.2 where SMA(20) exceeds SMA(50), else -0.2; nothing under 50 bars.
pub open spec fn crossover_term(c: Seq<int>) -> int {
    if c.len() < 50 {
        0
    } else if 5 * sum_range(c, c.len() - 20, c.len() as int) > 2 * sum_range(
        c,
        c.len() - 50,
        c.len() as int,
    ) {
        CROSSOVER_TERM as int
    } else {
        -CROSSOVER_TERM
    }
}

/// The relative change over the last ten closes, truncated toward zero and clamped to
/// [-0.3, 0.3]. A reference close of zero counts as an unbounded rise when the last
/// close is positive, and as no change otherwise.
pub open spec fn momentum_term(c: Seq<int>) -> int {
    if c.len() < 10 {
        0
    } else {
        let last = c[c.len() - 1];
        let reference = c[c.len() - 10];
        if reference == 0 {
            if last > 0 {
                MOMENTUM_CAP as int
            } else {
                0
            }
        } else if last >= reference {
            let m = 10000 * (last - reference) / reference;
            if m > MOMENTUM_CAP {
                MOMENTUM_CAP as int
            } else {
                m
            }
        } else {
            let m = 10000 * (reference - last) / reference;
            if m > MOMENTUM_CAP {
                -MOMENTUM_CAP
            } else {
                -m
            }
        }
    }
}

/// A fifth of the sentiment, truncated toward zero.
pub open spec fn sentiment_term(s: int) -> int {
    if s >= 0 {
        s / 5
    } else {
        -((-s) / 5)
    }
}

pub open spec fn clamp_signal(x: int) -> int {
    if x > SIGNAL_BOUND {
        SIGNAL_BOUND as int
    } else if x < -SIGNAL_BOUND {
        -SIGNAL_BOUND
    } else {
        x
    }
}

/// The composite signal of a close series and a sentiment, with an added perturbation:
/// neutral under 20 bars, else the clamped sum of the terms.
pub open spec fn signal_spec(c: Seq<int>, sentiment: int, perturbation: int) -> int {
    if c.len() < MIN_SIGNAL_BARS {
        0
    } else {
        clamp_signal(
            rsi_term(c) + crossover_term(c) + momentum_term(c) + sentiment_term(sentiment)
                + perturbation,
        )
    }
}

/// `floor(g * m / t)` and its remainder, for `g <= t`, by binary long division: no
/// intermediate value exceeds `2 * t`, which is kept below 2^128 by subtracting first.
fn scaled_quotient(g: u128, m: u64, t: u128) -> (r: (u64, u128))
    requires
        0 < t,
        g <= t,
        m <= u32::MAX,
    ensures
        r.0 * t + r.1 == g * m,
        r.1 < t,
        r.0 <= m,
    decreases m,
{
    if m == 0 {
        return (0, 0);
    }
    let (q, rem) = scaled_quotient(g, m / 2, t);
    let ghost h = (m / 2) as int;
    assert(2 * q <= m);
    let mut q2: u64;
    let mut r2: u128;
    if rem >= t - rem {
        q2 = 2 * q + 1;
        r2 = rem - (t - rem);
    } else {
        q2 = 2 * q;
        r2 = 2 * rem;
    }
    assert(q2 * t + r2 == 2 * (g * h)) by (nonlinear_arith)
        requires
            q * t + rem == g * h,
            (q2 == 2 * q + 1 && r2 == 2 * rem - t) || (q2 == 2 * q && r2 == 2 * rem),
    ;
    let ghost qa = q2 as int;
    assert(qa * t == q2 * t);
    if m % 2 == 1 {
        if r2 >= t - g {
            q2 = q2 + 1;
            r2 = r2 - (t - g);
            assert(q2 * t == qa * t + t) by (nonlinear_arith)
                requires
                    q2 == qa + 1,
            ;
        } else {
            r2 = r2 + g;
        }
        assert(g * m == 2 * (g * h) + g) by (nonlinear_arith)
            requires
                m == 2 * h + 1,
        ;
    } else {
        assert(g * m == 2 * (g * h)) by (nonlinear_arith)
            requires
                m == 2 * h,
        ;
    }
    assert(q2 <= m) by (nonlinear_arith)
        requires
            q2 * t + r2 == g * m,
            r2 >= 0,
            g <= t,
            t > 0,
            m >= 0,
    ;
    (q2, r2)
}

proof fn lemma_closes_index(bars: Seq<Bar>, i: int)
    requires
        0 <= i < bars.len(),
    ensures
        closes(bars).len() == bars.len(),
        closes(bars)[i] == bars[i].c as int,
{
}

proof fn lemma_ema_step_between(e: int, x: int, period: int)
    requires
        period >= 1,
    ensures
        x >= e ==> e <= ema_step(e, x, period) <= x,
        x < e ==> x <= ema_step(e, x, period) <= e,
{
    let a = if x >= e {
        x - e
    } else {
        e - x
    };
    lemma_div_is_ordered_by_denominator(a * 2, 2, period + 1);
    assert((a * 2) / 2 == a);
    assert(a * 2 / (period + 1) >= 0) by (nonlinear_arith)
        requires
            a >= 0,
            period + 1 >= 1,
    ;
}

/// Technical indicators over a bar series, and the composite trading signal.
pub struct TechnicalAnalysis;

impl TechnicalAnalysis {
    /// RSI over the trailing `period` changes, in hundredths of a point; `None` with
    /// fewer than `period + 1` bars or a zero period.
    pub fn calculate_rsi(bars: &[Bar], period: usize) -> (r: Option<u64>)
        ensures
            r matches Some(v) ==> rsi_spec(closes(bars@), period as int) == Some(v as int),
            r is None ==> rsi_spec(closes(bars@), period as int) is None,
    {
        let n = bars.len();
        if period == 0 || n <= period {
            return None;
        }
        let (g, l) = Self::gains_and_losses(bars, n - period);
        if l == 0 {
            return Some(10000);
        }
        let t = g + l;
        let (q, rem) = scaled_quotient(g, 10000, t);
        proof {
            lemma_fundamental_div_mod_converse(10000 * g as int, t as int, q as int, rem as int);
        }
        Some(q)
    }

    /// Summed gains and losses of the closes over the changes at `lo..bars.len()`.
    fn gains_and_losses(bars: &[Bar], lo: usize) -> (r: (u128, u128))
        requires
            1 <= lo <= bars@.len(),
        ensures
            r.0 == gain_sum(closes(bars@), lo as int, bars@.len() as int),
            r.1 == loss_sum(closes(bars@), lo as int, bars@.len() as int),
            r.0 + r.1 <= (bars@.len() - lo) * u64::MAX,
    {
        let ghost c = closes(bars@);
        let mut g: u128 = 0;
        let mut l: u128 = 0;
        let mut i: usize = lo;
        while i < bars.len()
            invariant
                1 <= lo <= i <= bars@.len(),
                c == closes(bars@),
                g == gain_sum(c, lo as int, i as int),
                l == loss_sum(c, lo as int, i as int),
                g + l <= (i - lo) * u64::MAX,
            decreases bars@.len() - i,
        {
            proof {
                lemma_closes_index(bars@, i as int);
                lemma_closes_index(bars@, i - 1);
            }
            let cur = bars[i].c;
            let prev = bars[i - 1].c;
            if cur > prev {
                g = g + (cur - prev) as u128;
            } else if cur < prev {
                l = l + (prev - cur) as u128;
            }
            i = i + 1;
        }
        (g, l)
    }

    /// Sum of the closes of `bars[lo..]`.
    fn close_sum(bars: &[Bar], lo: usize) -> (r: u128)
        requires
            lo <= bars@.len(),
        ensures
            r == sum_range(closes(bars@), lo as int, bars@.len() as int),
            r <= (bars@.len() - lo) * u64::MAX,
    {
        let ghost c = closes(bars@);
        let mut s: u128 = 0;
        let mut i: usize = lo;
        while i < bars.len()
            invariant
                lo <= i <= bars@.len(),
                c == closes(bars@),
                s == sum_range(c, lo as int, i as int),
                s <= (i - lo) * u64::MAX,
            decreases bars@.len() - i,
        {
            proof {
                lemma_closes_index(bars@, i as int);
            }
            s = s + bars[i].c as u128;
            i = i + 1;
        }
        s
    }

    /// Simple moving average of the last `period` closes; `None` with fewer bars or a
    /// zero period.
    pub fn calculate_sma(bars: &[Bar], period: usize) -> (r: Option<u64>)
        ensures
            r matches Some(v) ==> sma_spec(closes(bars@), period as int) == Some(v as int),
            r is None ==> sma_spec(closes(bars@), period as int) is None,
    {
        if period == 0 || bars.len() < period {
            return None;
        }
        let s = Self::close_sum(bars, bars.len() - period);
        let v = s / period as u128;
        assert(v <= u64::MAX) by (nonlinear_arith)
            requires
                v as int == s as int / period as int,
                s <= period * u64::MAX,
                period >= 1,
        ;
        Some(v as u64)
    }

    /// Exponential moving average; `None` with fewer than `period` bars or a zero period.
    pub fn calculate_ema(bars: &[Bar], period: usize) -> (r: Option<u64>)
        ensures
            r matches Some(v) ==> ema_spec(closes(bars@), period as int) == Some(v as int),
            r is None ==> ema_spec(closes(bars@), period as int) is None,
    {
        let n = bars.len();
        let ghost c = closes(bars@);
        if period == 0 || n < period {
            return None;
        }
        let seed = match Self::calculate_sma(bars, period) {
            Some(v) => v,
            None => 0,
        };
        let p = period as u128;
        let mut e: u64 = seed;
        let mut i: usize = n - period + 1;
        while i < n
            invariant
                n - period + 1 <= i,
                i <= n || i == n - period + 1,
                n == bars@.len(),
                period >= 1,
                p == period,
                c == closes(bars@),
                e == ema_fold(c, period as int, seed as int, n - period + 1, i as int),
                sma_spec(c, period as int) == Some(seed as int),
            decreases n - i,
        {
            proof {
                lemma_closes_index(bars@, i as int);
                lemma_ema_step_between(e as int, c[i as int], period as int);
            }
            let x = bars[i].c;
            if x >= e {
                let d = ((x - e) as u128 * 2) / (p + 1);
                e = e + d as u64;
            } else {
                let d = ((e - x) as u128 * 2) / (p + 1);
                e = e - d as u64;
            }
            i = i + 1;
        }
        Some(e)
    }

    /// The composite signal in basis points, without perturbation: neutral under 20
    /// bars, else the clamped sum of the RSI, crossover, momentum and sentiment terms.
    pub fn generate_signal(bars: &[Bar], sentiment: i64) -> (r: i64)
        requires
            -SIGNAL_BOUND <= sentiment <= SIGNAL_BOUND,
        ensures
            r == signal_spec(closes(bars@), sentiment as int, 0),
            -SIGNAL_BOUND <= r <= SIGNAL_BOUND,
    {
        Self::generate_signal_with_perturbation(bars, sentiment, 0)
    }

    /// The composite signal with an added perturbation, clamped to [-1, 1].
    pub fn generate_signal_with_perturbation(bars: &[Bar], sentiment: i64, perturbation: i64) -> (r:
        i64)
        requires
            -SIGNAL_BOUND <= sentiment <= SIGNAL_BOUND,
            -PERTURBATION_BOUND <= perturbation <= PERTURBATION_BOUND,
        ensures
            r == signal_spec(closes(bars@), sentiment as int, perturbation as int),
            -SIGNAL_BOUND <= r <= SIGNAL_BOUND,
    {
        let n = bars.len();
        let ghost c = closes(bars@);
        if n < MIN_SIGNAL_BARS {
            return 0;
        }
        let mut score: i64 = 0;
        let (g, l) = Self::gains_and_losses(bars, n - 14);
        if l > 0 && 7 * g < 3 * l {
            score = RSI_TERM;
        } else if l == 0 || 3 * g > 7 * l {
            score = -RSI_TERM;
        }
        assert(score == rsi_term(c));
        if n >= 50 {
            let s20 = Self::close_sum(bars, n - 20);
            let s50 = Self::close_sum(bars, n - 50);
            if 5 * s20 > 2 * s50 {
                score = score + CROSSOVER_TERM;
            } else {
                score = score - CROSSOVER_TERM;
            }
        }
        let momentum = Self::momentum(bars);
        score = score + momentum;
        let st: i64 = if sentiment >= 0 {
            sentiment / 5
        } else {
            -((-sentiment) / 5)
        };
        score = score + st + perturbation;
        if score > SIGNAL_BOUND {
            SIGNAL_BOUND
        } else if score < -SIGNAL_BOUND {
            -SIGNAL_BOUND
        } else {
            score
        }
    }

    fn momentum(bars: &[Bar]) -> (r: i64)
        requires
            bars@.len() >= 10,
        ensures
            r == momentum_term(closes(bars@)),
            -MOMENTUM_CAP <= r <= MOMENTUM_CAP,
    {
        let n = bars.len();
        proof {
            lemma_closes_index(bars@, n - 1);
            lemma_closes_index(bars@, n - 10);
        }
        let last = bars[n - 1].c;
        let reference = bars[n - 10].c;
        if reference == 0 {
            if last > 0 {
                MOMENTUM_CAP
            } else {
                0
            }
        } else if last >= reference {
            let m = 10000 * (last - reference) as u128 / reference as u128;
            if m > MOMENTUM_CAP as u128 {
                MOMENTUM_CAP
            } else {
                m as i64
            }
        } else {
            let m = 10000 * (reference - last) as u128 / reference as u128;
            if m > MOMENTUM_CAP as u128 {
                -MOMENTUM_CAP
            } else {
                -(m as i64)
            }
        }
    }

    /// A random perturbation in [-0.125, 0.125] (basis points).
    pub fn draw_perturbation() -> (r: i64)
        ensures
            -PERTURBATION_BOUND <= r <= PERTURBATION_BOUND,
    {
        Self::perturbation_from_draw(random_u64())
    }

    /// The perturbation a uniform draw stands for: one of the 2501 values from -0.125 to
    /// 0.125 (basis points), chosen by the draw modulo 2501.
    pub fn perturbation_from_draw(x: u64) -> (r: i64)
        ensures
            r == (x % 2501) as int - PERTURBATION_BOUND,
            -PERTURBATION_BOUND <= r <= PERTURBATION_BOUND,
    {
        (x % 2501) as i64 - PERTURBATION_BOUND
    }
}

/// A series of fewer than 20 bars yields the neutral signal, whatever the sentiment
/// and perturbation.
pub proof fn lemma_short_series_is_neutral(c: Seq<int>, sentiment: int, perturbation: int)
    requires
        c.len() < MIN_SIGNAL_BARS,
    ensures
        signal_spec(c, sentiment, perturbation) == 0,
{
}

proof fn lemma_no_losses(c: Seq<int>, lo: int, hi: int)
    requires
        1 <= lo,
        hi <= c.len(),
        forall|i: int| 1 <= i < c.len() ==> #[trigger] c[i] > c[i - 1],
    ensures
        loss_sum(c, lo, hi) == 0,
    decreases hi - lo,
{
    if hi > lo {
        lemma_no_losses(c, lo, hi - 1);
        assert(c[hi - 1] > c[hi - 2]);
    }
}

/// RSI over a strictly rising series, which has no losses, is 100.
pub proof fn lemma_rising_series_rsi_is_100(c: Seq<int>, period: int)
    requires
        period >= 1,
        c.len() >= period + 1,
        forall|i: int| 1 <= i < c.len() ==> #[trigger] c[i] > c[i - 1],
    ensures
        rsi_spec(c, period) == Some(10000int),
{
    lemma_no_losses(c, c.len() - period, c.len() as int);
}

proof fn lemma_constant_sum(c: Seq<int>, k: int, lo: int, hi: int)
    requires
        0 <= lo <= hi <= c.len(),
        forall|i: int| 0 <= i < c.len() ==> #[trigger] c[i] == k,
    ensures
        sum_range(c, lo, hi) == (hi - lo) * k,
    decreases hi - lo,
{
    if hi > lo {
        lemma_constant_sum(c, k, lo, hi - 1);
        assert(c[hi - 1] == k);
        assert(sum_range(c, lo, hi) == sum_range(c, lo, hi - 1) + c[hi - 1]);
        assert((hi - 1 - lo) * k + k == (hi - lo) * k) by (nonlinear_arith);
    } else {
        assert((hi - lo) * k == 0) by (nonlinear_arith)
            requires
                hi == lo,
        ;
    }
}

/// SMA of a constant series is that constant.
pub proof fn lemma_constant_series_sma(c: Seq<int>, k: int, period: int)
    requires
        period >= 1,
        c.len() >= period,
        forall|i: int| 0 <= i < c.len() ==> #[trigger] c[i] == k,
    ensures
        sma_spec(c, period) == Some(k),
{
    lemma_constant_sum(c, k, c.len() - period, c.len() as int);
    assert(period * k / period == k) by (nonlinear_arith)
        requires
            period >= 1,
    ;
}

} // verus!
