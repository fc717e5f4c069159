use crate::indicators::SIGNAL_BOUND;
use dashmap::DashMap;
use vstd::prelude::*;

verus! {

#[verifier::external_type_specification]
#[verifier::external_body]
#[verifier::reject_recursive_types(K)]
#[verifier::reject_recursive_types(V)]
#[verifier::reject_recursive_types(S)]
pub struct ExDashMap<K, V, S>(DashMap<K, V, S>);

/// The map behind the sentiment cache.
pub type ScoreMap = DashMap<String, i64>;

/// What a sentiment map holds: symbol text to score (basis points).
pub uninterp spec fn sentiment_entries(m: ScoreMap) -> Map<Seq<char>, i64>;

/// Relies on `DashMap::new`: a new map holds nothing.
#[verifier::external_body]
fn map_new() -> (r: ScoreMap)
    ensures
        sentiment_entries(r).dom() == Set::<Seq<char>>::empty(),
{
    DashMap::new()
}

/// Relies on `DashMap::insert`: afterwards the key maps to the value, other keys are
/// unchanged (keys compare as `String`, by their text).
#[verifier::external_body]
fn map_insert(m: &mut ScoreMap, key: String, value: i64)
    ensures
        sentiment_entries(*final(m)) == sentiment_entries(*old(m)).insert(key@, value),
{
    m.insert(key, value);
}

/// Relies on `DashMap::get`: the value stored under the key, if any.
#[verifier::external_body]
fn map_get(m: &ScoreMap, key: &str) -> (r: Option<i64>)
    ensures
        r == (if sentiment_entries(*m).contains_key(key@) {
            Some(sentiment_entries(*m)[key@])
        } else {
            None
        }),
{
    m.get(key).map(|v| *v)
}

/// `m` with each of `symbols` given the score `v`.
pub open spec fn with_score(m: Map<Seq<char>, i64>, symbols: Seq<String>, v: i64) -> Map<Seq<char>, i64>
    decreases symbols.len(),
{
    if symbols.len() == 0 {
        m
    } else {
        with_score(m, symbols.drop_last(), v).insert(symbols.last()@, v)
    }
}

/// A score limited to [-1, 1] (basis points).
pub open spec fn clamp_score(v: int) -> int {
    if v > SIGNAL_BOUND {
        SIGNAL_BOUND as int
    } else if v < -SIGNAL_BOUND {
        -SIGNAL_BOUND
    } else {
        v
    }
}

/// The latest sentiment score per symbol. Readers get a neutral 0 for a symbol with no
/// score yet.
pub struct SentimentCache {
    entries: ScoreMap,
}

impl View for SentimentCache {
    type V = Map<Seq<char>, i64>;

    closed spec fn view(&self) -> Map<Seq<char>, i64> {
        sentiment_entries(self.entries)
    }
}

impl SentimentCache {
    pub fn new() -> (r: SentimentCache)
        ensures
            r@ == Map::<Seq<char>, i64>::empty(),
    {
        let entries = map_new();
        assert(sentiment_entries(entries) =~= Map::<Seq<char>, i64>::empty());
        SentimentCache { entries }
    }

    /// Records the latest score of `symbol`.
    pub fn update(&mut self, symbol: &str, score: i64)
        ensures
            final(self)@ == old(self)@.insert(symbol@, score),
    {
        map_insert(&mut self.entries, symbol.to_owned(), score);
    }

    /// Records one score for every symbol a news item mentions.
    pub fn update_all(&mut self, symbols: &[String], score: i64)
        ensures
            final(self)@ == with_score(old(self)@, symbols@, score),
    {
        let ghost start = self@;
        let mut i: usize = 0;
        while i < symbols.len()
            invariant
                i <= symbols@.len(),
                self@ == with_score(start, symbols@.take(i as int), score),
            decreases symbols@.len() - i,
        {
            assert(symbols@.take(i + 1).drop_last() =~= symbols@.take(i as int));
            self.update(symbols[i].as_str(), score);
            i = i + 1;
        }
        assert(symbols@.take(i as int) =~= symbols@);
    }

    /// The score of `symbol` limited to [-1, 1], or 0 where none was recorded.
    pub fn get_sentiment(&self, symbol: &str) -> (r: i64)
        ensures
            self@.contains_key(symbol@) ==> r == clamp_score(self@[symbol@] as int),
            !self@.contains_key(symbol@) ==> r == 0,
            -SIGNAL_BOUND <= r <= SIGNAL_BOUND,
    {
        match map_get(&self.entries, symbol) {
            Some(v) => {
                if v > SIGNAL_BOUND {
                    SIGNAL_BOUND
                } else if v < -SIGNAL_BOUND {
                    -SIGNAL_BOUND
                } else {
                    v
                }
            },
            None => 0,
        }
    }
}

/// The mean of the article scores, truncated toward zero and limited to [-1, 1];
/// neutral without articles.
pub open spec fn average_score_spec(scores: Seq<i64>) -> int {
    if scores.len() == 0 {
        0
    } else {
        let total = score_sum(scores, scores.len() as int);
        clamp_score(
            if total >= 0 {
                total / scores.len() as int
            } else {
                -((-total) / scores.len() as int)
            },
        )
    }
}

/// Sum of the first `n` scores.
pub open spec fn score_sum(scores: Seq<i64>, n: int) -> int
    decreases n,
{
    if n <= 0 {
        0
    } else {
        score_sum(scores, n - 1) + scores[n - 1]
    }
}

/// The mean sentiment of recent articles (basis points), limited to [-1, 1].
pub fn average_sentiment(scores: &[i64]) -> (r: i64)
    ensures
        r == average_score_spec(scores@),
        -SIGNAL_BOUND <= r <= SIGNAL_BOUND,
{
    let n = scores.len();
    if n == 0 {
        return 0;
    }
    let mut total: i128 = 0;
    let mut i: usize = 0;
    while i < n
        invariant
            n == scores@.len(),
            i <= n,
            total == score_sum(scores@, i as int),
            -(i as int) * 0x8000_0000_0000_0000 <= total <= (i as int) * 0x8000_0000_0000_0000,
        decreases n - i,
    {
        total = total + scores[i] as i128;
        i = i + 1;
    }
    let m: i128 = if total >= 0 {
        ((total as u128) / (n as u128)) as i128
    } else {
        -((((-total) as u128) / (n as u128)) as i128)
    };
    if m > SIGNAL_BOUND as i128 {
        SIGNAL_BOUND
    } else if m < -SIGNAL_BOUND as i128 {
        -SIGNAL_BOUND
    } else {
        m as i64
    }
}

} // verus!
