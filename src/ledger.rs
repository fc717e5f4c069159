use crate::clock::{fresh_id, now_unix_ms};
use vstd::prelude::*;
use vstd::multiset::lemma_multiset_empty_len;
use vstd::seq_lib::{
    to_multiset_build, to_multiset_contains, to_multiset_insert, to_multiset_len, to_multiset_remove,
};

verus! {

/// Severity of an activity entry.
#[derive(Clone, Copy, Debug, PartialEq, Eq, Structural)]
pub enum LogLevel {
    Info,
    Success,
    Warning,
    Error,
}

/// One human-readable event. `timestamp` is a Unix time in milliseconds.
pub struct ActivityLog {
    pub id: String,
    pub timestamp: i64,
    pub level: LogLevel,
    pub category: String,
    pub message: String,
    pub symbol: Option<String>,
}

impl ActivityLog {
    /// A field-for-field copy.
    pub fn duplicate(&self) -> (r: ActivityLog)
        ensures
            r == *self,
    {
        let symbol = match &self.symbol {
            Some(s) => Some(s.clone()),
            None => None,
        };
        ActivityLog {
            id: self.id.clone(),
            timestamp: self.timestamp,
            level: self.level,
            category: self.category.clone(),
            message: self.message.clone(),
            symbol,
        }
    }
}

/// An optional symbol that is present and reads `s`.
pub open spec fn symbol_is(o: Option<String>, s: Seq<char>) -> bool {
    match o {
        Some(t) => t@ == s,
        None => false,
    }
}

/// Entries ordered by timestamp, oldest first (equal timestamps in insertion order).
pub open spec fn sorted_by_time(s: Seq<ActivityLog>) -> bool {
    forall|i: int, j: int| 0 <= i < j < s.len() ==> s[i].timestamp <= s[j].timestamp
}

/// Where an entry stamped `ts` goes: after the last entry not later than it.
pub open spec fn insert_pos(s: Seq<ActivityLog>, ts: int) -> int
    decreases s.len(),
{
    if s.len() == 0 {
        0
    } else if s.last().timestamp <= ts {
        s.len() as int
    } else {
        insert_pos(s.drop_last(), ts)
    }
}

/// The ledger after one insertion: the entry is placed by timestamp, and the oldest
/// entry leaves when the capacity is exceeded.
pub open spec fn ledger_insert(s: Seq<ActivityLog>, e: ActivityLog, cap: int) -> Seq<ActivityLog> {
    let t = s.insert(insert_pos(s, e.timestamp as int), e);
    if t.len() > cap {
        t.subrange(1, t.len() as int)
    } else {
        t
    }
}

proof fn lemma_insert_pos(s: Seq<ActivityLog>, ts: int)
    requires
        sorted_by_time(s),
    ensures
        0 <= insert_pos(s, ts) <= s.len(),
        forall|j: int| 0 <= j < insert_pos(s, ts) ==> s[j].timestamp <= ts,
        forall|j: int| insert_pos(s, ts) <= j < s.len() ==> s[j].timestamp > ts,
    decreases s.len(),
{
    if s.len() > 0 {
        if s.last().timestamp > ts {
            let d = s.drop_last();
            assert(sorted_by_time(d)) by {
                assert forall|i: int, j: int| 0 <= i < j < d.len() implies d[i].timestamp
                    <= d[j].timestamp by {
                    assert(d[i] == s[i] && d[j] == s[j]);
                }
            }
            lemma_insert_pos(d, ts);
            assert forall|j: int| insert_pos(s, ts) <= j < s.len() implies s[j].timestamp > ts by {
                if j < s.len() - 1 {
                    assert(d[j] == s[j]);
                }
            }
            assert forall|j: int| 0 <= j < insert_pos(s, ts) implies s[j].timestamp <= ts by {
                assert(d[j] == s[j]);
            }
        } else {
            assert forall|j: int| 0 <= j < insert_pos(s, ts) implies s[j].timestamp <= ts by {
                if j < s.len() - 1 {
                    assert(s[j].timestamp <= s[s.len() - 1].timestamp);
                }
            }
        }
    }
}

proof fn lemma_insert_sorted(s: Seq<ActivityLog>, e: ActivityLog, cap: int)
    requires
        sorted_by_time(s),
    ensures
        sorted_by_time(s.insert(insert_pos(s, e.timestamp as int), e)),
        sorted_by_time(ledger_insert(s, e, cap)),
{
    lemma_insert_pos(s, e.timestamp as int);
    let p = insert_pos(s, e.timestamp as int);
    let t = s.insert(p, e);
    assert forall|i: int, j: int| 0 <= i < j < t.len() implies t[i].timestamp <= t[j].timestamp by {
        if j < p {
        } else if j == p {
        } else if i < p {
        } else if i == p {
        } else {
        }
    }
}

/// A bounded log of activity entries, oldest evicted first.
pub struct ActivityLogger {
    logs: Vec<ActivityLog>,
    max_logs: usize,
}

impl View for ActivityLogger {
    type V = Seq<ActivityLog>;

    closed spec fn view(&self) -> Seq<ActivityLog> {
        self.logs@
    }
}

impl ActivityLogger {
    pub closed spec fn capacity(&self) -> int {
        self.max_logs as int
    }

    /// The entries are ordered by timestamp and never more than the capacity.
    pub closed spec fn wf(&self) -> bool {
        &&& sorted_by_time(self.logs@)
        &&& self.logs@.len() <= self.max_logs
    }

    /// An empty log that keeps the 100 most recent entries.
    pub fn new() -> (r: ActivityLogger)
        ensures
            r.wf(),
            r@.len() == 0,
            r.capacity() == 100,
    {
        ActivityLogger { logs: Vec::new(), max_logs: 100 }
    }

    /// An empty log that keeps the `max_logs` most recent entries.
    pub fn with_capacity(max_logs: usize) -> (r: ActivityLogger)
        ensures
            r.wf(),
            r@.len() == 0,
            r.capacity() == max_logs,
    {
        ActivityLogger { logs: Vec::new(), max_logs }
    }

    pub fn len(&self) -> (r: usize)
        ensures
            r == self@.len(),
    {
        self.logs.len()
    }

    /// Adds an entry in timestamp order; past the capacity the oldest entry leaves.
    pub fn insert_entry(&mut self, entry: ActivityLog)
        requires
            old(self).wf(),
        ensures
            final(self).wf(),
            final(self).capacity() == old(self).capacity(),
            sorted_by_time(final(self)@),
            final(self)@.len() <= final(self).capacity(),
            final(self)@ == ledger_insert(old(self)@, entry, old(self).capacity()),
    {
        let ghost s = self.logs@;
        let ghost ts = entry.timestamp as int;
        proof {
            lemma_insert_pos(s, ts);
            lemma_insert_sorted(s, entry, self.max_logs as int);
        }
        let mut i: usize = self.logs.len();
        assert(s.subrange(0, i as int) =~= s);
        while i > 0 && self.logs[i - 1].timestamp > entry.timestamp
            invariant
                i <= s.len(),
                ts == entry.timestamp as int,
                self.logs@ == s,
                sorted_by_time(s),
                insert_pos(s, ts) == insert_pos(s.subrange(0, i as int), ts),
            decreases i,
        {
            let ghost pre = s.subrange(0, i as int);
            assert(pre.drop_last() =~= s.subrange(0, i - 1));
            assert(pre.last() == s[i - 1]);
            assert(pre.len() > 0);
            assert(s[i - 1].timestamp > ts);
            assert(insert_pos(pre, ts) == insert_pos(pre.drop_last(), ts));
            i = i - 1;
        }
        proof {
            let pre = s.subrange(0, i as int);
            if i > 0 {
                assert(pre.last() == s[i - 1]);
            }
        }
        assert(insert_pos(s, ts) == i);
        self.logs.insert(i, entry);
        if self.logs.len() > self.max_logs {
            let ghost t = self.logs@;
            self.logs.remove(0);
            assert(self.logs@ =~= t.subrange(1, t.len() as int));
        }
    }

    /// Records an event, stamped with a fresh identifier and the current time.
    pub fn log(&mut self, level: LogLevel, category: &str, message: &str, symbol: Option<&str>)
        requires
            old(self).wf(),
        ensures
            final(self).wf(),
            final(self).capacity() == old(self).capacity(),
            sorted_by_time(final(self)@),
            final(self)@.len() <= final(self).capacity(),
            exists|e: ActivityLog|
                #![trigger ledger_insert(old(self)@, e, old(self).capacity())]
                {
                    &&& e.level == level
                    &&& e.category@ == category@
                    &&& e.message@ == message@
                    &&& e.id@.len() == 36
                    &&& match symbol {
                        Some(s) => e.symbol matches Some(t) && t@ == s@,
                        None => e.symbol is None,
                    }
                    &&& final(self)@ == ledger_insert(old(self)@, e, old(self).capacity())
                },
    {
        let sym = match symbol {
            Some(s) => Some(s.to_owned()),
            None => None,
        };
        let entry = ActivityLog {
            id: fresh_id(),
            timestamp: now_unix_ms(),
            level,
            category: category.to_owned(),
            message: message.to_owned(),
            symbol: sym,
        };
        self.insert_entry(entry);
    }

    /// Every entry, newest first.
    pub fn get_logs(&self) -> (r: Vec<ActivityLog>)
        requires
            self.wf(),
        ensures
            r@ == self@.reverse(),
            forall|i: int, j: int|
                0 <= i < j < r@.len() ==> #[trigger] r@[i].timestamp >= #[trigger] r@[j].timestamp,
    {
        let mut r: Vec<ActivityLog> = Vec::new();
        let mut i: usize = self.logs.len();
        while i > 0
            invariant
                i <= self.logs@.len(),
                r@ == self.logs@.subrange(i as int, self.logs@.len() as int).reverse(),
            decreases i,
        {
            i = i - 1;
            r.push(self.logs[i].duplicate());
            assert(r@ =~= self.logs@.subrange(i as int, self.logs@.len() as int).reverse());
        }
        assert(self.logs@.subrange(0, self.logs@.len() as int) =~= self.logs@);
        assert forall|i: int, j: int| 0 <= i < j < r@.len() implies #[trigger] r@[i].timestamp
            >= #[trigger] r@[j].timestamp by {
            let n = self.logs@.len() as int;
            assert(r@[i] == self.logs@[n - 1 - i]);
            assert(r@[j] == self.logs@[n - 1 - j]);
        }
        r
    }

    pub fn info(&mut self, category: &str, message: &str)
        requires
            old(self).wf(),
        ensures
            final(self).wf(),
            final(self).capacity() == old(self).capacity(),
            sorted_by_time(final(self)@),
            final(self)@.len() <= final(self).capacity(),
            exists|e: ActivityLog|
                #![trigger ledger_insert(old(self)@, e, old(self).capacity())]
                e.level == LogLevel::Info && e.category@ == category@ && e.message@ == message@
                    && e.symbol is None && final(self)@ == ledger_insert(
                    old(self)@,
                    e,
                    old(self).capacity(),
                ),
    {
        self.log(LogLevel::Info, category, message, None);
    }

    pub fn success(&mut self, category: &str, message: &str)
        requires
            old(self).wf(),
        ensures
            final(self).wf(),
            final(self).capacity() == old(self).capacity(),
            sorted_by_time(final(self)@),
            final(self)@.len() <= final(self).capacity(),
            exists|e: ActivityLog|
                #![trigger ledger_insert(old(self)@, e, old(self).capacity())]
                e.level == LogLevel::Success && e.category@ == category@ && e.message@ == message@
                    && e.symbol is None && final(self)@ == ledger_insert(
                    old(self)@,
                    e,
                    old(self).capacity(),
                ),
    {
        self.log(LogLevel::Success, category, message, None);
    }

    pub fn warning(&mut self, category: &str, message: &str)
        requires
            old(self).wf(),
        ensures
            final(self).wf(),
            final(self).capacity() == old(self).capacity(),
            sorted_by_time(final(self)@),
            final(self)@.len() <= final(self).capacity(),
            exists|e: ActivityLog|
                #![trigger ledger_insert(old(self)@, e, old(self).capacity())]
                e.level == LogLevel::Warning && e.category@ == category@ && e.message@ == message@
                    && e.symbol is None && final(self)@ == ledger_insert(
                    old(self)@,
                    e,
                    old(self).capacity(),
                ),
    {
        self.log(LogLevel::Warning, category, message, None);
    }

    pub fn error(&mut self, category: &str, message: &str)
        requires
            old(self).wf(),
        ensures
            final(self).wf(),
            final(self).capacity() == old(self).capacity(),
            sorted_by_time(final(self)@),
            final(self)@.len() <= final(self).capacity(),
            exists|e: ActivityLog|
                #![trigger ledger_insert(old(self)@, e, old(self).capacity())]
                e.level == LogLevel::Error && e.category@ == category@ && e.message@ == message@
                    && e.symbol is None && final(self)@ == ledger_insert(
                    old(self)@,
                    e,
                    old(self).capacity(),
                ),
    {
        self.log(LogLevel::Error, category, message, None);
    }

    /// A trade event about `symbol`, in category "Trade".
    pub fn trade(&mut self, level: LogLevel, message: &str, symbol: &str)
        requires
            old(self).wf(),
        ensures
            final(self).wf(),
            final(self).capacity() == old(self).capacity(),
            sorted_by_time(final(self)@),
            final(self)@.len() <= final(self).capacity(),
            exists|e: ActivityLog|
                #![trigger ledger_insert(old(self)@, e, old(self).capacity())]
                e.level == level && e.category@ == "Trade"@ && e.message@ == message@
                    && symbol_is(e.symbol, symbol@) && final(self)@ == ledger_insert(
                    old(self)@,
                    e,
                    old(self).capacity(),
                ),
    {
        self.log(level, "Trade", message, Some(symbol));
    }

    /// A signal event about `symbol`, in category "Signal".
    pub fn signal(&mut self, message: &str, symbol: &str)
        requires
            old(self).wf(),
        ensures
            final(self).wf(),
            final(self).capacity() == old(self).capacity(),
            sorted_by_time(final(self)@),
            final(self)@.len() <= final(self).capacity(),
            exists|e: ActivityLog|
                #![trigger ledger_insert(old(self)@, e, old(self).capacity())]
                e.level == LogLevel::Info && e.category@ == "Signal"@ && e.message@ == message@
                    && symbol_is(e.symbol, symbol@) && final(self)@ == ledger_insert(
                    old(self)@,
                    e,
                    old(self).capacity(),
                ),
    {
        self.log(LogLevel::Info, "Signal", message, Some(symbol));
    }

    /// An analysis event about `symbol`, in category "Analysis".
    pub fn analysis(&mut self, message: &str, symbol: &str)
        requires
            old(self).wf(),
        ensures
            final(self).wf(),
            final(self).capacity() == old(self).capacity(),
            sorted_by_time(final(self)@),
            final(self)@.len() <= final(self).capacity(),
            exists|e: ActivityLog|
                #![trigger ledger_insert(old(self)@, e, old(self).capacity())]
                e.level == LogLevel::Info && e.category@ == "Analysis"@ && e.message@ == message@
                    && symbol_is(e.symbol, symbol@) && final(self)@ == ledger_insert(
                    old(self)@,
                    e,
                    old(self).capacity(),
                ),
    {
        self.log(LogLevel::Info, "Analysis", message, Some(symbol));
    }
}

/// The log after inserting `entries`, in order, into an empty log of capacity `cap`.
pub open spec fn ledger_fold(entries: Seq<ActivityLog>, cap: int) -> Seq<ActivityLog>
    decreases entries.len(),
{
    if entries.len() == 0 {
        Seq::empty()
    } else {
        ledger_insert(ledger_fold(entries.drop_last(), cap), entries.last(), cap)
    }
}

/// The entries that those insertions evicted, in order of eviction.
pub open spec fn ledger_evicted(entries: Seq<ActivityLog>, cap: int) -> Seq<ActivityLog>
    decreases entries.len(),
{
    if entries.len() == 0 {
        Seq::empty()
    } else {
        let kept = ledger_fold(entries.drop_last(), cap);
        let e = entries.last();
        let t = kept.insert(insert_pos(kept, e.timestamp as int), e);
        if t.len() > cap {
            ledger_evicted(entries.drop_last(), cap).push(t[0])
        } else {
            ledger_evicted(entries.drop_last(), cap)
        }
    }
}

/// Inserting `n` entries into a log of capacity `cap` leaves exactly `min(n, cap)` of
/// them, in timestamp order; the others were evicted, and no evicted entry is later than
/// any entry that stayed.
pub proof fn lemma_ledger_keeps_latest(entries: Seq<ActivityLog>, cap: int)
    requires
        cap >= 0,
    ensures
        ledger_fold(entries, cap).len() == if entries.len() < cap {
            entries.len() as int
        } else {
            cap
        },
        ledger_evicted(entries, cap).len() == entries.len() - ledger_fold(entries, cap).len(),
        sorted_by_time(ledger_fold(entries, cap)),
        ledger_fold(entries, cap).to_multiset().add(ledger_evicted(entries, cap).to_multiset())
            == entries.to_multiset(),
        forall|i: int, j: int|
            0 <= i < ledger_evicted(entries, cap).len() && 0 <= j < ledger_fold(entries, cap).len()
                ==> #[trigger] ledger_evicted(entries, cap)[i].timestamp
                <= #[trigger] ledger_fold(entries, cap)[j].timestamp,
    decreases entries.len(),
{
    broadcast use vstd::multiset::group_multiset_axioms;

    if entries.len() == 0 {
        let z = Seq::<ActivityLog>::empty();
        assert(entries =~= z);
        to_multiset_len(z);
        lemma_multiset_empty_len(z.to_multiset());
        assert(ledger_fold(entries, cap).to_multiset().add(ledger_evicted(entries, cap).to_multiset())
            =~= entries.to_multiset());
    } else {
        let rest = entries.drop_last();
        lemma_ledger_keeps_latest(rest, cap);
        let kept = ledger_fold(rest, cap);
        let ev = ledger_evicted(rest, cap);
        let e = entries.last();
        let p = insert_pos(kept, e.timestamp as int);
        lemma_insert_pos(kept, e.timestamp as int);
        lemma_insert_sorted(kept, e, cap);
        let t = kept.insert(p, e);
        let k1 = ledger_fold(entries, cap);
        let ev1 = ledger_evicted(entries, cap);
        assert(entries =~= rest.push(e));
        to_multiset_build(rest, e);
        to_multiset_insert(kept, p, e);
        if t.len() > cap {
            assert(t.subrange(1, t.len() as int) =~= t.remove(0));
            to_multiset_remove(t, 0);
            to_multiset_build(ev, t[0]);
            assert(t.to_multiset().count(t[0]) > 0) by {
                to_multiset_contains(t, t[0]);
            }
            assert(k1.to_multiset().add(ev1.to_multiset()) =~= entries.to_multiset());
            assert(k1 == t.subrange(1, t.len() as int));
            assert(ev1 == ev.push(t[0]));
            assert forall|i: int, j: int| 0 <= i < ev1.len() && 0 <= j < k1.len() implies
                #[trigger] ev1[i].timestamp <= #[trigger] k1[j].timestamp by {
                assert(k1[j] == t[j + 1]);
                if i == ev.len() {
                    assert(ev1[i] == t[0]);
                } else {
                    assert(ev1[i] == ev[i]);
                    if j + 1 < p {
                        assert(t[j + 1] == kept[j + 1]);
                    } else if j + 1 == p {
                        assert(kept[0].timestamp <= e.timestamp);
                        assert(ev[i].timestamp <= kept[0].timestamp);
                    } else {
                        assert(t[j + 1] == kept[j]);
                    }
                }
            }
        } else {
            assert(k1 == t);
            assert(ev1 == ev);
            assert(k1.to_multiset().add(ev1.to_multiset()) =~= entries.to_multiset());
        }
    }
}

/// Inserting entries whose timestamps strictly increase into a log of capacity `cap`
/// keeps exactly the `cap` most recent of them, in order: the earliest ones are the ones
/// evicted.
pub proof fn lemma_ledger_in_time_order_keeps_most_recent(entries: Seq<ActivityLog>, cap: int)
    requires
        cap >= 0,
        forall|i: int, j: int|
            0 <= i < j < entries.len() ==> #[trigger] entries[i].timestamp
                < #[trigger] entries[j].timestamp,
    ensures
        ledger_fold(entries, cap) == entries.subrange(
            if entries.len() > cap {
                entries.len() - cap
            } else {
                0
            },
            entries.len() as int,
        ),
    decreases entries.len(),
{
    let n = entries.len() as int;
    if n == 0 {
        assert(entries.subrange(0, 0) =~= Seq::<ActivityLog>::empty());
    } else {
        let rest = entries.drop_last();
        assert forall|i: int, j: int| 0 <= i < j < rest.len() implies #[trigger] rest[i].timestamp
            < #[trigger] rest[j].timestamp by {
            assert(rest[i] == entries[i] && rest[j] == entries[j]);
        }
        lemma_ledger_in_time_order_keeps_most_recent(rest, cap);
        let lo = if n - 1 > cap {
            n - 1 - cap
        } else {
            0
        };
        let kept = ledger_fold(rest, cap);
        assert(kept == entries.subrange(lo, n - 1));
        let e = entries.last();
        if kept.len() > 0 {
            assert(kept.last() == entries[n - 2]);
            assert(entries[n - 2].timestamp < entries[n - 1].timestamp);
        }
        assert(insert_pos(kept, e.timestamp as int) == kept.len());
        let t = kept.insert(kept.len() as int, e);
        assert(t =~= entries.subrange(lo, n));
        if t.len() > cap {
            assert(t.subrange(1, t.len() as int) =~= entries.subrange(n - cap, n));
        }
    }
}

} // verus!
