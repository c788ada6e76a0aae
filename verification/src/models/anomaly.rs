//! Kinds and severities of anomalies.
use vstd::prelude::*;

use std::collections::VecDeque;

verus! {

#[derive(Clone, Debug, PartialEq, Eq)]
pub enum AnomalyKind {
    ErrorSpike,
    LatencyJump,
    MemoryLeak,
    CrashLoop,
    UnhandledException,
    DatabaseTimeout,
    Custom(String),
}

impl AnomalyKind {
    /// The human-readable name of a kind.
    pub open spec fn label_text(self) -> Seq<char> {
        match self {
            AnomalyKind::ErrorSpike => "Error Spike"@,
            AnomalyKind::LatencyJump => "Latency Jump"@,
            AnomalyKind::MemoryLeak => "Memory Leak"@,
            AnomalyKind::CrashLoop => "Crash Loop"@,
            AnomalyKind::UnhandledException => "Unhandled Exception"@,
            AnomalyKind::DatabaseTimeout => "Database Timeout"@,
            AnomalyKind::Custom(s) => s@,
        }
    }

    pub fn label(&self) -> (r: &str)
        ensures
            r@ == self.label_text(),
    {
        match self {
            AnomalyKind::ErrorSpike => "Error Spike",
            AnomalyKind::LatencyJump => "Latency Jump",
            AnomalyKind::MemoryLeak => "Memory Leak",
            AnomalyKind::CrashLoop => "Crash Loop",
            AnomalyKind::UnhandledException => "Unhandled Exception",
            AnomalyKind::DatabaseTimeout => "Database Timeout",
            AnomalyKind::Custom(s) => s.as_str(),
        }
    }
}

#[derive(Clone, Copy, Debug, PartialEq, Eq, Structural, PartialOrd, Ord)]
pub enum Severity {
    Low,
    Medium,
    High,
    Critical,
}

impl Severity {
    /// The position of a severity in its order, `Low` first.
    pub open spec fn level(self) -> nat {
        match self {
            Severity::Low => 0,
            Severity::Medium => 1,
            Severity::High => 2,
            Severity::Critical => 3,
        }
    }

    pub fn rank(&self) -> (r: u8)
        ensures
            r as nat == self.level(),
    {
        match self {
            Severity::Low => 0,
            Severity::Medium => 1,
            Severity::High => 2,
            Severity::Critical => 3,
        }
    }

    /// The more severe of two severities.
    pub open spec fn worst(a: Severity, b: Severity) -> Severity {
        if b.level() > a.level() {
            b
        } else {
            a
        }
    }
}

/// Whether `now - window_ms`, the oldest time a window keeps, is an `i64`.
pub open spec fn cutoff_fits(window_ms: i64, now: i64) -> bool {
    i64::MIN <= now - window_ms <= i64::MAX
}

/// How many items at the front of a window are older than the cutoff.
pub open spec fn expired_count<T>(items: Seq<(i64, T)>, cutoff: int) -> nat
    decreases items.len(),
{
    if items.len() > 0 && items[0].0 < cutoff {
        1 + expired_count(items.drop_first(), cutoff)
    } else {
        0
    }
}

/// The items a window keeps after eviction: all but those at the front that
/// are older than the cutoff.
pub open spec fn evicted<T>(items: Seq<(i64, T)>, cutoff: int) -> Seq<(i64, T)> {
    items.skip(expired_count(items, cutoff) as int)
}

/// Whether the times of a window never decrease from front to back.
pub open spec fn in_time_order<T>(items: Seq<(i64, T)>) -> bool {
    forall|i: int, j: int| 0 <= i <= j < items.len() ==> items[i].0 <= items[j].0
}

pub(crate) proof fn lemma_expired_count_bound<T>(items: Seq<(i64, T)>, cutoff: int)
    ensures
        expired_count(items, cutoff) <= items.len(),
        forall|i: int| 0 <= i < expired_count(items, cutoff) ==> items[i].0 < cutoff,
        expired_count(items, cutoff) < items.len() ==> items[expired_count(items, cutoff) as int].0 >= cutoff,
    decreases items.len(),
{
    if items.len() > 0 && items[0].0 < cutoff {
        lemma_expired_count_bound(items.drop_first(), cutoff);
        assert forall|i: int| 0 <= i < expired_count(items, cutoff) implies items[i].0 < cutoff by {
            if i > 0 {
                assert(items[i] == items.drop_first()[i - 1]);
            }
        }
    }
}

/// Timestamped values within a sliding time span, oldest first. Times are
/// milliseconds since the Unix epoch.
#[derive(Debug)]
pub struct RollingWindow<T> {
    /// The span kept, in milliseconds.
    pub window_ms: i64,
    pub items: VecDeque<(i64, T)>,
}

impl<T> RollingWindow<T> {
    pub fn new(window_ms: i64) -> (r: RollingWindow<T>)
        ensures
            r.window_ms == window_ms,
            r.items@.len() == 0,
    {
        RollingWindow { window_ms, items: VecDeque::new() }
    }

    /// Appends a value stamped `now`, then drops what is older than the window.
    pub fn push(&mut self, now: i64, value: T)
        requires
            cutoff_fits(old(self).window_ms, now),
        ensures
            final(self).window_ms == old(self).window_ms,
            final(self).items@ == evicted(old(self).items@.push((now, value)), now - old(self).window_ms),
    {
        self.items.push_back((now, value));
        self.evict(now);
    }

    /// Drops the items at the front that are older than `now` minus the window.
    pub fn evict(&mut self, now: i64)
        requires
            cutoff_fits(old(self).window_ms, now),
        ensures
            final(self).window_ms == old(self).window_ms,
            final(self).items@ == evicted(old(self).items@, now - old(self).window_ms),
    {
        let cutoff: i64 = now - self.window_ms;
        let ghost start = self.items@;
        let ghost mut k: int = 0;
        proof {
            assert(start.skip(0) =~= start);
        }
        while self.items.len() > 0 && self.items[0].0 < cutoff
            invariant
                self.window_ms == old(self).window_ms,
                cutoff == now - old(self).window_ms,
                start == old(self).items@,
                0 <= k <= start.len(),
                self.items@ == start.skip(k),
                expired_count(start, cutoff as int) == k + expired_count(start.skip(k), cutoff as int),
            decreases self.items@.len(),
        {
            let ghost before = self.items@;
            self.items.pop_front();
            proof {
                assert(before.drop_first() =~= start.skip(k + 1));
                k = k + 1;
            }
        }
    }

    /// The items, oldest first.
    pub fn iter(&self) -> (r: &VecDeque<(i64, T)>)
        ensures
            r@ == self.items@,
    {
        &self.items
    }

    pub fn len(&self) -> (r: usize)
        ensures
            r == self.items@.len(),
    {
        self.items.len()
    }

    pub fn is_empty(&self) -> (r: bool)
        ensures
            r == (self.items@.len() == 0),
    {
        self.items.len() == 0
    }
}

/// Eviction keeps exactly the recent items of a window in time order: every
/// item it drops is older than the cutoff, and every item it keeps is not.
pub proof fn law_evict_keeps_exactly_the_recent<T>(items: Seq<(i64, T)>, cutoff: int)
    requires
        in_time_order(items),
    ensures
        forall|i: int| 0 <= i < evicted(items, cutoff).len() ==> #[trigger] evicted(items, cutoff)[i].0 >= cutoff,
        forall|i: int| 0 <= i < items.len() && items[i].0 < cutoff ==> i < expired_count(items, cutoff),
        evicted(items, cutoff) == items.skip(expired_count(items, cutoff) as int),
{
    lemma_expired_count_bound(items, cutoff);
    let k = expired_count(items, cutoff) as int;
    assert forall|i: int| 0 <= i < evicted(items, cutoff).len() implies #[trigger] evicted(items, cutoff)[i].0 >= cutoff by {
        assert(evicted(items, cutoff)[i] == items[k + i]);
        assert(items[k].0 <= items[k + i].0);
    }
    assert forall|i: int| 0 <= i < items.len() && items[i].0 < cutoff implies i < k by {
        if i >= k {
            assert(items[k].0 <= items[i].0);
        }
    }
}

/// A window filled at times that never go back stays in time order.
pub proof fn law_push_keeps_time_order<T>(items: Seq<(i64, T)>, now: i64, value: T, cutoff: int)
    requires
        in_time_order(items),
        items.len() > 0 ==> items.last().0 <= now,
    ensures
        in_time_order(evicted(items.push((now, value)), cutoff)),
{
    let all = items.push((now, value));
    assert(in_time_order(all));
    lemma_expired_count_bound(all, cutoff);
    let k = expired_count(all, cutoff) as int;
    assert forall|i: int, j: int| 0 <= i <= j < evicted(all, cutoff).len() implies evicted(all, cutoff)[i].0
        <= evicted(all, cutoff)[j].0 by {
        assert(evicted(all, cutoff)[i] == all[k + i]);
        assert(evicted(all, cutoff)[j] == all[k + j]);
    }
}

} // verus!
