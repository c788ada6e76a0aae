//! Per-source rolling windows: error and warning counts, memory and latency
//! samples, and the most recent messages of one source.
use vstd::prelude::*;

use std::collections::VecDeque;

use crate::models::anomaly::{cutoff_fits, evicted, RollingWindow};
use crate::models::log_entry::LogLevel;
use crate::text::{owned, texts};

verus! {

/// Custom detectors need to see real log text, not just level counts, but
/// keeping every message forever would defeat the point of a rolling window.
pub const RECENT_MESSAGES_CAP: usize = 50;

/// The longest span, in seconds, that a window can hold: `i64::MAX`
/// milliseconds.
pub const MAX_WINDOW_SECONDS: i64 = 9223372036854775;

/// Whether a span in seconds, read as an `i64`, is one a window can hold.
pub open spec fn window_seconds_ok(window_seconds: u64) -> bool {
    -MAX_WINDOW_SECONDS <= (window_seconds as i64) <= MAX_WINDOW_SECONDS
}

/// The recent messages after one more: appended, the oldest dropped beyond
/// the cap.
pub open spec fn with_message(msgs: Seq<Seq<char>>, m: Seq<char>) -> Seq<Seq<char>> {
    let all = msgs.push(m);
    if all.len() > RECENT_MESSAGES_CAP {
        all.drop_first()
    } else {
        all
    }
}

#[derive(Debug)]
pub struct SourceWindow<S> {
    /// Error and fatal count per tick.
    pub error_window: RollingWindow<u64>,
    /// One item per warning.
    pub warn_window: RollingWindow<u64>,
    /// Memory samples.
    pub memory_window: RollingWindow<S>,
    /// Latency samples, taken from structured fields.
    pub latency_window: RollingWindow<S>,
    /// Total entry count.
    pub total_entries: u64,
    /// Error count since the last tick.
    pub error_count_last_tick: u64,
    /// Most recent log messages, oldest first, capped at `RECENT_MESSAGES_CAP`.
    pub recent_messages: VecDeque<String>,
}

impl<S> SourceWindow<S> {
    /// Whether `now` minus the span of every window is an `i64`.
    pub open spec fn cutoffs_fit(self, now: i64) -> bool {
        &&& cutoff_fits(self.error_window.window_ms, now)
        &&& cutoff_fits(self.warn_window.window_ms, now)
        &&& cutoff_fits(self.memory_window.window_ms, now)
        &&& cutoff_fits(self.latency_window.window_ms, now)
    }

    /// Empty windows that keep `window_seconds` seconds each.
    pub fn new(window_seconds: u64) -> (r: SourceWindow<S>)
        requires
            window_seconds_ok(window_seconds),
        ensures
            r.error_window.window_ms == (window_seconds as i64) * 1000,
            r.warn_window.window_ms == (window_seconds as i64) * 1000,
            r.memory_window.window_ms == (window_seconds as i64) * 1000,
            r.latency_window.window_ms == (window_seconds as i64) * 1000,
            r.error_window.items@.len() == 0,
            r.warn_window.items@.len() == 0,
            r.memory_window.items@.len() == 0,
            r.latency_window.items@.len() == 0,
            r.total_entries == 0,
            r.error_count_last_tick == 0,
            r.recent_messages@.len() == 0,
    {
        let secs: i64 = window_seconds as i64;
        let ms: i64 = secs * 1000;
        SourceWindow {
            error_window: RollingWindow::new(ms),
            warn_window: RollingWindow::new(ms),
            memory_window: RollingWindow::new(ms),
            latency_window: RollingWindow::new(ms),
            total_entries: 0,
            error_count_last_tick: 0,
            recent_messages: VecDeque::new(),
        }
    }

    /// Counts one entry of the given level: errors and fatals towards the
    /// current tick, warnings into the warning window at `now`.
    pub fn record_entry_level(&mut self, level: LogLevel, now: i64)
        requires
            old(self).total_entries < u64::MAX,
            (level == LogLevel::Error || level == LogLevel::Fatal) ==> old(self).error_count_last_tick < u64::MAX,
            level == LogLevel::Warn ==> cutoff_fits(old(self).warn_window.window_ms, now),
        ensures
            final(self).total_entries == old(self).total_entries + 1,
            final(self).error_count_last_tick == if level == LogLevel::Error || level == LogLevel::Fatal {
                old(self).error_count_last_tick + 1
            } else {
                old(self).error_count_last_tick as int
            },
            final(self).warn_window.window_ms == old(self).warn_window.window_ms,
            final(self).warn_window.items@ == if level == LogLevel::Warn {
                evicted(old(self).warn_window.items@.push((now, 1u64)), now - old(self).warn_window.window_ms)
            } else {
                old(self).warn_window.items@
            },
            final(self).error_window == old(self).error_window,
            final(self).memory_window == old(self).memory_window,
            final(self).latency_window == old(self).latency_window,
            final(self).recent_messages == old(self).recent_messages,
    {
        self.total_entries = self.total_entries + 1;
        match level {
            LogLevel::Error | LogLevel::Fatal => {
                self.error_count_last_tick = self.error_count_last_tick + 1;
            },
            LogLevel::Warn => {
                self.warn_window.push(now, 1);
            },
            _ => {},
        }
    }

    /// Keeps a message among the recent ones, dropping the oldest beyond the cap.
    pub fn record_message(&mut self, message: &str)
        ensures
            texts(final(self).recent_messages@) == with_message(texts(old(self).recent_messages@), message@),
            final(self).error_window == old(self).error_window,
            final(self).warn_window == old(self).warn_window,
            final(self).memory_window == old(self).memory_window,
            final(self).latency_window == old(self).latency_window,
            final(self).total_entries == old(self).total_entries,
            final(self).error_count_last_tick == old(self).error_count_last_tick,
    {
        self.recent_messages.push_back(owned(message));
        assert(texts(self.recent_messages@) =~= texts(old(self).recent_messages@).push(message@));
        if self.recent_messages.len() > RECENT_MESSAGES_CAP {
            let ghost before = self.recent_messages@;
            self.recent_messages.pop_front();
            assert(texts(self.recent_messages@) =~= texts(before).drop_first());
        }
    }

    /// Closes a tick at `now`: the tick's error count enters the error
    /// window, the count restarts at zero, and every window drops what is
    /// older than its span.
    pub fn flush_tick(&mut self, now: i64)
        requires
            old(self).cutoffs_fit(now),
        ensures
            final(self).error_count_last_tick == 0,
            final(self).error_window.window_ms == old(self).error_window.window_ms,
            final(self).error_window.items@ == evicted(
                old(self).error_window.items@.push((now, old(self).error_count_last_tick)),
                now - old(self).error_window.window_ms,
            ),
            final(self).warn_window.window_ms == old(self).warn_window.window_ms,
            final(self).warn_window.items@ == evicted(old(self).warn_window.items@, now - old(self).warn_window.window_ms),
            final(self).memory_window.window_ms == old(self).memory_window.window_ms,
            final(self).memory_window.items@ == evicted(
                old(self).memory_window.items@,
                now - old(self).memory_window.window_ms,
            ),
            final(self).latency_window.window_ms == old(self).latency_window.window_ms,
            final(self).latency_window.items@ == evicted(
                old(self).latency_window.items@,
                now - old(self).latency_window.window_ms,
            ),
            final(self).total_entries == old(self).total_entries,
            final(self).recent_messages == old(self).recent_messages,
    {
        let count = self.error_count_last_tick;
        self.error_window.items.push_back((now, count));
        self.error_count_last_tick = 0;
        self.error_window.evict(now);
        self.warn_window.evict(now);
        self.memory_window.evict(now);
        self.latency_window.evict(now);
    }
}

/// What a source window holds, as values: the span of its windows, their
/// items, its counters and its recent messages.
pub struct WindowView<S> {
    pub span_ms: i64,
    pub errors: Seq<(i64, u64)>,
    pub warnings: Seq<(i64, u64)>,
    pub memory: Seq<(i64, S)>,
    pub latency: Seq<(i64, S)>,
    pub total_entries: u64,
    pub pending_errors: u64,
    pub messages: Seq<Seq<char>>,
}

impl<S> SourceWindow<S> {
    /// Whether the four windows keep the same span.
    pub open spec fn spans_agree(self) -> bool {
        &&& self.warn_window.window_ms == self.error_window.window_ms
        &&& self.memory_window.window_ms == self.error_window.window_ms
        &&& self.latency_window.window_ms == self.error_window.window_ms
    }
}

impl<S> View for SourceWindow<S> {
    type V = WindowView<S>;

    open spec fn view(&self) -> WindowView<S> {
        WindowView {
            span_ms: self.error_window.window_ms,
            errors: self.error_window.items@,
            warnings: self.warn_window.items@,
            memory: self.memory_window.items@,
            latency: self.latency_window.items@,
            total_entries: self.total_entries,
            pending_errors: self.error_count_last_tick,
            messages: texts(self.recent_messages@),
        }
    }
}

/// A window of the given span that has seen nothing.
pub open spec fn fresh_view<S>(span_ms: i64) -> WindowView<S> {
    WindowView {
        span_ms,
        errors: seq![],
        warnings: seq![],
        memory: seq![],
        latency: seq![],
        total_entries: 0,
        pending_errors: 0,
        messages: seq![],
    }
}

/// Whether a window can count one more entry of a level without its
/// counters overflowing.
pub open spec fn has_room<S>(v: WindowView<S>, level: LogLevel) -> bool {
    &&& v.total_entries < u64::MAX
    &&& (level == LogLevel::Error || level == LogLevel::Fatal) ==> v.pending_errors < u64::MAX
}

/// A window after one entry of `level` at `now`, with the latency sample the
/// entry carried, if any.
pub open spec fn entry_view<S>(v: WindowView<S>, level: LogLevel, latency: Option<S>, now: i64) -> WindowView<S> {
    WindowView {
        total_entries: (v.total_entries + 1) as u64,
        pending_errors: if level == LogLevel::Error || level == LogLevel::Fatal {
            (v.pending_errors + 1) as u64
        } else {
            v.pending_errors
        },
        warnings: if level == LogLevel::Warn {
            evicted(v.warnings.push((now, 1u64)), now - v.span_ms)
        } else {
            v.warnings
        },
        latency: match latency {
            Some(x) => evicted(v.latency.push((now, x)), now - v.span_ms),
            None => v.latency,
        },
        ..v
    }
}

/// A window after the tick at `now`: the pending error count enters the
/// error window, and every window drops what has expired.
pub open spec fn tick_view<S>(v: WindowView<S>, now: i64) -> WindowView<S> {
    WindowView {
        errors: evicted(v.errors.push((now, v.pending_errors)), now - v.span_ms),
        pending_errors: 0,
        warnings: evicted(v.warnings, now - v.span_ms),
        memory: evicted(v.memory, now - v.span_ms),
        latency: evicted(v.latency, now - v.span_ms),
        ..v
    }
}

/// The recent messages never exceed the cap, and the newest is always last.
pub proof fn law_recent_messages_capped(msgs: Seq<Seq<char>>, m: Seq<char>)
    requires
        msgs.len() <= RECENT_MESSAGES_CAP,
    ensures
        with_message(msgs, m).len() <= RECENT_MESSAGES_CAP,
        with_message(msgs, m).last() == m,
        with_message(msgs, m).len() == if msgs.len() == RECENT_MESSAGES_CAP {
            msgs.len() as int
        } else {
            (msgs.len() + 1) as int
        },
{
}

} // verus!
