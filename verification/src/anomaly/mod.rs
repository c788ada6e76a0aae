//! The anomaly engine's state: one rolling window per log source, fed with
//! every entry and flushed on every tick. Detectors read the windows after
//! each tick; incidents are grouped by `incident_grouper`.
pub mod rolling_window;
pub mod incident_grouper;
pub mod detectors;
pub mod external_detector;

use vstd::prelude::*;

use crate::json_line::{find_member, member_get, member_view, members_view, JsonMember};
use crate::models::anomaly::{cutoff_fits, evicted, expired_count, lemma_expired_count_bound};
use crate::models::incident::with_id;
use crate::models::log_entry::LogLevel;
use crate::plugin::registry::unique_ids;
use crate::text::{chars_of, copy_strings, eq_str, owned, texts};
use rolling_window::{entry_view, fresh_view, has_room, tick_view, window_seconds_ok, SourceWindow, WindowView};

verus! {

/// How often the windows are flushed and the detectors run, in seconds.
pub const TICK_SECONDS: u64 = 1;

/// After how long without a new anomaly an open incident is resolved, in
/// seconds.
pub const STALE_INCIDENT_SECONDS: u64 = 3600;

/// The windows of every source seen so far, one per source id, in the order
/// the sources were first seen.
pub struct SourceWindows<S> {
    window_seconds: u64,
    ids: Vec<String>,
    windows: Vec<SourceWindow<S>>,
}

impl<S> SourceWindows<S> {
    /// The span, in milliseconds, that every window keeps.
    pub closed spec fn span_ms(&self) -> i64 {
        ((self.window_seconds as i64) * 1000) as i64
    }

    /// The source ids, in the order they were first seen.
    pub closed spec fn ids(&self) -> Seq<Seq<char>> {
        texts(self.ids@)
    }

    /// The window of each source, in the order of `ids`.
    pub closed spec fn views(&self) -> Seq<WindowView<S>> {
        self.windows@.map_values(|w: SourceWindow<S>| w@)
    }

    /// One window per id, no id twice, every window of the common span.
    pub closed spec fn wf(&self) -> bool {
        &&& window_seconds_ok(self.window_seconds)
        &&& self.ids@.len() == self.windows@.len()
        &&& unique_ids(self.ids())
        &&& forall|i: int|
            0 <= i < self.windows@.len() ==> {
                &&& (#[trigger] self.windows@[i]).spans_agree()
                &&& self.windows@[i].error_window.window_ms == self.span_ms()
            }
    }

    /// No window yet; each will keep `window_seconds` seconds.
    pub fn new(window_seconds: u64) -> (r: SourceWindows<S>)
        requires
            window_seconds_ok(window_seconds),
        ensures
            r.wf(),
            r.ids() == Seq::<Seq<char>>::empty(),
            r.views() == Seq::<WindowView<S>>::empty(),
            r.span_ms() == (window_seconds as i64) * 1000,
    {
        let r = SourceWindows { window_seconds, ids: Vec::new(), windows: Vec::new() };
        assert(r.ids() =~= Seq::<Seq<char>>::empty());
        assert(r.views() =~= Seq::<WindowView<S>>::empty());
        r
    }

    /// Where the window of a source is, if it has one.
    fn position(&self, source_id: &str) -> (r: Option<usize>)
        requires
            self.wf(),
        ensures
            match r {
                Some(i) => i < self.ids().len() && self.ids()[i as int] == source_id@,
                None => !self.ids().contains(source_id@),
            },
    {
        let mut i: usize = 0;
        while i < self.ids.len()
            invariant
                i <= self.ids.len(),
                forall|j: int| 0 <= j < i ==> self.ids()[j] != source_id@,
            decreases self.ids.len() - i,
        {
            let here = chars_of(self.ids[i].as_str());
            if eq_str(here.as_slice(), source_id) {
                return Some(i);
            }
            i = i + 1;
        }
        assert(!self.ids().contains(source_id@)) by {
            if self.ids().contains(source_id@) {
                let j = choose|j: int| 0 <= j < self.ids().len() && self.ids()[j] == source_id@;
                assert(j < i);
            }
        }
        None
    }

    /// Whether one more entry of `level` from a source fits its window's
    /// counters.
    pub open spec fn room_for(&self, source_id: Seq<char>, level: LogLevel) -> bool {
        self.ids().contains(source_id) ==> has_room(self.views()[self.ids().index_of(source_id)], level)
    }

    /// Tests `room_for`.
    pub fn can_record(&self, source_id: &str, level: LogLevel) -> (r: bool)
        requires
            self.wf(),
        ensures
            r == self.room_for(source_id@, level),
    {
        match self.position(source_id) {
            Some(i) => {
                proof {
                    self.lemma_index_of(i as int);
                }
                let w = &self.windows[i];
                w.total_entries < u64::MAX && (!(matches!(level, LogLevel::Error) || matches!(level, LogLevel::Fatal))
                    || w.error_count_last_tick < u64::MAX)
            },
            None => true,
        }
    }

    proof fn lemma_index_of(&self, i: int)
        requires
            self.wf(),
            0 <= i < self.ids().len(),
        ensures
            self.ids().index_of(self.ids()[i]) == i,
    {
        let id = self.ids()[i];
        assert(self.ids().contains(id));
        let j = self.ids().index_of(id);
        assert(0 <= j < self.ids().len() && self.ids()[j] == id);
    }

    /// Counts one entry of a source, opening the source's window on its
    /// first entry; a latency sample carried by the entry joins the
    /// latency window.
    pub fn record_entry(&mut self, source_id: &str, level: LogLevel, latency: Option<S>, now: i64)
        requires
            old(self).wf(),
            cutoff_fits(old(self).span_ms(), now),
            old(self).room_for(source_id@, level),
        ensures
            final(self).wf(),
            final(self).span_ms() == old(self).span_ms(),
            final(self).ids() == with_id(old(self).ids(), source_id@),
            final(self).views() == if old(self).ids().contains(source_id@) {
                let i = old(self).ids().index_of(source_id@);
                old(self).views().update(i, entry_view(old(self).views()[i], level, latency, now))
            } else {
                old(self).views().push(entry_view(fresh_view(old(self).span_ms()), level, latency, now))
            },
    {
        let i = match self.position(source_id) {
            Some(i) => {
                proof {
                    self.lemma_index_of(i as int);
                }
                i
            },
            None => {
                let w: SourceWindow<S> = SourceWindow::new(self.window_seconds);
                proof {
                    assert(w@.errors =~= seq![]);
                    assert(w@.warnings =~= seq![]);
                    assert(w@.memory =~= seq![]);
                    assert(w@.latency =~= seq![]);
                    assert(w@.messages =~= seq![]);
                    assert(w@ == fresh_view::<S>(self.span_ms()));
                }
                self.ids.push(owned(source_id));
                self.windows.push(w);
                proof {
                    assert(self.ids() =~= old(self).ids().push(source_id@));
                    assert(self.views() =~= old(self).views().push(fresh_view(old(self).span_ms())));
                    assert forall|a: int, b: int| 0 <= a < b < self.ids().len() implies self.ids()[a]
                        != self.ids()[b] by {
                        if b == self.ids().len() - 1 {
                            assert(old(self).ids()[a] == self.ids()[a]);
                        }
                    }
                    self.lemma_index_of(self.ids().len() - 1);
                }
                self.ids.len() - 1
            },
        };
        let ghost mid = self.views();
        self.windows[i].record_entry_level(level, now);
        match latency {
            Some(x) => {
                self.windows[i].latency_window.push(now, x);
            },
            None => {},
        }
        proof {
            assert(self.ids() == texts(self.ids@));
            assert(self.views() =~= mid.update(i as int, entry_view(mid[i as int], level, latency, now)));
            if old(self).ids().contains(source_id@) {
                assert(self.ids() =~= old(self).ids());
            } else {
                assert(self.ids() =~= old(self).ids().push(source_id@));
                assert(self.views() =~= old(self).views().push(
                    entry_view(fresh_view(old(self).span_ms()), level, latency, now),
                ));
            }
        }
    }

    /// Closes a tick at `now` on every window, and lists the sources in the
    /// order their windows were opened.
    pub fn flush_all(&mut self, now: i64) -> (r: Vec<String>)
        requires
            old(self).wf(),
            cutoff_fits(old(self).span_ms(), now),
        ensures
            final(self).wf(),
            final(self).span_ms() == old(self).span_ms(),
            final(self).ids() == old(self).ids(),
            final(self).views() == old(self).views().map_values(|v: WindowView<S>| tick_view(v, now)),
            texts(r@) == old(self).ids(),
    {
        let mut i: usize = 0;
        while i < self.windows.len()
            invariant
                self.wf(),
                self.window_seconds == old(self).window_seconds,
                self.ids@ == old(self).ids@,
                cutoff_fits(self.span_ms(), now),
                i <= self.windows@.len(),
                self.windows@.len() == old(self).windows@.len(),
                forall|j: int|
                    0 <= j < i ==> #[trigger] self.views()[j] == tick_view(old(self).views()[j], now),
                forall|j: int| i <= j < self.windows@.len() ==> #[trigger] self.views()[j] == old(self).views()[j],
            decreases self.windows.len() - i,
        {
            let ghost before = self.views();
            self.windows[i].flush_tick(now);
            proof {
                assert(self.views() =~= before.update(i as int, tick_view(before[i as int], now)));
            }
            i = i + 1;
        }
        assert(self.views() =~= old(self).views().map_values(|v: WindowView<S>| tick_view(v, now)));
        copy_strings(&self.ids)
    }

    /// The window of a source, if it has one.
    pub fn window(&self, source_id: &str) -> (r: Option<&SourceWindow<S>>)
        requires
            self.wf(),
        ensures
            match r {
                Some(w) => self.ids().contains(source_id@) && w@ == self.views()[self.ids().index_of(
                    source_id@,
                )],
                None => !self.ids().contains(source_id@),
            },
    {
        match self.position(source_id) {
            Some(i) => {
                proof {
                    self.lemma_index_of(i as int);
                }
                Some(&self.windows[i])
            },
            None => None,
        }
    }

    /// The source ids, in the order their windows were opened.
    pub fn source_ids(&self) -> (r: Vec<String>)
        ensures
            texts(r@) == self.ids(),
    {
        copy_strings(&self.ids)
    }
}

/// A source, once seen, keeps its window: recording an entry only ever adds
/// its source at the end of the list, and the list never holds a source
/// twice.
pub proof fn law_sources_are_kept_once(ids: Seq<Seq<char>>, id: Seq<char>)
    requires
        unique_ids(ids),
    ensures
        with_id(ids, id).take(ids.len() as int) == ids,
        with_id(ids, id).contains(id),
        unique_ids(with_id(ids, id)),
{
    if !ids.contains(id) {
        assert(ids.push(id).take(ids.len() as int) =~= ids);
        assert(ids.push(id)[ids.len() as int] == id);
    } else {
        assert(ids.take(ids.len() as int) =~= ids);
    }
}

/// Each tick records its error count: after the tick at `now`, no errors
/// are pending, and (for a window of non-negative span) the newest item of
/// the error window is the count the tick closed, stamped `now`.
pub proof fn law_tick_records_its_error_count<S>(v: WindowView<S>, now: i64)
    requires
        v.span_ms >= 0,
    ensures
        tick_view(v, now).pending_errors == 0,
        tick_view(v, now).errors.len() > 0,
        tick_view(v, now).errors.last() == (now, v.pending_errors),
{
    let all = v.errors.push((now, v.pending_errors));
    let cutoff = now - v.span_ms;
    lemma_expired_count_bound(all, cutoff);
    let k = expired_count(all, cutoff) as int;
    if k == all.len() {
        assert(all[all.len() - 1].0 < cutoff);
    }
    assert(evicted(all, cutoff).last() == all.last());
}

/// The structured field an entry's latency is read from: the first
/// `latency_ms` member, or else the first `duration_ms` member.
pub fn latency_field(fields: &Vec<JsonMember>) -> (r: Option<usize>)
    ensures
        match r {
            Some(i) => i < fields@.len() && if member_get(members_view(fields@), "latency_ms"@) is Some {
                fields@[i as int].key@ == "latency_ms"@ && member_get(members_view(fields@), "latency_ms"@)
                    == Some(member_view(fields@[i as int]).1)
            } else {
                fields@[i as int].key@ == "duration_ms"@ && member_get(members_view(fields@), "duration_ms"@)
                    == Some(member_view(fields@[i as int]).1)
            },
            None => member_get(members_view(fields@), "latency_ms"@) is None && member_get(
                members_view(fields@),
                "duration_ms"@,
            ) is None,
        },
{
    match find_member(fields, "latency_ms") {
        Some(i) => Some(i),
        None => find_member(fields, "duration_ms"),
    }
}

} // verus!
