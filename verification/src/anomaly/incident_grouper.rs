//! Correlates anomalies into incidents: an anomaly joins the most recently
//! seen open incident of its source (or a fresh one) within the correlation
//! window, and opens a new incident otherwise.
use vstd::prelude::*;

use vstd::string::StringSliceAdditionalSpecFns;
use vstd::utf8::{decode_utf8, encode_utf8, is_char_boundary};

use crate::anomaly::rolling_window::window_seconds_ok;
use crate::clock::{new_id, now_millis};
use crate::models::anomaly::{AnomalyKind, Severity};
use crate::models::incident::{same_incident, with_id, Incident, IncidentStatus};
use crate::text::{contains_string, push_str, string_of, texts};

verus! {

/// What grouping needs to know of an anomaly. `deviation_text` is its
/// deviation factor as the title shows it, with one decimal.
#[derive(Clone, Debug)]
pub struct AnomalySummary {
    pub id: String,
    pub kind: AnomalyKind,
    pub source_id: String,
    pub severity: Severity,
    pub deviation_text: String,
}

/// How many bytes of a source id a title shows: at most twenty, counted as
/// `str::len` counts them.
pub open spec fn title_cut(source_id: Seq<char>) -> int {
    let n = encode_utf8(source_id).len() as usize;
    if n < 20 {
        n as int
    } else {
        20
    }
}

/// Whether a title can show a source id: its first twenty bytes end on a
/// character boundary.
pub open spec fn title_cut_ok(source_id: Seq<char>) -> bool {
    is_char_boundary(encode_utf8(source_id), title_cut(source_id))
}

/// The title of the incident an anomaly opens: its kind, deviation and the
/// first twenty bytes of its source id.
pub open spec fn title_text(a: AnomalySummary) -> Seq<char> {
    a.kind.label_text() + " detected ("@ + a.deviation_text@ + "x baseline) on "@ + decode_utf8(
        encode_utf8(a.source_id@).take(title_cut(a.source_id@)),
    )
}

/// Whether an open incident can take an anomaly at `now`: seen within the
/// window, and of the anomaly's source or still without anomalies.
pub open spec fn is_candidate(i: Incident, a: AnomalySummary, now: i64, window_ms: i64) -> bool {
    i.last_seen + window_ms >= now && (texts(i.source_ids@).contains(a.source_id@) || i.anomaly_ids@.len()
        == 0)
}

/// The candidate among the first `n` incidents seen last most recently, the
/// later one on a tie; -1 where there is none.
pub open spec fn best_candidate(incs: Seq<Incident>, n: int, a: AnomalySummary, now: i64, window_ms: i64) -> int
    decreases n,
{
    if n <= 0 {
        -1
    } else {
        let b = best_candidate(incs, n - 1, a, now, window_ms);
        if is_candidate(incs[n - 1], a, now, window_ms) && (b == -1 || incs[n - 1].last_seen
            >= incs[b].last_seen) {
            n - 1
        } else {
            b
        }
    }
}

proof fn lemma_best_candidate(incs: Seq<Incident>, n: int, a: AnomalySummary, now: i64, window_ms: i64)
    requires
        0 <= n <= incs.len(),
    ensures
        -1 <= best_candidate(incs, n, a, now, window_ms) < n,
        best_candidate(incs, n, a, now, window_ms) >= 0 ==> is_candidate(
            incs[best_candidate(incs, n, a, now, window_ms)],
            a,
            now,
            window_ms,
        ),
        best_candidate(incs, n, a, now, window_ms) == -1 ==> forall|j: int|
            0 <= j < n ==> !is_candidate(#[trigger] incs[j], a, now, window_ms),
        best_candidate(incs, n, a, now, window_ms) >= 0 ==> forall|j: int|
            0 <= j < n && is_candidate(#[trigger] incs[j], a, now, window_ms) ==> incs[j].last_seen
                <= incs[best_candidate(incs, n, a, now, window_ms)].last_seen,
    decreases n,
{
    if n > 0 {
        lemma_best_candidate(incs, n - 1, a, now, window_ms);
    }
}

/// An incident after taking an anomaly at `now`.
pub open spec fn joined(old_i: Incident, new_i: Incident, a: AnomalySummary, now: i64) -> bool {
    &&& texts(new_i.anomaly_ids@) == with_id(texts(old_i.anomaly_ids@), a.id@)
    &&& texts(new_i.source_ids@) == with_id(texts(old_i.source_ids@), a.source_id@)
    &&& new_i.severity == Severity::worst(old_i.severity, a.severity)
    &&& new_i.last_seen == now
    &&& new_i.event_count == old_i.event_count + 1
    &&& new_i.id == old_i.id
    &&& new_i.title == old_i.title
    &&& new_i.status == old_i.status
    &&& new_i.first_seen == old_i.first_seen
    &&& new_i.ai_analysis_id == old_i.ai_analysis_id
    &&& new_i.notes@ == old_i.notes@
}

/// The incident an anomaly opens at `now` under the given id.
pub open spec fn opened(i: Incident, a: AnomalySummary, now: i64, id: String) -> bool {
    &&& i.id == id
    &&& i.title@ == title_text(a)
    &&& i.status == IncidentStatus::Open
    &&& i.severity == a.severity
    &&& texts(i.anomaly_ids@) == seq![a.id@]
    &&& texts(i.source_ids@) == seq![a.source_id@]
    &&& i.first_seen == now
    &&& i.last_seen == now
    &&& i.event_count == 2
    &&& i.ai_analysis_id is None
    &&& i.notes@.len() == 0
}

/// The incidents seen last before the cutoff, in order.
pub open spec fn stale_of(incs: Seq<Incident>, cutoff: int) -> Seq<Incident>
    decreases incs.len(),
{
    if incs.len() == 0 {
        incs
    } else if incs.last().last_seen < cutoff {
        stale_of(incs.drop_last(), cutoff).push(incs.last())
    } else {
        stale_of(incs.drop_last(), cutoff)
    }
}

/// The incidents seen last at or after the cutoff, in order.
pub open spec fn fresh_of(incs: Seq<Incident>, cutoff: int) -> Seq<Incident>
    decreases incs.len(),
{
    if incs.len() == 0 {
        incs
    } else if incs.last().last_seen < cutoff {
        fresh_of(incs.drop_last(), cutoff)
    } else {
        fresh_of(incs.drop_last(), cutoff).push(incs.last())
    }
}

/// Whether grouping an anomaly at `now` took `before` to `after` and
/// answered `r`: the anomaly joined the best candidate, which gained its id
/// and source and took the worse severity, all other incidents unchanged;
/// or, with no candidate, a new incident under `id` was appended.
pub open spec fn grouped(
    before: IncidentGrouper,
    after: IncidentGrouper,
    anomaly: AnomalySummary,
    now: i64,
    id: String,
    r: (Incident, bool),
) -> bool {
    let k = best_candidate(
        before.open_incidents@,
        before.open_incidents@.len() as int,
        anomaly,
        now,
        before.correlation_window_ms,
    );
    &&& after.correlation_window_ms == before.correlation_window_ms
    &&& if k >= 0 {
        &&& !r.1
        &&& after.open_incidents@.len() == before.open_incidents@.len()
        &&& forall|j: int|
            0 <= j < before.open_incidents@.len() && j != k ==> #[trigger] after.open_incidents@[j]
                == before.open_incidents@[j]
        &&& joined(before.open_incidents@[k], after.open_incidents@[k], anomaly, now)
        &&& same_incident(r.0, after.open_incidents@[k])
    } else {
        &&& r.1
        &&& after.open_incidents@.len() == before.open_incidents@.len() + 1
        &&& after.open_incidents@.take(before.open_incidents@.len() as int) == before.open_incidents@
        &&& opened(after.open_incidents@.last(), anomaly, now, id)
        &&& same_incident(r.0, after.open_incidents@.last())
    }
}

pub struct IncidentGrouper {
    /// Open incidents, in the order they were opened.
    pub open_incidents: Vec<Incident>,
    /// The correlation window in milliseconds.
    pub correlation_window_ms: i64,
}

impl IncidentGrouper {
    /// A grouper with no open incidents, correlating within the given span.
    pub fn new(incident_correlation_window_seconds: u64) -> (r: IncidentGrouper)
        requires
            window_seconds_ok(incident_correlation_window_seconds),
        ensures
            r.open_incidents@.len() == 0,
            r.correlation_window_ms == (incident_correlation_window_seconds as i64) * 1000,
    {
        let secs: i64 = incident_correlation_window_seconds as i64;
        IncidentGrouper { open_incidents: Vec::new(), correlation_window_ms: secs * 1000 }
    }

    /// The title of the incident an anomaly opens.
    pub fn generate_title(anomaly: &AnomalySummary) -> (r: String)
        requires
            title_cut_ok(anomaly.source_id@),
        ensures
            r@ == title_text(*anomaly),
    {
        let src: &str = anomaly.source_id.as_str();
        let n: usize = src.len();
        let cut: usize = if n < 20 {
            n
        } else {
            20
        };
        assert(src.spec_bytes() == encode_utf8(src@));
        assert(cut == title_cut(anomaly.source_id@));
        let (head, _) = src.split_at(cut);
        proof {
            vstd::utf8::encode_utf8_decode_utf8(head@);
            assert(head.spec_bytes() == encode_utf8(head@));
            assert(encode_utf8(src@).take(cut as int) =~= encode_utf8(src@).subrange(0, cut as int));
            assert(head@ == decode_utf8(encode_utf8(anomaly.source_id@).take(title_cut(anomaly.source_id@))));
        }
        let mut t: Vec<char> = Vec::new();
        push_str(&mut t, anomaly.kind.label());
        push_str(&mut t, " detected (");
        push_str(&mut t, anomaly.deviation_text.as_str());
        push_str(&mut t, "x baseline) on ");
        push_str(&mut t, head);
        string_of(t.as_slice())
    }

    /// Where the best candidate for an anomaly at `now` is, if any.
    pub fn best_index(&self, anomaly: &AnomalySummary, now: i64) -> (r: Option<usize>)
        ensures
            match r {
                Some(k) => k as int == best_candidate(
                    self.open_incidents@,
                    self.open_incidents@.len() as int,
                    *anomaly,
                    now,
                    self.correlation_window_ms,
                ),
                None => best_candidate(
                    self.open_incidents@,
                    self.open_incidents@.len() as int,
                    *anomaly,
                    now,
                    self.correlation_window_ms,
                ) == -1,
            },
    {
        let mut best: Option<usize> = None;
        let mut i: usize = 0;
        while i < self.open_incidents.len()
            invariant
                i <= self.open_incidents.len(),
                match best {
                    Some(k) => k < i && k as int == best_candidate(
                        self.open_incidents@,
                        i as int,
                        *anomaly,
                        now,
                        self.correlation_window_ms,
                    ),
                    None => best_candidate(
                        self.open_incidents@,
                        i as int,
                        *anomaly,
                        now,
                        self.correlation_window_ms,
                    ) == -1,
                },
            decreases self.open_incidents.len() - i,
        {
            let inc = &self.open_incidents[i];
            let w: i128 = inc.last_seen as i128 + self.correlation_window_ms as i128;
            let fresh = w >= now as i128;
            let candidate = fresh && (contains_string(&inc.source_ids, anomaly.source_id.as_str())
                || inc.anomaly_ids.len() == 0);
            if candidate {
                match best {
                    Some(k) => {
                        if inc.last_seen >= self.open_incidents[k].last_seen {
                            best = Some(i);
                        }
                    },
                    None => {
                        best = Some(i);
                    },
                }
            }
            i = i + 1;
        }
        best
    }

    /// Whether grouping an anomaly at `now` stays within the limits: the
    /// incident it joins can count one more event, and where it opens a new
    /// incident the title can cut the source id at a character boundary.
    pub open spec fn can_group_at(self, anomaly: AnomalySummary, now: i64) -> bool {
        let k = best_candidate(
            self.open_incidents@,
            self.open_incidents@.len() as int,
            anomaly,
            now,
            self.correlation_window_ms,
        );
        &&& k >= 0 ==> self.open_incidents@[k].event_count < u64::MAX
        &&& k < 0 ==> title_cut_ok(anomaly.source_id@)
    }

    /// Groups an anomaly at `now`: it joins the best candidate incident,
    /// which gains its id and source and takes the worse severity, or it
    /// opens a new incident with the given id. Returns the incident as it is
    /// now, and whether it is new.
    pub fn process_anomaly_at(&mut self, anomaly: &AnomalySummary, now: i64, new_incident_id: String) -> (r: (
        Incident,
        bool,
    ))
        requires
            old(self).can_group_at(*anomaly, now),
        ensures
            grouped(*old(self), *final(self), *anomaly, now, new_incident_id, r),
    {
        proof {
            lemma_best_candidate(
                self.open_incidents@,
                self.open_incidents@.len() as int,
                *anomaly,
                now,
                self.correlation_window_ms,
            );
        }
        match self.best_index(anomaly, now) {
            Some(k) => {
                let mut inc = self.open_incidents[k].duplicate();
                inc.add_anomaly_at(anomaly.id.as_str(), now);
                if !contains_string(&inc.source_ids, anomaly.source_id.as_str()) {
                    inc.source_ids.push(anomaly.source_id.clone());
                    assert(texts(inc.source_ids@) =~= texts(old(self).open_incidents@[k as int].source_ids@).push(
                        anomaly.source_id@,
                    ));
                }
                if anomaly.severity.rank() > inc.severity.rank() {
                    inc.severity = anomaly.severity;
                }
                let result = inc.duplicate();
                self.open_incidents.set(k, inc);
                (result, false)
            },
            None => {
                let title = IncidentGrouper::generate_title(anomaly);
                let mut sources: Vec<String> = Vec::new();
                sources.push(anomaly.source_id.clone());
                assert(texts(sources@) =~= seq![anomaly.source_id@]);
                let mut inc = Incident::new_at(new_incident_id, title, anomaly.severity, sources, now);
                inc.add_anomaly_at(anomaly.id.as_str(), now);
                assert(texts(inc.anomaly_ids@) =~= seq![anomaly.id@]);
                let result = inc.duplicate();
                self.open_incidents.push(inc);
                assert(self.open_incidents@.take(old(self).open_incidents@.len() as int)
                    =~= old(self).open_incidents@);
                (result, true)
            },
        }
    }

    /// Groups an anomaly now, opening an incident with a fresh random id
    /// where none takes it.
    pub fn process_anomaly(&mut self, anomaly: &AnomalySummary) -> (r: (Incident, bool))
        requires
            forall|now: i64| #[trigger] old(self).can_group_at(*anomaly, now),
        ensures
            exists|now: i64, id: String| grouped(*old(self), *final(self), *anomaly, now, id, r),
    {
        let now = now_millis();
        let id = new_id();
        let ghost gid = id;
        proof {
            lemma_best_candidate(
                self.open_incidents@,
                self.open_incidents@.len() as int,
                *anomaly,
                now,
                self.correlation_window_ms,
            );
        }
        assert(self.can_group_at(*anomaly, now));
        let r = self.process_anomaly_at(anomaly, now, id);
        assert(grouped(*old(self), *self, *anomaly, now, gid, r));
        r
    }

    /// Closes the incidents last seen more than `max_age_seconds` before
    /// `now`, and returns them in order.
    pub fn resolve_stale_incidents_at(&mut self, max_age_seconds: u64, now: i64) -> (r: Vec<Incident>)
        requires
            window_seconds_ok(max_age_seconds),
            i64::MIN <= now - (max_age_seconds as i64) * 1000 <= i64::MAX,
        ensures
            final(self).correlation_window_ms == old(self).correlation_window_ms,
            r@ == stale_of(old(self).open_incidents@, now - (max_age_seconds as i64) * 1000),
            final(self).open_incidents@ == fresh_of(old(self).open_incidents@, now - (max_age_seconds as i64) * 1000),
    {
        let secs: i64 = max_age_seconds as i64;
        let cutoff: i64 = now - secs * 1000;
        let mut all: Vec<Incident> = Vec::new();
        std::mem::swap(&mut all, &mut self.open_incidents);
        let ghost start = all@;
        let mut stale: Vec<Incident> = Vec::new();
        let mut fresh: Vec<Incident> = Vec::new();
        assert(stale_of(start, cutoff as int) =~= stale_of(all@, cutoff as int) + stale@);
        assert(fresh_of(start, cutoff as int) =~= fresh_of(all@, cutoff as int) + fresh@);
        // Walk from the back, moving each incident out.
        while all.len() > 0
            invariant
                stale_of(start, cutoff as int) == stale_of(all@, cutoff as int) + stale@,
                fresh_of(start, cutoff as int) == fresh_of(all@, cutoff as int) + fresh@,
            decreases all@.len(),
        {
            let ghost before = all@;
            let inc = all.pop().unwrap();
            assert(before.drop_last() =~= all@);
            if inc.last_seen < cutoff {
                let mut one: Vec<Incident> = Vec::new();
                one.push(inc);
                one.append(&mut stale);
                stale = one;
                assert(stale_of(start, cutoff as int) =~= stale_of(all@, cutoff as int) + stale@);
                assert(fresh_of(before, cutoff as int) == fresh_of(all@, cutoff as int));
            } else {
                let mut one: Vec<Incident> = Vec::new();
                one.push(inc);
                one.append(&mut fresh);
                fresh = one;
                assert(fresh_of(start, cutoff as int) =~= fresh_of(all@, cutoff as int) + fresh@);
                assert(stale_of(before, cutoff as int) == stale_of(all@, cutoff as int));
            }
        }
        self.open_incidents = fresh;
        stale
    }

    pub fn get_open_incident_count(&self) -> (r: usize)
        ensures
            r == self.open_incidents@.len(),
    {
        self.open_incidents.len()
    }
}

/// The incident an anomaly is grouped into holds it: the anomaly's id and
/// source are listed, its severity is at least the anomaly's, and a new
/// incident holds this anomaly alone.
pub proof fn law_grouped_incident_holds_the_anomaly(
    before: IncidentGrouper,
    after: IncidentGrouper,
    anomaly: AnomalySummary,
    now: i64,
    id: String,
    r: (Incident, bool),
)
    requires
        grouped(before, after, anomaly, now, id, r),
    ensures
        texts(r.0.anomaly_ids@).contains(anomaly.id@),
        texts(r.0.source_ids@).contains(anomaly.source_id@),
        r.0.severity.level() >= anomaly.severity.level(),
        r.1 ==> texts(r.0.anomaly_ids@) == seq![anomaly.id@],
{
    let k = best_candidate(
        before.open_incidents@,
        before.open_incidents@.len() as int,
        anomaly,
        now,
        before.correlation_window_ms,
    );
    if k < 0 {
        assert(seq![anomaly.id@][0] == anomaly.id@);
        assert(seq![anomaly.source_id@][0] == anomaly.source_id@);
    } else {
        let o = before.open_incidents@[k];
        if !texts(o.anomaly_ids@).contains(anomaly.id@) {
            assert(texts(o.anomaly_ids@).push(anomaly.id@)[texts(o.anomaly_ids@).len() as int] == anomaly.id@);
        }
        if !texts(o.source_ids@).contains(anomaly.source_id@) {
            assert(texts(o.source_ids@).push(anomaly.source_id@)[texts(o.source_ids@).len() as int]
                == anomaly.source_id@);
        }
    }
}

/// An anomaly joins an open incident only where that incident was seen
/// within the correlation window and already lists the anomaly's source or
/// holds no anomaly yet; of all such incidents it joins one seen last, and
/// every other incident stays as it was. Where no open incident qualifies,
/// it opens a new one and the open incidents before stay as they were.
pub proof fn law_anomaly_joins_only_a_correlated_incident(
    before: IncidentGrouper,
    after: IncidentGrouper,
    anomaly: AnomalySummary,
    now: i64,
    id: String,
    r: (Incident, bool),
)
    requires
        grouped(before, after, anomaly, now, id, r),
    ensures
        !r.1 ==> exists|k: int| {
            let o = #[trigger] before.open_incidents@[k];
            &&& 0 <= k < before.open_incidents@.len()
            &&& o.last_seen + before.correlation_window_ms >= now
            &&& (texts(o.source_ids@).contains(anomaly.source_id@) || o.anomaly_ids@.len() == 0)
            &&& forall|j: int|
                0 <= j < before.open_incidents@.len() && (#[trigger] before.open_incidents@[j]).last_seen
                    + before.correlation_window_ms >= now && (texts(before.open_incidents@[j].source_ids@).contains(
                    anomaly.source_id@,
                ) || before.open_incidents@[j].anomaly_ids@.len() == 0) ==> before.open_incidents@[j].last_seen
                    <= o.last_seen
            &&& joined(o, after.open_incidents@[k], anomaly, now)
            &&& after.open_incidents@.len() == before.open_incidents@.len()
            &&& forall|j: int|
                0 <= j < before.open_incidents@.len() && j != k ==> #[trigger] after.open_incidents@[j]
                    == before.open_incidents@[j]
        },
        r.1 ==> forall|j: int|
            0 <= j < before.open_incidents@.len() ==> !((#[trigger] before.open_incidents@[j]).last_seen
                + before.correlation_window_ms >= now && (texts(before.open_incidents@[j].source_ids@).contains(
                anomaly.source_id@,
            ) || before.open_incidents@[j].anomaly_ids@.len() == 0)),
        r.1 ==> after.open_incidents@.take(before.open_incidents@.len() as int) == before.open_incidents@,
{
    let incs = before.open_incidents@;
    lemma_best_candidate(incs, incs.len() as int, anomaly, now, before.correlation_window_ms);
    let k = best_candidate(incs, incs.len() as int, anomaly, now, before.correlation_window_ms);
    if k >= 0 {
        assert(is_candidate(incs[k], anomaly, now, before.correlation_window_ms));
        assert forall|j: int|
            0 <= j < incs.len() && (#[trigger] incs[j]).last_seen + before.correlation_window_ms >= now && (texts(
                incs[j].source_ids@,
            ).contains(anomaly.source_id@) || incs[j].anomaly_ids@.len() == 0) implies incs[j].last_seen
            <= incs[k].last_seen by {
            assert(is_candidate(incs[j], anomaly, now, before.correlation_window_ms));
        }
        assert(incs[k] == before.open_incidents@[k]);
    } else {
        assert forall|j: int| 0 <= j < incs.len() implies !((#[trigger] incs[j]).last_seen
            + before.correlation_window_ms >= now && (texts(incs[j].source_ids@).contains(anomaly.source_id@)
            || incs[j].anomaly_ids@.len() == 0)) by {
            assert(!is_candidate(incs[j], anomaly, now, before.correlation_window_ms));
        }
    }
}

/// An incident's severity only ever rises: after taking an anomaly it is at
/// least its own and at least the anomaly's.
pub proof fn law_severity_only_escalates(current: Severity, incoming: Severity)
    ensures
        Severity::worst(current, incoming).level() >= current.level(),
        Severity::worst(current, incoming).level() >= incoming.level(),
        Severity::worst(current, incoming) == current || Severity::worst(current, incoming) == incoming,
{
}

/// No id occurs twice in a list.
pub open spec fn no_repeats(ids: Seq<Seq<char>>) -> bool {
    forall|i: int, j: int| 0 <= i < j < ids.len() ==> ids[i] != ids[j]
}

/// An incident never lists an anomaly or a source twice: adding an id keeps
/// a list without repeats, and the id is in it afterwards.
pub proof fn law_ids_listed_once(ids: Seq<Seq<char>>, id: Seq<char>)
    requires
        no_repeats(ids),
    ensures
        no_repeats(with_id(ids, id)),
        with_id(ids, id).contains(id),
{
    if !ids.contains(id) {
        assert(ids.push(id)[ids.len() as int] == id);
    }
}

/// Resolving stale incidents splits the open ones: each goes to exactly one
/// side, the stale ones were last seen before the cutoff and the kept ones
/// at or after it.
pub proof fn law_stale_split(incs: Seq<Incident>, cutoff: int)
    ensures
        stale_of(incs, cutoff).len() + fresh_of(incs, cutoff).len() == incs.len(),
        forall|i: int| 0 <= i < stale_of(incs, cutoff).len() ==> #[trigger] stale_of(incs, cutoff)[i].last_seen < cutoff,
        forall|i: int| 0 <= i < fresh_of(incs, cutoff).len() ==> #[trigger] fresh_of(incs, cutoff)[i].last_seen >= cutoff,
    decreases incs.len(),
{
    if incs.len() > 0 {
        law_stale_split(incs.drop_last(), cutoff);
        let s0 = stale_of(incs.drop_last(), cutoff);
        let f0 = fresh_of(incs.drop_last(), cutoff);
        if incs.last().last_seen < cutoff {
            assert forall|i: int| 0 <= i < stale_of(incs, cutoff).len() implies #[trigger] stale_of(incs, cutoff)[i].last_seen < cutoff by {
                if i < s0.len() {
                    assert(stale_of(incs, cutoff)[i] == s0[i]);
                }
            }
        } else {
            assert forall|i: int| 0 <= i < fresh_of(incs, cutoff).len() implies #[trigger] fresh_of(incs, cutoff)[i].last_seen >= cutoff by {
                if i < f0.len() {
                    assert(fresh_of(incs, cutoff)[i] == f0[i]);
                }
            }
        }
    }
}

} // verus!
