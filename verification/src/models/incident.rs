//! Incidents: groups of related anomalies, with their status and notes.
use vstd::prelude::*;

use crate::clock::{new_id, now_millis};
use crate::models::anomaly::Severity;
use crate::text::{contains_string, copy_strings, owned, texts};

verus! {

#[derive(Clone, Copy, Debug, PartialEq, Eq, Structural)]
pub enum IncidentStatus {
    Open,
    Investigating,
    Resolved,
    Suppressed,
}

impl Default for IncidentStatus {
    fn default() -> (r: Self)
        ensures
            r == IncidentStatus::Open,
    {
        IncidentStatus::Open
    }
}

#[derive(Clone, Debug)]
pub struct IncidentNote {
    pub id: String,
    /// Milliseconds since the Unix epoch.
    pub created_at: i64,
    pub text: String,
}

#[derive(Clone, Debug)]
pub struct Incident {
    pub id: String,
    pub title: String,
    pub status: IncidentStatus,
    pub severity: Severity,
    pub anomaly_ids: Vec<String>,
    pub source_ids: Vec<String>,
    /// Milliseconds since the Unix epoch.
    pub first_seen: i64,
    /// Milliseconds since the Unix epoch.
    pub last_seen: i64,
    pub event_count: u64,
    pub ai_analysis_id: Option<String>,
    pub notes: Vec<IncidentNote>,
}

/// `ids` with `id` appended unless it is already there.
pub open spec fn with_id(ids: Seq<Seq<char>>, id: Seq<char>) -> Seq<Seq<char>> {
    if ids.contains(id) {
        ids
    } else {
        ids.push(id)
    }
}

impl IncidentNote {
    pub fn duplicate(&self) -> (r: IncidentNote)
        ensures
            r == *self,
    {
        IncidentNote { id: self.id.clone(), created_at: self.created_at, text: self.text.clone() }
    }
}

/// A copy of the notes of an incident.
pub fn copy_notes(v: &Vec<IncidentNote>) -> (r: Vec<IncidentNote>)
    ensures
        r@ == v@,
{
    let mut r: Vec<IncidentNote> = Vec::new();
    let mut i: usize = 0;
    while i < v.len()
        invariant
            i <= v.len(),
            r@ == v@.take(i as int),
        decreases v.len() - i,
    {
        r.push(v[i].duplicate());
        i = i + 1;
        assert(r@ =~= v@.take(i as int));
    }
    assert(v@.take(v.len() as int) =~= v@);
    r
}

/// Two incidents hold the same values, list by list.
pub open spec fn same_incident(a: Incident, b: Incident) -> bool {
    &&& a.id == b.id
    &&& a.title == b.title
    &&& a.status == b.status
    &&& a.severity == b.severity
    &&& a.anomaly_ids@ == b.anomaly_ids@
    &&& a.source_ids@ == b.source_ids@
    &&& a.first_seen == b.first_seen
    &&& a.last_seen == b.last_seen
    &&& a.event_count == b.event_count
    &&& a.ai_analysis_id == b.ai_analysis_id
    &&& a.notes@ == b.notes@
}

impl Incident {
    /// A copy of the incident.
    pub fn duplicate(&self) -> (r: Incident)
        ensures
            same_incident(r, *self),
    {
        let ai = match &self.ai_analysis_id {
            Some(s) => Some(s.clone()),
            None => None,
        };
        Incident {
            id: self.id.clone(),
            title: self.title.clone(),
            status: self.status,
            severity: self.severity,
            anomaly_ids: copy_strings(&self.anomaly_ids),
            source_ids: copy_strings(&self.source_ids),
            first_seen: self.first_seen,
            last_seen: self.last_seen,
            event_count: self.event_count,
            ai_analysis_id: ai,
            notes: copy_notes(&self.notes),
        }
    }

    /// An open incident seen first and last at `now`, with one event, no
    /// anomalies yet, no analysis and no notes.
    pub fn new_at(id: String, title: String, severity: Severity, source_ids: Vec<String>, now: i64) -> (r: Incident)
        ensures
            r.id == id,
            r.title == title,
            r.status == IncidentStatus::Open,
            r.severity == severity,
            r.anomaly_ids@.len() == 0,
            r.source_ids == source_ids,
            r.first_seen == now,
            r.last_seen == now,
            r.event_count == 1,
            r.ai_analysis_id is None,
            r.notes@.len() == 0,
    {
        Incident {
            id,
            title,
            status: IncidentStatus::Open,
            severity,
            anomaly_ids: Vec::new(),
            source_ids,
            first_seen: now,
            last_seen: now,
            event_count: 1,
            ai_analysis_id: None,
            notes: Vec::new(),
        }
    }

    /// As `new_at`, with a fresh random id and the current time.
    pub fn new(title: String, severity: Severity, source_ids: Vec<String>) -> (r: Incident)
        ensures
            r.title == title,
            r.status == IncidentStatus::Open,
            r.severity == severity,
            r.anomaly_ids@.len() == 0,
            r.source_ids == source_ids,
            r.first_seen == r.last_seen,
            r.event_count == 1,
            r.ai_analysis_id is None,
            r.notes@.len() == 0,
    {
        let id = new_id();
        let now = now_millis();
        Incident::new_at(id, title, severity, source_ids, now)
    }

    /// Records one more event of an anomaly at `now`: the anomaly id is kept
    /// once, the incident is seen last at `now` and counts one more event.
    pub fn add_anomaly_at(&mut self, anomaly_id: &str, now: i64)
        requires
            old(self).event_count < u64::MAX,
        ensures
            texts(final(self).anomaly_ids@) == with_id(texts(old(self).anomaly_ids@), anomaly_id@),
            final(self).last_seen == now,
            final(self).event_count == old(self).event_count + 1,
            final(self).id == old(self).id,
            final(self).title == old(self).title,
            final(self).status == old(self).status,
            final(self).severity == old(self).severity,
            final(self).source_ids == old(self).source_ids,
            final(self).first_seen == old(self).first_seen,
            final(self).ai_analysis_id == old(self).ai_analysis_id,
            final(self).notes == old(self).notes,
    {
        if !contains_string(&self.anomaly_ids, anomaly_id) {
            self.anomaly_ids.push(owned(anomaly_id));
            assert(texts(self.anomaly_ids@) =~= texts(old(self).anomaly_ids@).push(anomaly_id@));
        }
        self.last_seen = now;
        self.event_count = self.event_count + 1;
    }

    /// As `add_anomaly_at`, at the current time.
    pub fn add_anomaly(&mut self, anomaly_id: &str)
        requires
            old(self).event_count < u64::MAX,
        ensures
            texts(final(self).anomaly_ids@) == with_id(texts(old(self).anomaly_ids@), anomaly_id@),
            final(self).event_count == old(self).event_count + 1,
            final(self).id == old(self).id,
            final(self).title == old(self).title,
            final(self).status == old(self).status,
            final(self).severity == old(self).severity,
            final(self).source_ids == old(self).source_ids,
            final(self).first_seen == old(self).first_seen,
            final(self).ai_analysis_id == old(self).ai_analysis_id,
            final(self).notes == old(self).notes,
    {
        let now = now_millis();
        self.add_anomaly_at(anomaly_id, now);
    }

    /// Appends a note with the given id, time and text.
    pub fn add_note_at(&mut self, id: String, now: i64, text: String)
        ensures
            final(self).notes@ == old(self).notes@.push(IncidentNote { id, created_at: now, text }),
            final(self).anomaly_ids == old(self).anomaly_ids,
            final(self).last_seen == old(self).last_seen,
            final(self).event_count == old(self).event_count,
            final(self).severity == old(self).severity,
            final(self).status == old(self).status,
    {
        self.notes.push(IncidentNote { id, created_at: now, text });
    }

    /// Appends a note with a fresh random id, written now.
    pub fn add_note(&mut self, text: String)
        ensures
            final(self).notes@.len() == old(self).notes@.len() + 1,
            final(self).notes@.take(old(self).notes@.len() as int) == old(self).notes@,
            final(self).notes@.last().text == text,
            final(self).anomaly_ids == old(self).anomaly_ids,
            final(self).last_seen == old(self).last_seen,
            final(self).event_count == old(self).event_count,
            final(self).severity == old(self).severity,
            final(self).status == old(self).status,
    {
        let id = new_id();
        let now = now_millis();
        self.add_note_at(id, now, text);
        assert(self.notes@.take(old(self).notes@.len() as int) =~= old(self).notes@);
    }

    /// Whether an analysis should start by itself: the incident is at least
    /// high, has three or more anomalies and has not been analysed yet.
    pub open spec fn wants_ai(self) -> bool {
        self.severity.level() >= Severity::High.level() && self.anomaly_ids@.len() >= 3
            && self.ai_analysis_id is None
    }

    pub fn should_trigger_ai(&self) -> (r: bool)
        ensures
            r == self.wants_ai(),
    {
        self.severity.rank() >= 2 && self.anomaly_ids.len() >= 3 && self.ai_analysis_id.is_none()
    }
}

#[derive(Clone, Debug)]
pub struct IncidentFilter {
    pub status: Option<Vec<IncidentStatus>>,
    pub severity: Option<Vec<Severity>>,
    pub source_id: Option<String>,
    pub limit: Option<usize>,
    pub offset: Option<usize>,
}

impl Default for IncidentFilter {
    /// No status, severity or source restriction; the first fifty incidents.
    fn default() -> (r: Self)
        ensures
            r.status is None,
            r.severity is None,
            r.source_id is None,
            r.limit == Some(50usize),
            r.offset == Some(0usize),
    {
        IncidentFilter { status: None, severity: None, source_id: None, limit: Some(50), offset: Some(0) }
    }
}

/// An analysis starts by itself exactly for an incident of high or critical
/// severity that holds three or more anomalies and has no analysis yet.
pub proof fn law_ai_trigger(i: Incident)
    ensures
        i.wants_ai() <==> ((i.severity == Severity::High || i.severity == Severity::Critical) && i.anomaly_ids@.len()
            >= 3 && i.ai_analysis_id is None),
{
}

} // verus!
