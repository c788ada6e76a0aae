//! The prompt an incident is analysed with. The lines describing detected
//! anomalies show floating-point values and are written by the caller; the
//! rest of the prompt is built here.
use vstd::prelude::*;

use crate::clock::{format_utc_timestamp, utc_timestamp_text};
use crate::models::anomaly::Severity;
use crate::models::incident::{Incident, IncidentStatus};
use crate::models::log_entry::{stacktrace_view, LogEntry, LogLevel};
use crate::text::{chars_of, decimal, push_chars, push_str, string_of, to_decimal};

verus! {

/// The opening of the prompt, up to the incident's title.
pub const PROMPT_OPENING: &'static str =
    "You are an expert software engineer and DevOps specialist performing root-cause analysis.\n\n## Incident: ";

pub const PROMPT_STATUS: &'static str = "\n- Status: ";

pub const PROMPT_SEVERITY: &'static str = "\n- Severity: ";

pub const PROMPT_FIRST_SEEN: &'static str = "\n- First seen: ";

pub const PROMPT_EVENT_COUNT: &'static str = "\n- Event count: ";

pub const PROMPT_ANOMALIES: &'static str = "\n\n## Detected Anomalies\n";

pub const PROMPT_ERRORS: &'static str = "\n\n## Recent Error Logs (sample)\n";

pub const PROMPT_SYSTEM: &'static str = "\n\n## System Context\n";

/// The task the prompt ends with.
pub const PROMPT_TASK: &'static str = "\n\n## Task
Analyze this incident and provide a structured JSON response with:
1. `summary` - One paragraph explaining what is happening
2. `root_cause` - Most likely root cause (specific, actionable)
3. `contributing_factors` - Array of strings, secondary contributing factors
4. `fix_suggestions` - Array of fix objects, each with:
   - `priority` (1=highest)
   - `title`
   - `description`
   - `command` (optional shell command to run)
   - `code_snippet` (optional: `{language, filename, content}`)
5. `config_conflicts` - Array of config objects if any (each: `{file_path, key, current_value, suggested_value, reason}`)
6. `confidence` - Float 0.0-1.0

Respond ONLY with valid JSON, no markdown, no explanation outside the JSON.";

/// How the first sighting of an incident is printed.
pub const FIRST_SEEN_FORMAT: &'static str = "%Y-%m-%d %H:%M:%S UTC";

/// How many recent error entries the prompt shows at most.
pub const ERROR_SAMPLE_SIZE: usize = 10;

/// The name a level is shown under.
pub open spec fn level_name(l: LogLevel) -> Seq<char> {
    match l {
        LogLevel::Trace => "Trace"@,
        LogLevel::Debug => "Debug"@,
        LogLevel::Info => "Info"@,
        LogLevel::Warn => "Warn"@,
        LogLevel::Error => "Error"@,
        LogLevel::Fatal => "Fatal"@,
        LogLevel::Unknown => "Unknown"@,
    }
}

pub fn level_label(l: LogLevel) -> (r: &'static str)
    ensures
        r@ == level_name(l),
{
    match l {
        LogLevel::Trace => "Trace",
        LogLevel::Debug => "Debug",
        LogLevel::Info => "Info",
        LogLevel::Warn => "Warn",
        LogLevel::Error => "Error",
        LogLevel::Fatal => "Fatal",
        LogLevel::Unknown => "Unknown",
    }
}

/// The name a status is shown under.
pub open spec fn status_name(s: IncidentStatus) -> Seq<char> {
    match s {
        IncidentStatus::Open => "Open"@,
        IncidentStatus::Investigating => "Investigating"@,
        IncidentStatus::Resolved => "Resolved"@,
        IncidentStatus::Suppressed => "Suppressed"@,
    }
}

pub fn status_label(s: IncidentStatus) -> (r: &'static str)
    ensures
        r@ == status_name(s),
{
    match s {
        IncidentStatus::Open => "Open",
        IncidentStatus::Investigating => "Investigating",
        IncidentStatus::Resolved => "Resolved",
        IncidentStatus::Suppressed => "Suppressed",
    }
}

/// The name a severity is shown under.
pub open spec fn severity_name(s: Severity) -> Seq<char> {
    match s {
        Severity::Low => "Low"@,
        Severity::Medium => "Medium"@,
        Severity::High => "High"@,
        Severity::Critical => "Critical"@,
    }
}

pub fn severity_label(s: Severity) -> (r: &'static str)
    ensures
        r@ == severity_name(s),
{
    match s {
        Severity::Low => "Low",
        Severity::Medium => "Medium",
        Severity::High => "High",
        Severity::Critical => "Critical",
    }
}

/// Texts joined with a separator between each two.
pub open spec fn joined_with(parts: Seq<Seq<char>>, sep: Seq<char>) -> Seq<char>
    decreases parts.len(),
{
    if parts.len() == 0 {
        seq![]
    } else if parts.len() == 1 {
        parts[0]
    } else {
        joined_with(parts.drop_last(), sep) + sep + parts.last()
    }
}

/// How one error entry is shown: its level in brackets, its message, and
/// its stacktrace, one indented line per frame.
pub open spec fn entry_line(e: LogEntry) -> Seq<char> {
    "["@ + level_name(e.level) + "] "@ + e.message@ + match stacktrace_view(e.stacktrace) {
        Some(lines) => "\n  Stacktrace:\n    "@ + joined_with(lines, "\n    "@),
        None => seq![],
    }
}

/// The error entries shown: the first `ERROR_SAMPLE_SIZE`, one per line.
pub open spec fn error_sample(es: Seq<LogEntry>) -> Seq<char> {
    let shown = if es.len() > ERROR_SAMPLE_SIZE {
        es.take(ERROR_SAMPLE_SIZE as int)
    } else {
        es
    };
    joined_with(shown.map_values(|e: LogEntry| entry_line(e)), "\n"@)
}

/// Appends `sep` and `part` to a joined text, or `part` alone to an empty
/// list.
fn push_joined(buf: &mut Vec<char>, count: usize, sep: &str, part: &[char])
    ensures
        final(buf)@ == if count == 0 {
            old(buf)@ + part@
        } else {
            old(buf)@ + sep@ + part@
        },
{
    if count > 0 {
        push_str(buf, sep);
    }
    push_chars(buf, part);
    if count > 0 {
        assert(buf@ =~= old(buf)@ + sep@ + part@);
    }
}

fn entry_text(e: &LogEntry) -> (r: Vec<char>)
    ensures
        r@ == entry_line(*e),
{
    let mut r: Vec<char> = Vec::new();
    push_str(&mut r, "[");
    push_str(&mut r, level_label(e.level));
    push_str(&mut r, "] ");
    push_str(&mut r, e.message.as_str());
    let ghost head = r@;
    match &e.stacktrace {
        Some(lines) => {
            push_str(&mut r, "\n  Stacktrace:\n    ");
            let ghost start = r@;
            let ghost parts = stacktrace_view(e.stacktrace).unwrap();
            let mut i: usize = 0;
            while i < lines.len()
                invariant
                    i <= lines.len(),
                    parts == crate::text::texts(lines@),
                    r@ == start + joined_with(parts.take(i as int), "\n    "@),
                decreases lines.len() - i,
            {
                let line = chars_of(lines[i].as_str());
                let ghost before = r@;
                push_joined(&mut r, i, "\n    ", line.as_slice());
                proof {
                    let t = parts.take(i + 1);
                    assert(t.drop_last() =~= parts.take(i as int));
                    assert(t.last() == line@);
                    if i == 0 {
                        assert(joined_with(parts.take(0), "\n    "@) =~= seq![]);
                        assert(joined_with(t, "\n    "@) == t[0]);
                    }
                    assert(r@ =~= start + joined_with(t, "\n    "@));
                }
                i = i + 1;
            }
            assert(parts.take(lines.len() as int) =~= parts);
            assert(r@ =~= head + "\n  Stacktrace:\n    "@ + joined_with(parts, "\n    "@));
        },
        None => {
            assert(r@ =~= head + seq![]);
        },
    }
    assert(head =~= "["@ + level_name(e.level) + "] "@ + e.message@);
    r
}

/// Shows the first recent error entries, one per line.
pub fn error_log_sample(entries: &Vec<LogEntry>) -> (r: String)
    ensures
        r@ == error_sample(entries@),
{
    let n: usize = if entries.len() > ERROR_SAMPLE_SIZE {
        ERROR_SAMPLE_SIZE
    } else {
        entries.len()
    };
    let ghost shown = if entries@.len() > ERROR_SAMPLE_SIZE {
        entries@.take(ERROR_SAMPLE_SIZE as int)
    } else {
        entries@
    };
    let ghost lines = shown.map_values(|e: LogEntry| entry_line(e));
    assert(shown.len() == n);
    let mut r: Vec<char> = Vec::new();
    let mut i: usize = 0;
    while i < n
        invariant
            i <= n,
            n <= entries@.len(),
            shown.len() == n,
            forall|k: int| 0 <= k < n ==> #[trigger] shown[k] == entries@[k],
            lines == shown.map_values(|e: LogEntry| entry_line(e)),
            r@ == joined_with(lines.take(i as int), "\n"@),
        decreases n - i,
    {
        let line = entry_text(&entries[i]);
        push_joined(&mut r, i, "\n", line.as_slice());
        proof {
            let t = lines.take(i + 1);
            assert(t.drop_last() =~= lines.take(i as int));
            assert(t.last() == line@);
            if i == 0 {
                assert(joined_with(lines.take(0), "\n"@) =~= seq![]);
            }
            assert(r@ =~= joined_with(t, "\n"@));
        }
        i = i + 1;
    }
    assert(lines.take(n as int) =~= lines);
    string_of(r.as_slice())
}

/// The prompt for an incident, given the lines describing its anomalies,
/// the sample of its recent errors and the system context ("N/A" where
/// there is none).
pub open spec fn prompt_text(
    incident: Incident,
    first_seen: Seq<char>,
    anomaly_lines: Seq<char>,
    errors: Seq<char>,
    system: Seq<char>,
) -> Seq<char> {
    PROMPT_OPENING@ + incident.title@ + PROMPT_STATUS@ + status_name(incident.status) + PROMPT_SEVERITY@
        + severity_name(incident.severity) + PROMPT_FIRST_SEEN@ + first_seen + PROMPT_EVENT_COUNT@ + decimal(
        incident.event_count as nat,
    ) + PROMPT_ANOMALIES@ + anomaly_lines + PROMPT_ERRORS@ + errors + PROMPT_SYSTEM@ + system + PROMPT_TASK@
}

/// The system context shown: the given one, or "N/A".
pub open spec fn system_text(system_context: Option<Seq<char>>) -> Seq<char> {
    match system_context {
        Some(s) => s,
        None => "N/A"@,
    }
}

/// Builds the analysis prompt of an incident; nothing where its first
/// sighting lies outside the range of dates that can be printed.
pub fn build_analysis_prompt(
    incident: &Incident,
    anomaly_lines: &str,
    recent_errors: &Vec<LogEntry>,
    system_context: Option<&str>,
) -> (r: Option<String>)
    ensures
        match r {
            Some(p) => utc_timestamp_text(incident.first_seen, FIRST_SEEN_FORMAT@) matches Some(t) && p@ == prompt_text(
                *incident,
                t,
                anomaly_lines@,
                error_sample(recent_errors@),
                system_text(
                    match system_context {
                        Some(s) => Some(s@),
                        None => None,
                    },
                ),
            ),
            None => utc_timestamp_text(incident.first_seen, FIRST_SEEN_FORMAT@) is None,
        },
{
    let first_seen = match format_utc_timestamp(incident.first_seen, FIRST_SEEN_FORMAT) {
        Some(t) => t,
        None => {
            return None;
        },
    };
    let errors = error_log_sample(recent_errors);
    let mut p: Vec<char> = Vec::new();
    push_str(&mut p, PROMPT_OPENING);
    push_str(&mut p, incident.title.as_str());
    push_str(&mut p, PROMPT_STATUS);
    push_str(&mut p, status_label(incident.status));
    push_str(&mut p, PROMPT_SEVERITY);
    push_str(&mut p, severity_label(incident.severity));
    push_str(&mut p, PROMPT_FIRST_SEEN);
    push_str(&mut p, first_seen.as_str());
    push_str(&mut p, PROMPT_EVENT_COUNT);
    let count = to_decimal(incident.event_count);
    push_chars(&mut p, count.as_slice());
    push_str(&mut p, PROMPT_ANOMALIES);
    push_str(&mut p, anomaly_lines);
    push_str(&mut p, PROMPT_ERRORS);
    push_str(&mut p, errors.as_str());
    push_str(&mut p, PROMPT_SYSTEM);
    match system_context {
        Some(s) => push_str(&mut p, s),
        None => push_str(&mut p, "N/A"),
    }
    push_str(&mut p, PROMPT_TASK);
    let ghost sys = system_text(
        match system_context {
            Some(s) => Some(s@),
            None => None,
        },
    );
    assert(p@ =~= prompt_text(*incident, first_seen@, anomaly_lines@, error_sample(recent_errors@), sys));
    Some(string_of(p.as_slice()))
}

} // verus!
