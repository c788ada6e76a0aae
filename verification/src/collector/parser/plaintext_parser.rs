//! Parses plain text log lines with common timestamp and level prefixes, and
//! merges the lines of a stacktrace into the entry they follow.
use vstd::prelude::*;

use crate::clock::{naive_datetime_millis, now_millis, parse_naive_datetime, parse_utc_datetime, utc_datetime_millis};
use crate::collector::parser::stacktrace_merger::{is_continuation_line, StacktraceMerger};
use crate::models::log_entry::{level_named, LogEntry, LogLevel};
use crate::pattern::{captures, find, opt_text, regex_captures, regex_find, regex_remove_first, remove_first};
use crate::plugin::builtin::nginx::group;
use crate::plugin::PluginMetadata;
use crate::text::{
    chars_of, ends_with, has_suffix, owned, string_of, texts, trim, trim_chars, trim_start_matches_set,
    trim_start_set,
};

verus! {

/// A date and time at the start of a line, optionally in brackets:
/// `2024-01-15T12:34:56`, `2024-01-15 12:34:56.123Z`, `[2024-01-15 12:34:56]`.
pub const TIMESTAMP_PATTERN: &'static str = r"^[\[]*(\d{4}-\d{2}-\d{2}[T ]\d{2}:\d{2}:\d{2}(?:\.\d+)?(?:Z|[+-]\d{2}:?\d{2})?)";

/// A level word anywhere, in any case: `[INFO]`, `INFO:`, `WARN`, `ERROR`.
pub const LEVEL_PATTERN: &'static str = r"(?i)\b(TRACE|DEBUG|INFO|WARN(?:ING)?|ERROR|FATAL|CRITICAL)\b";

/// The local date and time formats tried where RFC 3339 fails.
pub const ISO_LOCAL_FORMAT: &'static str = "%Y-%m-%dT%H:%M:%S%.f";

pub const SPACED_LOCAL_FORMAT: &'static str = "%Y-%m-%d %H:%M:%S";

/// The characters stripped before a message after its level word is removed.
pub open spec fn level_separators() -> Seq<char> {
    seq![':', ' ', ']', '[']
}

/// The time at the start of a line: the captured date read as RFC 3339, else
/// as a local ISO time, else as a local spaced time, each taken as UTC.
pub open spec fn plain_timestamp(line: Seq<char>) -> Option<i64> {
    match regex_captures(TIMESTAMP_PATTERN@, line) {
        Some(groups) => match group(groups, 1) {
            Some(ts) => match utc_datetime_millis(ts) {
                Some(t) => Some(t),
                None => match naive_datetime_millis(ts, ISO_LOCAL_FORMAT@) {
                    Some(t) => Some(t),
                    None => naive_datetime_millis(ts, SPACED_LOCAL_FORMAT@),
                },
            },
            None => None,
        },
        None => None,
    }
}

/// The level a line names, info where it names none.
pub open spec fn plain_level(line: Seq<char>) -> LogLevel {
    match regex_find(LEVEL_PATTERN@, line) {
        Some(m) => level_named(m),
        None => LogLevel::Info,
    }
}

/// The message of a line: without its leading time and first level word,
/// separators and whitespace trimmed; the whole line where nothing is left.
pub open spec fn plain_message(line: Seq<char>) -> Seq<char> {
    let without_time = trim(regex_remove_first(TIMESTAMP_PATTERN@, line));
    let m = trim(trim_start_set(regex_remove_first(LEVEL_PATTERN@, without_time), level_separators()));
    if m.len() == 0 {
        line
    } else {
        m
    }
}

pub open spec fn plain_can_handle(path: Seq<char>) -> bool {
    has_suffix(path, ".log"@) || has_suffix(path, ".txt"@)
}

/// A line that starts a new entry: not blank, and no continuation.
pub open spec fn is_header(line: Seq<char>) -> bool {
    trim(line).len() > 0 && !is_continuation_line(line)
}

/// An entry being built: its header entry, and the stacktrace lines so far.
pub struct PendingEntry {
    pub base: LogEntry,
    pub stacktrace_lines: Vec<String>,
}

/// The raw lines and stacktrace lines of a pending entry.
pub type PendingLines = (Seq<Seq<char>>, Seq<Seq<char>>);

pub open spec fn pending_lines(p: Option<PendingEntry>) -> Option<PendingLines> {
    match p {
        Some(e) => Some((texts(e.base.raw_lines@), texts(e.stacktrace_lines@))),
        None => None,
    }
}

/// The pending lines after one more line: a blank line closes the entry, a
/// continuation extends it (and is dropped when nothing is pending), any
/// other line starts a new entry.
pub open spec fn step_lines(p: Option<PendingLines>, line: Seq<char>) -> Option<PendingLines> {
    if trim(line).len() == 0 {
        None
    } else if is_continuation_line(line) {
        match p {
            Some((raw, frames)) => Some((raw.push(line), frames.push(line))),
            None => None,
        }
    } else {
        Some((seq![line], Seq::empty()))
    }
}

/// Whether a line hands out the pending entry: a blank or header line does,
/// where one is pending.
pub open spec fn step_emits(p: Option<PendingLines>, line: Seq<char>) -> bool {
    p is Some && !(trim(line).len() > 0 && is_continuation_line(line))
}

/// The entry a pending entry becomes: the header entry, with its stacktrace
/// where lines were merged into it.
pub open spec fn finished(p: PendingEntry) -> LogEntry {
    if p.stacktrace_lines@.len() > 0 {
        LogEntry { stacktrace: Some(p.stacktrace_lines), ..p.base }
    } else {
        p.base
    }
}

pub open spec fn finished_opt(p: Option<PendingEntry>) -> Option<LogEntry> {
    match p {
        Some(e) => Some(finished(e)),
        None => None,
    }
}

/// The pending lines after a run of lines from a fresh parser, and how many
/// entries the run handed out.
pub open spec fn run_lines(lines: Seq<Seq<char>>) -> (Option<PendingLines>, nat)
    decreases lines.len(),
{
    if lines.len() == 0 {
        (None, 0)
    } else {
        let (p, n) = run_lines(lines.drop_last());
        (step_lines(p, lines.last()), if step_emits(p, lines.last()) {
            n + 1
        } else {
            n
        })
    }
}

/// How many lines of a run start an entry.
pub open spec fn header_count(lines: Seq<Seq<char>>) -> nat
    decreases lines.len(),
{
    if lines.len() == 0 {
        0
    } else if is_header(lines.last()) {
        header_count(lines.drop_last()) + 1
    } else {
        header_count(lines.drop_last())
    }
}

/// Every line that starts an entry yields exactly one entry: after any run
/// of lines, the entries handed out plus the one still pending number the
/// header lines of the run.
pub proof fn law_one_entry_per_header(lines: Seq<Seq<char>>)
    ensures
        run_lines(lines).1 + (if run_lines(lines).0 is Some {
            1nat
        } else {
            0nat
        }) == header_count(lines),
    decreases lines.len(),
{
    if lines.len() > 0 {
        law_one_entry_per_header(lines.drop_last());
    }
}

/// A pending entry holds its header line followed by exactly the
/// continuation lines read since, and those are its stacktrace lines.
pub open spec fn well_formed_lines(p: PendingLines) -> bool {
    let (raw, frames) = p;
    &&& raw.len() == frames.len() + 1
    &&& is_header(raw[0])
    &&& raw.drop_first() == frames
    &&& forall|i: int| 0 <= i < frames.len() ==> trim(#[trigger] frames[i]).len() > 0
        && is_continuation_line(frames[i])
}

/// Stacktrace lines only ever join the entry whose header came before them:
/// after any run of lines, what is pending is a header followed by the
/// continuation lines since.
pub proof fn law_stacktrace_follows_header(lines: Seq<Seq<char>>)
    ensures
        run_lines(lines).0 matches Some(p) ==> well_formed_lines(p),
    decreases lines.len(),
{
    if lines.len() > 0 {
        law_stacktrace_follows_header(lines.drop_last());
        let (p, n) = run_lines(lines.drop_last());
        let line = lines.last();
        if trim(line).len() > 0 && is_continuation_line(line) {
            if let Some((raw, frames)) = p {
                assert(raw.push(line).drop_first() =~= raw.drop_first().push(line));
            }
        } else if trim(line).len() > 0 {
            assert(seq![line].drop_first() =~= Seq::<Seq<char>>::empty());
        }
    }
}

/// The time at the start of a line is read in three ways, in order: as
/// RFC 3339; where chrono cannot read it so, as a local time with a `T`
/// between date and time and optional fractional seconds; and only then as a
/// local time with a space. Each local time is taken as UTC. A line that does
/// not start with a date and time has none.
pub proof fn law_timestamp_reading_order(line: Seq<char>, ts: Seq<char>)
    ensures
        regex_captures(TIMESTAMP_PATTERN@, line) is None ==> plain_timestamp(line) is None,
        (regex_captures(TIMESTAMP_PATTERN@, line) matches Some(groups) && group(groups, 1) is None)
            ==> plain_timestamp(line) is None,
        (regex_captures(TIMESTAMP_PATTERN@, line) matches Some(groups) && group(groups, 1) == Some(ts)) ==> {
            &&& (utc_datetime_millis(ts) matches Some(t) ==> plain_timestamp(line) == Some(t))
            &&& (naive_datetime_millis(ts, "%Y-%m-%dT%H:%M:%S%.f"@) matches Some(t) ==> (utc_datetime_millis(ts) is None
                ==> plain_timestamp(line) == Some(t)))
            &&& ((utc_datetime_millis(ts) is None && naive_datetime_millis(ts, "%Y-%m-%dT%H:%M:%S%.f"@) is None)
                ==> plain_timestamp(line) == naive_datetime_millis(ts, "%Y-%m-%d %H:%M:%S"@))
        },
{
}

/// A line's level is named by the first level word it holds (`TRACE`,
/// `DEBUG`, `INFO`, `WARN`, `WARNING`, `ERROR`, `FATAL` or `CRITICAL`, in any
/// case, as a whole word); a line with none is information. Its message is
/// never empty where the line is not: where nothing is left once time, level
/// and separators are taken off, the message is the whole line.
pub proof fn law_level_word_and_message(line: Seq<char>)
    ensures
        regex_find(r"(?i)\b(TRACE|DEBUG|INFO|WARN(?:ING)?|ERROR|FATAL|CRITICAL)\b"@, line) matches Some(m)
            ==> plain_level(line) == level_named(m),
        regex_find(r"(?i)\b(TRACE|DEBUG|INFO|WARN(?:ING)?|ERROR|FATAL|CRITICAL)\b"@, line) is None ==> plain_level(line)
            == LogLevel::Info,
        line.len() > 0 ==> plain_message(line).len() > 0,
        plain_message(line) == line || plain_message(line) == trim(
            trim_start_set(
                regex_remove_first(
                    r"(?i)\b(TRACE|DEBUG|INFO|WARN(?:ING)?|ERROR|FATAL|CRITICAL)\b"@,
                    trim(regex_remove_first(TIMESTAMP_PATTERN@, line)),
                ),
                seq![':', ' ', ']', '['],
            ),
        ),
{
}

/// What one call of `push_line` does, from the parser before to the parser after.
pub open spec fn plaintext_push_done(old_p: PlaintextParser, line: Seq<char>, new_p: PlaintextParser, r: Option<LogEntry>) -> bool {
    &&& new_p.source_id == old_p.source_id
    &&& new_p.source_path == old_p.source_path
    &&& pending_lines(new_p.pending) == step_lines(pending_lines(old_p.pending), line)
    &&& r is Some == step_emits(pending_lines(old_p.pending), line)
    &&& r is Some ==> r == finished_opt(old_p.pending)
    &&& is_header(line) ==> (new_p.pending matches Some(p) && {
                &&& p.base.level == plain_level(line)
                &&& p.base.message@ == plain_message(line)
                &&& (plain_timestamp(line) matches Some(t) ==> p.base.timestamp == t)
                &&& p.base.stacktrace is None
                &&& p.base.fields@.len() == 0
                &&& p.base.parser_id@ == "plaintext"@
                &&& p.base.source_id@ == old_p.source_id@
                &&& p.base.source_path@ == old_p.source_path@
            })
    &&& !is_header(line) && old_p.pending is Some && new_p.pending is Some ==> {
                let o = old_p.pending.unwrap().base;
                let n = new_p.pending.unwrap().base;
                n == LogEntry { raw_lines: n.raw_lines, ..o }
            }
}

/// Parses plain text log lines with common timestamp and level prefixes.
/// Supports multi-line stacktrace merging.
pub struct PlaintextParser {
    pub source_id: String,
    pub source_path: String,
    pub merger: StacktraceMerger,
    pub pending: Option<PendingEntry>,
}

impl PlaintextParser {
    pub fn new(source_id: &str, source_path: &str) -> (r: PlaintextParser)
        ensures
            r.source_id@ == source_id@,
            r.source_path@ == source_path@,
            r.pending is None,
    {
        PlaintextParser {
            source_id: owned(source_id),
            source_path: owned(source_path),
            merger: StacktraceMerger::new(),
            pending: None,
        }
    }

    pub fn parse_timestamp(&self, line: &str) -> (r: Option<i64>)
        ensures
            r == plain_timestamp(line@),
    {
        let groups = match captures(TIMESTAMP_PATTERN, line) {
            Some(g) => g,
            None => {
                return None;
            },
        };
        let ghost gs = groups@.map_values(|g: Option<String>| opt_text(g));
        if groups.len() <= 1 {
            return None;
        }
        let ts = match &groups[1] {
            Some(s) => s,
            None => {
                return None;
            },
        };
        assert(group(gs, 1) == Some(ts@));
        match parse_utc_datetime(ts.as_str()) {
            Some(t) => Some(t),
            None => match parse_naive_datetime(ts.as_str(), ISO_LOCAL_FORMAT) {
                Some(t) => Some(t),
                None => parse_naive_datetime(ts.as_str(), SPACED_LOCAL_FORMAT),
            },
        }
    }

    pub fn parse_level(&self, line: &str) -> (r: LogLevel)
        ensures
            r == plain_level(line@),
    {
        match find(LEVEL_PATTERN, line) {
            Some(m) => LogLevel::from_str(m.as_str()),
            None => LogLevel::Info,
        }
    }

    /// The message of a line, as `plain_message` states it.
    pub fn parse_message(&self, line: &str) -> (r: String)
        ensures
            r@ == plain_message(line@),
    {
        let without_time = remove_first(TIMESTAMP_PATTERN, line);
        let wt = chars_of(without_time.as_str());
        let wt = trim_chars(wt.as_slice());
        let wts = string_of(wt.as_slice());
        let without_level = remove_first(LEVEL_PATTERN, wts.as_str());
        let wl = chars_of(without_level.as_str());
        let mut seps: Vec<char> = Vec::new();
        seps.push(':');
        seps.push(' ');
        seps.push(']');
        seps.push('[');
        assert(seps@ =~= level_separators());
        let stripped = trim_start_matches_set(wl.as_slice(), seps.as_slice());
        let m = trim_chars(stripped.as_slice());
        if m.len() == 0 {
            owned(line)
        } else {
            string_of(m.as_slice())
        }
    }

    /// Hands out the pending entry, if any, with its merged stacktrace.
    pub fn finalize_pending(&mut self) -> (r: Option<LogEntry>)
        ensures
            r == finished_opt(old(self).pending),
            final(self).pending is None,
            final(self).source_id == old(self).source_id,
            final(self).source_path == old(self).source_path,
    {
        let mut taken: Option<PendingEntry> = None;
        std::mem::swap(&mut taken, &mut self.pending);
        match taken {
            Some(p) => {
                let mut entry = p.base;
                if p.stacktrace_lines.len() > 0 {
                    entry.stacktrace = Some(p.stacktrace_lines);
                }
                Some(entry)
            },
            None => None,
        }
    }

    pub fn id(&self) -> (r: &str)
        ensures
            r@ == "plaintext"@,
    {
        "plaintext"
    }

    pub fn can_handle(&self, source_path: &str) -> (r: bool)
        ensures
            r == plain_can_handle(source_path@),
    {
        let p = chars_of(source_path);
        ends_with(p.as_slice(), ".log") || ends_with(p.as_slice(), ".txt")
    }

    /// Reads one line. A blank line hands out the pending entry; a
    /// continuation line is merged into it and gives nothing; any other line
    /// hands out the pending entry and starts a new one from itself.
    pub fn push_line(&mut self, line: &str) -> (r: Option<LogEntry>)
        ensures
            plaintext_push_done(*old(self), line@, *final(self), r),
    {
        let v = chars_of(line);
        let t = trim_chars(v.as_slice());
        if t.len() == 0 {
            return self.finalize_pending();
        }
        if self.merger.is_continuation(line) {
            let mut taken: Option<PendingEntry> = None;
            std::mem::swap(&mut taken, &mut self.pending);
            match taken {
                Some(mut p) => {
                    p.stacktrace_lines.push(owned(line));
                    p.base.raw_lines.push(owned(line));
                    assert(texts(p.stacktrace_lines@) =~= texts(old(self).pending.unwrap().stacktrace_lines@).push(line@));
                    assert(texts(p.base.raw_lines@) =~= texts(old(self).pending.unwrap().base.raw_lines@).push(line@));
                    self.pending = Some(p);
                },
                None => {},
            }
            return None;
        }
        let finished = self.finalize_pending();
        let timestamp = match self.parse_timestamp(line) {
            Some(t) => t,
            None => now_millis(),
        };
        let level = self.parse_level(line);
        let message = self.parse_message(line);
        let mut entry = LogEntry::new(
            self.source_id.as_str(),
            self.source_path.as_str(),
            timestamp,
            level,
            message,
            "plaintext",
        );
        let mut raw: Vec<String> = Vec::new();
        raw.push(owned(line));
        entry.raw_lines = raw;
        assert(texts(entry.raw_lines@) =~= seq![line@]);
        let stack: Vec<String> = Vec::new();
        assert(texts(stack@) =~= Seq::<Seq<char>>::empty());
        self.pending = Some(PendingEntry { base: entry, stacktrace_lines: stack });
        finished
    }

    /// Hands out the entry still pending, at the end of a source.
    pub fn flush(&mut self) -> (r: Option<LogEntry>)
        ensures
            r == finished_opt(old(self).pending),
            final(self).pending is None,
            final(self).source_id == old(self).source_id,
            final(self).source_path == old(self).source_path,
    {
        self.finalize_pending()
    }

    pub fn metadata(&self) -> (r: PluginMetadata)
        ensures
            r.view_texts() == ("plaintext"@, "Plaintext"@,
            "Parses plain text log files with timestamp+level prefix, supports stacktrace merging"@, seq![
                "*.log"@,
                "*.txt"@,
            ]),
    {
        let mut patterns: Vec<String> = Vec::new();
        patterns.push(owned("*.log"));
        patterns.push(owned("*.txt"));
        let r = PluginMetadata {
            id: owned("plaintext"),
            name: owned("Plaintext"),
            description: owned(
                "Parses plain text log files with timestamp+level prefix, supports stacktrace merging",
            ),
            file_patterns: patterns,
        };
        assert(texts(r.file_patterns@) =~= seq!["*.log"@, "*.txt"@]);
        r
    }
}

#[derive(Clone, Copy, Debug)]
pub struct PlaintextPluginFactory;

impl PlaintextPluginFactory {
    pub fn id(&self) -> (r: &str)
        ensures
            r@ == "plaintext"@,
    {
        "plaintext"
    }

    /// A fresh parser per source, with nothing pending.
    pub fn create(&self, source_id: &str, source_path: &str) -> (r: PlaintextParser)
        ensures
            r.source_id@ == source_id@,
            r.source_path@ == source_path@,
            r.pending is None,
    {
        PlaintextParser::new(source_id, source_path)
    }
}

} // verus!
