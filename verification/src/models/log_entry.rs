//! Log levels, watch sources and parsed log entries.
use vstd::prelude::*;

use crate::clock::{new_id, now_millis};
use crate::json_line::JsonMember;
use crate::text::{ascii_lower, ascii_lowercase, chars_of, eq_str, owned, texts, to_ascii_lowercase};

verus! {

#[derive(Clone, Copy, Debug, PartialEq, Eq, Structural)]
pub enum LogLevel {
    Trace,
    Debug,
    Info,
    Warn,
    Error,
    Fatal,
    Unknown,
}

/// The level a name stands for, compared without regard to ASCII case.
pub open spec fn level_named(s: Seq<char>) -> LogLevel {
    let l = ascii_lowercase(s);
    if l == "trace"@ {
        LogLevel::Trace
    } else if l == "debug"@ || l == "dbg"@ {
        LogLevel::Debug
    } else if l == "info"@ || l == "information"@ {
        LogLevel::Info
    } else if l == "warn"@ || l == "warning"@ {
        LogLevel::Warn
    } else if l == "error"@ || l == "err"@ {
        LogLevel::Error
    } else if l == "fatal"@ || l == "critical"@ || l == "crit"@ {
        LogLevel::Fatal
    } else {
        LogLevel::Unknown
    }
}

impl LogLevel {
    /// The numeric weight of a level: trace 0 up to fatal 5, unknown as info.
    pub open spec fn score(self) -> u8 {
        match self {
            LogLevel::Trace => 0,
            LogLevel::Debug => 1,
            LogLevel::Info => 2,
            LogLevel::Warn => 3,
            LogLevel::Error => 4,
            LogLevel::Fatal => 5,
            LogLevel::Unknown => 2,
        }
    }

    /// Reads a level name such as `warn`, `WARNING` or `crit`.
    pub fn from_str(s: &str) -> (r: LogLevel)
        ensures
            r == level_named(s@),
    {
        let v = chars_of(s);
        let l = to_ascii_lowercase(v.as_slice());
        let l = l.as_slice();
        if eq_str(l, "trace") {
            LogLevel::Trace
        } else if eq_str(l, "debug") || eq_str(l, "dbg") {
            LogLevel::Debug
        } else if eq_str(l, "info") || eq_str(l, "information") {
            LogLevel::Info
        } else if eq_str(l, "warn") || eq_str(l, "warning") {
            LogLevel::Warn
        } else if eq_str(l, "error") || eq_str(l, "err") {
            LogLevel::Error
        } else if eq_str(l, "fatal") || eq_str(l, "critical") || eq_str(l, "crit") {
            LogLevel::Fatal
        } else {
            LogLevel::Unknown
        }
    }

    pub fn severity_score(&self) -> (r: u8)
        ensures
            r == self.score(),
    {
        match self {
            LogLevel::Trace => 0,
            LogLevel::Debug => 1,
            LogLevel::Info => 2,
            LogLevel::Warn => 3,
            LogLevel::Error => 4,
            LogLevel::Fatal => 5,
            LogLevel::Unknown => 2,
        }
    }
}

#[derive(Clone, Debug, PartialEq, Eq)]
pub enum WatchSourceKind {
    FilePath { path: String },
    DockerContainer { container_id: String, container_name: String },
    DockerAllContainers,
}

#[derive(Clone, Debug)]
pub struct WatchSource {
    pub id: String,
    pub label: String,
    pub kind: WatchSourceKind,
    pub parser_id: String,
    pub enabled: bool,
    /// Milliseconds since the Unix epoch.
    pub created_at: i64,
}

impl WatchSource {
    /// A new, enabled source with a fresh random id, created now.
    pub fn new(label: &str, kind: WatchSourceKind, parser_id: &str) -> (r: WatchSource)
        ensures
            r.label@ == label@,
            r.kind == kind,
            r.parser_id@ == parser_id@,
            r.enabled,
    {
        WatchSource {
            id: new_id(),
            label: owned(label),
            kind,
            parser_id: owned(parser_id),
            enabled: true,
            created_at: now_millis(),
        }
    }
}

#[derive(Clone, Debug)]
pub struct LogEntry {
    pub id: String,
    pub source_id: String,
    pub source_path: String,
    /// Milliseconds since the Unix epoch.
    pub timestamp: i64,
    pub level: LogLevel,
    pub message: String,
    pub stacktrace: Option<Vec<String>>,
    /// Structured fields a parser kept, in order.
    pub fields: Vec<JsonMember>,
    pub raw_lines: Vec<String>,
    pub parser_id: String,
    /// When the entry was built, in milliseconds since the Unix epoch.
    pub ingested_at: i64,
}

impl LogEntry {
    /// A new entry with a fresh random id, ingested now, with no stacktrace,
    /// no fields and no raw lines.
    pub fn new(
        source_id: &str,
        source_path: &str,
        timestamp: i64,
        level: LogLevel,
        message: String,
        parser_id: &str,
    ) -> (r: LogEntry)
        ensures
            r.source_id@ == source_id@,
            r.source_path@ == source_path@,
            r.timestamp == timestamp,
            r.level == level,
            r.message == message,
            r.stacktrace is None,
            r.fields@.len() == 0,
            r.raw_lines@.len() == 0,
            r.parser_id@ == parser_id@,
    {
        LogEntry {
            id: new_id(),
            source_id: owned(source_id),
            source_path: owned(source_path),
            timestamp,
            level,
            message,
            stacktrace: None,
            fields: Vec::new(),
            raw_lines: Vec::new(),
            parser_id: owned(parser_id),
            ingested_at: now_millis(),
        }
    }
}

/// The lines of a stacktrace, if any.
pub open spec fn stacktrace_view(s: Option<Vec<String>>) -> Option<Seq<Seq<char>>> {
    match s {
        Some(v) => Some(texts(v@)),
        None => None,
    }
}

/// Lowering ASCII case twice is lowering it once.
proof fn lemma_ascii_lowercase_idempotent(s: Seq<char>)
    ensures
        ascii_lowercase(ascii_lowercase(s)) == ascii_lowercase(s),
{
    assert forall|i: int| 0 <= i < s.len() implies #[trigger] ascii_lower(ascii_lower(s[i])) == ascii_lower(s[i]) by {
        let c = s[i];
        if 'A' <= c && c <= 'Z' {
            assert(('a' as u32) <= ((c as u32) + 32) <= ('z' as u32));
        }
    }
    assert(ascii_lowercase(ascii_lowercase(s)) =~= ascii_lowercase(s));
}

/// Level names are read without regard to ASCII case: `trace`; `debug` or
/// `dbg`; `info` or `information`; `warn` or `warning`; `error` or `err`;
/// `fatal`, `critical` or `crit`. Any other name is unknown, and a name in
/// upper or mixed case gives the level of its lower-case spelling.
pub proof fn law_level_names(s: Seq<char>)
    ensures
        level_named(s) == level_named(ascii_lowercase(s)),
        ascii_lowercase(s) == "trace"@ ==> level_named(s) == LogLevel::Trace,
        (ascii_lowercase(s) == "debug"@ || ascii_lowercase(s) == "dbg"@) ==> level_named(s) == LogLevel::Debug,
        (ascii_lowercase(s) == "info"@ || ascii_lowercase(s) == "information"@) ==> level_named(s) == LogLevel::Info,
        (ascii_lowercase(s) == "warn"@ || ascii_lowercase(s) == "warning"@) ==> level_named(s) == LogLevel::Warn,
        (ascii_lowercase(s) == "error"@ || ascii_lowercase(s) == "err"@) ==> level_named(s) == LogLevel::Error,
        (ascii_lowercase(s) == "fatal"@ || ascii_lowercase(s) == "critical"@ || ascii_lowercase(s) == "crit"@)
            ==> level_named(s) == LogLevel::Fatal,
        !seq![
            "trace"@,
            "debug"@,
            "dbg"@,
            "info"@,
            "information"@,
            "warn"@,
            "warning"@,
            "error"@,
            "err"@,
            "fatal"@,
            "critical"@,
            "crit"@,
        ].contains(ascii_lowercase(s)) ==> level_named(s) == LogLevel::Unknown,
{
    lemma_ascii_lowercase_idempotent(s);
    reveal_strlit("trace");
    reveal_strlit("debug");
    reveal_strlit("dbg");
    reveal_strlit("info");
    reveal_strlit("information");
    reveal_strlit("warn");
    reveal_strlit("warning");
    reveal_strlit("error");
    reveal_strlit("err");
    reveal_strlit("fatal");
    reveal_strlit("critical");
    reveal_strlit("crit");
    assert("trace"@[0] == 't' && "debug"@[0] == 'd' && "dbg"@[0] == 'd' && "info"@[0] == 'i');
    assert("information"@[0] == 'i' && "warn"@[0] == 'w' && "warning"@[0] == 'w' && "error"@[0] == 'e');
    assert("err"@[0] == 'e' && "fatal"@[0] == 'f' && "critical"@[0] == 'c' && "crit"@[0] == 'c');
    let words = seq![
        "trace"@,
        "debug"@,
        "dbg"@,
        "info"@,
        "information"@,
        "warn"@,
        "warning"@,
        "error"@,
        "err"@,
        "fatal"@,
        "critical"@,
        "crit"@,
    ];
    let l = ascii_lowercase(s);
    if l == "trace"@ { assert(words[0] == l); }
    if l == "debug"@ { assert(words[1] == l); }
    if l == "dbg"@ { assert(words[2] == l); }
    if l == "info"@ { assert(words[3] == l); }
    if l == "information"@ { assert(words[4] == l); }
    if l == "warn"@ { assert(words[5] == l); }
    if l == "warning"@ { assert(words[6] == l); }
    if l == "error"@ { assert(words[7] == l); }
    if l == "err"@ { assert(words[8] == l); }
    if l == "fatal"@ { assert(words[9] == l); }
    if l == "critical"@ { assert(words[10] == l); }
    if l == "crit"@ { assert(words[11] == l); }
}

} // verus!
