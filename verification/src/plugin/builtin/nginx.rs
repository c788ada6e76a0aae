//! Parses the nginx combined log format:
//! `127.0.0.1 - - [10/Oct/2000:13:55:36 -0700] "GET /index.html HTTP/1.1" 200 2326`.
use vstd::prelude::*;

use crate::clock::now_millis;
use crate::models::log_entry::{LogEntry, LogLevel};
use crate::pattern::{captures, opt_text, regex_captures};
use crate::plugin::PluginMetadata;
use crate::text::{
    chars_of, contains, decimal, ends_with, has_infix, has_suffix, owned, parse_decimal,
    parse_decimal_chars, push_chars, push_str, string_of, texts, to_decimal, to_lowercase, trim,
    trim_chars, unicode_lowercase,
};

verus! {

/// Address, identity, user, `[time]`, `"request"`, status and size.
pub const NGINX_LINE_PATTERN: &'static str = r#"^(\S+)\s+\S+\s+\S+\s+\[([^\]]+)\]\s+"([^"]+)"\s+(\d+)\s+(\d+|-)"#;

/// A capture group's text, where the group exists and took part.
pub open spec fn group(groups: Seq<Option<Seq<char>>>, i: int) -> Option<Seq<char>> {
    if 0 <= i < groups.len() {
        groups[i]
    } else {
        None
    }
}

/// The status code of a match: group 4 read as a `u16`, else 0.
pub open spec fn nginx_status(groups: Seq<Option<Seq<char>>>) -> nat {
    match group(groups, 4) {
        Some(t) => match parse_decimal(t, 65535) {
            Some(n) => n,
            None => 0,
        },
        None => 0,
    }
}

/// Server errors are errors, client errors warnings, anything else info.
pub open spec fn status_level(status: nat) -> LogLevel {
    if 500 <= status <= 599 {
        LogLevel::Error
    } else if 400 <= status <= 499 {
        LogLevel::Warn
    } else {
        LogLevel::Info
    }
}

/// The level and message of a line: `[status] request` for a line in the
/// combined format, else info and the line itself.
pub open spec fn nginx_reading(line: Seq<char>) -> (LogLevel, Seq<char>) {
    match regex_captures(NGINX_LINE_PATTERN@, line) {
        Some(groups) => {
            let status = nginx_status(groups);
            let request = match group(groups, 3) {
                Some(t) => t,
                None => line,
            };
            (status_level(status), "["@ + decimal(status) + "] "@ + request)
        },
        None => (LogLevel::Info, line),
    }
}

/// A line in the combined format is logged by its status code: every server
/// error (500 to 599) as an error, every client error (400 to 499) as a
/// warning, any other status as information; its message is the status in
/// brackets followed by the request.
pub proof fn law_status_decides_level(line: Seq<char>, status_text: Seq<char>, request: Seq<char>, status: nat)
    requires
        regex_captures(NGINX_LINE_PATTERN@, line) matches Some(groups) && group(groups, 4) == Some(status_text)
            && group(groups, 3) == Some(request),
        parse_decimal(status_text, 65535) == Some(status),
    ensures
        500 <= status <= 599 ==> nginx_reading(line).0 == LogLevel::Error,
        400 <= status <= 499 ==> nginx_reading(line).0 == LogLevel::Warn,
        (status < 400 || 599 < status) ==> nginx_reading(line).0 == LogLevel::Info,
        nginx_reading(line).1 == "["@ + decimal(status) + "] "@ + request,
{
}

/// A line that is not in the combined format is logged as information, with
/// the line itself as its message.
pub proof fn law_other_lines_are_information(line: Seq<char>)
    requires
        regex_captures(NGINX_LINE_PATTERN@, line) is None,
    ensures
        nginx_reading(line) == (LogLevel::Info, line),
{
}

pub open spec fn nginx_can_handle(path: Seq<char>) -> bool {
    let p = unicode_lowercase(path);
    has_infix(p, "nginx"@) || has_suffix(p, "access.log"@) || has_suffix(p, "error.log"@)
}

/// What one call of `push_line` does, from the parser before to the parser after.
pub open spec fn nginx_push_done(old_p: NginxParser, line: Seq<char>, new_p: NginxParser, r: Option<LogEntry>) -> bool {
    &&& new_p.source_id == old_p.source_id
    &&& new_p.source_path == old_p.source_path
    &&& r is Some <==> trim(line).len() > 0
    &&& r matches Some(e) ==> {
                &&& e.level == nginx_reading(line).0
                &&& e.message@ == nginx_reading(line).1
                &&& e.stacktrace is None
                &&& e.fields@.len() == 0
                &&& texts(e.raw_lines@) == seq![line]
                &&& e.parser_id@ == "nginx"@
                &&& e.source_id@ == old_p.source_id@
                &&& e.source_path@ == old_p.source_path@
            }
}

pub struct NginxParser {
    pub source_id: String,
    pub source_path: String,
}

impl NginxParser {
    pub fn new(source_id: &str, source_path: &str) -> (r: NginxParser)
        ensures
            r.source_id@ == source_id@,
            r.source_path@ == source_path@,
    {
        NginxParser { source_id: owned(source_id), source_path: owned(source_path) }
    }

    pub fn id(&self) -> (r: &str)
        ensures
            r@ == "nginx"@,
    {
        "nginx"
    }

    pub fn can_handle(&self, source_path: &str) -> (r: bool)
        ensures
            r == nginx_can_handle(source_path@),
    {
        let lower = to_lowercase(source_path);
        let p = chars_of(lower.as_str());
        let p = p.as_slice();
        contains(p, "nginx") || ends_with(p, "access.log") || ends_with(p, "error.log")
    }

    /// Reads one line: a blank line gives nothing; any other gives an entry
    /// stamped now with the level and message that `nginx_reading` states.
    pub fn push_line(&mut self, line: &str) -> (r: Option<LogEntry>)
        ensures
            nginx_push_done(*old(self), line@, *final(self), r),
    {
        let v = chars_of(line);
        let t = trim_chars(v.as_slice());
        if t.len() == 0 {
            return None;
        }
        let (level, message) = match captures(NGINX_LINE_PATTERN, line) {
            Some(groups) => {
                let ghost gs = groups@.map_values(|g: Option<String>| opt_text(g));
                let status: u64 = if groups.len() > 4 {
                    match &groups[4] {
                        Some(s) => {
                            let sv = chars_of(s.as_str());
                            match parse_decimal_chars(sv.as_slice(), 65535) {
                                Some(n) => n,
                                None => 0,
                            }
                        },
                        None => 0,
                    }
                } else {
                    0
                };
                assert(status as nat == nginx_status(gs));
                let level = if 500 <= status && status <= 599 {
                    LogLevel::Error
                } else if 400 <= status && status <= 499 {
                    LogLevel::Warn
                } else {
                    LogLevel::Info
                };
                let request: Vec<char> = if groups.len() > 3 {
                    match &groups[3] {
                        Some(s) => chars_of(s.as_str()),
                        None => chars_of(line),
                    }
                } else {
                    chars_of(line)
                };
                let mut m: Vec<char> = Vec::new();
                push_str(&mut m, "[");
                let digits = to_decimal(status);
                push_chars(&mut m, digits.as_slice());
                push_str(&mut m, "] ");
                push_chars(&mut m, request.as_slice());
                (level, string_of(m.as_slice()))
            },
            None => (LogLevel::Info, owned(line)),
        };
        let mut entry = LogEntry::new(
            self.source_id.as_str(),
            self.source_path.as_str(),
            now_millis(),
            level,
            message,
            "nginx",
        );
        let mut raw: Vec<String> = Vec::new();
        raw.push(owned(line));
        entry.raw_lines = raw;
        assert(texts(entry.raw_lines@) =~= seq![line@]);
        Some(entry)
    }

    /// Nothing is ever held back between lines.
    pub fn flush(&mut self) -> (r: Option<LogEntry>)
        ensures
            r is None,
            *final(self) == *old(self),
    {
        None
    }

    pub fn metadata(&self) -> (r: PluginMetadata)
        ensures
            r.view_texts() == ("nginx"@, "Nginx"@, "Parses nginx combined access and error log format"@, seq![
                "*nginx*"@,
                "*access.log"@,
            ]),
    {
        let mut patterns: Vec<String> = Vec::new();
        patterns.push(owned("*nginx*"));
        patterns.push(owned("*access.log"));
        let r = PluginMetadata {
            id: owned("nginx"),
            name: owned("Nginx"),
            description: owned("Parses nginx combined access and error log format"),
            file_patterns: patterns,
        };
        assert(texts(r.file_patterns@) =~= seq!["*nginx*"@, "*access.log"@]);
        r
    }
}

#[derive(Clone, Copy, Debug)]
pub struct NginxPluginFactory;

impl NginxPluginFactory {
    pub fn id(&self) -> (r: &str)
        ensures
            r@ == "nginx"@,
    {
        "nginx"
    }

    /// A fresh parser per source.
    pub fn create(&self, source_id: &str, source_path: &str) -> (r: NginxParser)
        ensures
            r.source_id@ == source_id@,
            r.source_path@ == source_path@,
    {
        NginxParser::new(source_id, source_path)
    }
}

} // verus!
