//! Parses the Docker JSON log envelope: `{"log":"...","stream":"stdout","time":"..."}`.
use vstd::prelude::*;

use crate::clock::now_millis;
use crate::collector::parser::json_parser::{object_members, text_or};
use crate::json_line::{
    find_member, json_document, lemma_members_pairs, member_get, members_view, parse_json, JsonDocument,
};
use crate::models::log_entry::{LogEntry, LogLevel};
use crate::plugin::PluginMetadata;
use crate::text::{
    chars_of, contains, ends_with, has_infix, has_suffix, owned, string_of, texts, to_lowercase, trim,
    trim_chars, trim_end_char, trim_end_matches_char, unicode_lowercase,
};

verus! {

/// The level Docker output shows in its text, by keyword after Unicode
/// lowercasing: fatal or critical, then error, then warn, then debug, else info.
pub open spec fn docker_level(message: Seq<char>) -> LogLevel {
    let l = unicode_lowercase(message);
    if has_infix(l, "fatal"@) || has_infix(l, "critical"@) {
        LogLevel::Fatal
    } else if has_infix(l, "error"@) || has_infix(l, "err]"@) || has_infix(l, "err:"@) {
        LogLevel::Error
    } else if has_infix(l, "warn"@) {
        LogLevel::Warn
    } else if has_infix(l, "debug"@) {
        LogLevel::Debug
    } else {
        LogLevel::Info
    }
}

/// The message of a line: the `log` text of a JSON envelope without trailing
/// newlines, or the whole line where there is none.
pub open spec fn docker_message(line: Seq<char>) -> Seq<char> {
    match json_document(line) {
        Some(d) => trim_end_char(text_or(member_get(object_members(d), "log"@), line), '\n'),
        None => line,
    }
}

pub open spec fn docker_can_handle(path: Seq<char>) -> bool {
    has_infix(path, "docker"@) || has_suffix(path, "-json.log"@)
}

/// What one call of `push_line` does, from the parser before to the parser after.
pub open spec fn docker_push_done(old_p: DockerParser, line: Seq<char>, new_p: DockerParser, r: Option<LogEntry>) -> bool {
    &&& new_p.source_id == old_p.source_id
    &&& new_p.source_path == old_p.source_path
    &&& r is Some <==> trim(line).len() > 0
    &&& r matches Some(e) ==> {
                &&& e.message@ == docker_message(line)
                &&& e.level == docker_level(docker_message(line))
                &&& e.stacktrace is None
                &&& e.fields@.len() == 0
                &&& texts(e.raw_lines@) == seq![line]
                &&& e.parser_id@ == "docker"@
                &&& e.source_id@ == old_p.source_id@
                &&& e.source_path@ == old_p.source_path@
            }
}

pub struct DockerParser {
    pub source_id: String,
    pub source_path: String,
}

impl DockerParser {
    pub fn new(source_id: &str, source_path: &str) -> (r: DockerParser)
        ensures
            r.source_id@ == source_id@,
            r.source_path@ == source_path@,
    {
        DockerParser { source_id: owned(source_id), source_path: owned(source_path) }
    }

    pub fn parse_inner_level(message: &str) -> (r: LogLevel)
        ensures
            r == docker_level(message@),
    {
        let lower = to_lowercase(message);
        let l = chars_of(lower.as_str());
        let l = l.as_slice();
        if contains(l, "fatal") || contains(l, "critical") {
            LogLevel::Fatal
        } else if contains(l, "error") || contains(l, "err]") || contains(l, "err:") {
            LogLevel::Error
        } else if contains(l, "warn") {
            LogLevel::Warn
        } else if contains(l, "debug") {
            LogLevel::Debug
        } else {
            LogLevel::Info
        }
    }

    pub fn id(&self) -> (r: &str)
        ensures
            r@ == "docker"@,
    {
        "docker"
    }

    pub fn can_handle(&self, source_path: &str) -> (r: bool)
        ensures
            r == docker_can_handle(source_path@),
    {
        let p = chars_of(source_path);
        contains(p.as_slice(), "docker") || ends_with(p.as_slice(), "-json.log")
    }

    /// Reads one line: a blank line gives nothing; any other gives an entry
    /// stamped now, with the envelope's message and the level it shows.
    pub fn push_line(&mut self, line: &str) -> (r: Option<LogEntry>)
        ensures
            docker_push_done(*old(self), line@, *final(self), r),
    {
        let v = chars_of(line);
        let t = trim_chars(v.as_slice());
        if t.len() == 0 {
            return None;
        }
        let message: String = match parse_json(line) {
            Some(doc) => {
                let ms = match doc {
                    JsonDocument::Object(ms) => ms,
                    JsonDocument::Other => Vec::new(),
                };
                proof {
                    lemma_members_pairs(ms@);
                }
                assert(members_view(ms@) =~= object_members(json_document(line@).unwrap()));
                let text: Vec<char> = match find_member(&ms, "log") {
                    Some(i) => match &ms[i].text {
                        Some(s) => chars_of(s.as_str()),
                        None => chars_of(line),
                    },
                    None => chars_of(line),
                };
                let text = trim_end_matches_char(text.as_slice(), '\n');
                string_of(text.as_slice())
            },
            None => owned(line),
        };
        let level = DockerParser::parse_inner_level(message.as_str());
        let mut entry = LogEntry::new(
            self.source_id.as_str(),
            self.source_path.as_str(),
            now_millis(),
            level,
            message,
            "docker",
        );
        let mut raw: Vec<String> = Vec::new();
        raw.push(owned(line));
        entry.raw_lines = raw;
        assert(texts(entry.raw_lines@) =~= seq![line@]);
        Some(entry)
    }

    /// Nothing is ever held back between lines.
    pub fn flush(&mut self) -> (r: Option<LogEntry>)
        ensures
            r is None,
            *final(self) == *old(self),
    {
        None
    }

    pub fn metadata(&self) -> (r: PluginMetadata)
        ensures
            r.view_texts() == ("docker"@, "Docker"@, "Parses Docker JSON log envelope format"@, seq![
                "*-json.log"@,
                "*docker*"@,
            ]),
    {
        let mut patterns: Vec<String> = Vec::new();
        patterns.push(owned("*-json.log"));
        patterns.push(owned("*docker*"));
        let r = PluginMetadata {
            id: owned("docker"),
            name: owned("Docker"),
            description: owned("Parses Docker JSON log envelope format"),
            file_patterns: patterns,
        };
        assert(texts(r.file_patterns@) =~= seq!["*-json.log"@, "*docker*"@]);
        r
    }
}

#[derive(Clone, Copy, Debug)]
pub struct DockerPluginFactory;

impl DockerPluginFactory {
    pub fn id(&self) -> (r: &str)
        ensures
            r@ == "docker"@,
    {
        "docker"
    }

    /// A fresh parser per source.
    pub fn create(&self, source_id: &str, source_path: &str) -> (r: DockerParser)
        ensures
            r.source_id@ == source_id@,
            r.source_path@ == source_path@,
    {
        DockerParser::new(source_id, source_path)
    }
}

/// The level of a container line is the gravest word it holds, in any case:
/// `fatal` or `critical` make it fatal; else `error`, `err]` or `err:` an
/// error; else `warn` a warning; else `debug` debug; anything else is
/// information.
pub proof fn law_docker_levels(message: Seq<char>)
    ensures
        ({
            let l = unicode_lowercase(message);
            &&& (has_infix(l, "fatal"@) || has_infix(l, "critical"@)) ==> docker_level(message) == LogLevel::Fatal
            &&& (!has_infix(l, "fatal"@) && !has_infix(l, "critical"@) && (has_infix(l, "error"@) || has_infix(
                l,
                "err]"@,
            ) || has_infix(l, "err:"@))) ==> docker_level(message) == LogLevel::Error
            &&& (!has_infix(l, "fatal"@) && !has_infix(l, "critical"@) && !has_infix(l, "error"@) && !has_infix(
                l,
                "err]"@,
            ) && !has_infix(l, "err:"@) && has_infix(l, "warn"@)) ==> docker_level(message) == LogLevel::Warn
            &&& (!has_infix(l, "fatal"@) && !has_infix(l, "critical"@) && !has_infix(l, "error"@) && !has_infix(
                l,
                "err]"@,
            ) && !has_infix(l, "err:"@) && !has_infix(l, "warn"@) && has_infix(l, "debug"@)) ==> docker_level(message)
                == LogLevel::Debug
            &&& (!has_infix(l, "fatal"@) && !has_infix(l, "critical"@) && !has_infix(l, "error"@) && !has_infix(
                l,
                "err]"@,
            ) && !has_infix(l, "err:"@) && !has_infix(l, "warn"@) && !has_infix(l, "debug"@)) ==> docker_level(
                message,
            ) == LogLevel::Info
        }),
{
}

} // verus!
