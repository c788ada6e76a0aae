pub mod builtin;
pub mod registry;

use vstd::prelude::*;

use crate::collector::parser::json_parser::{json_can_handle, json_push_done, JsonParser, JsonPluginFactory};
use crate::collector::parser::plaintext_parser::{
    plain_can_handle, plaintext_push_done, finished_opt, PlaintextParser, PlaintextPluginFactory,
};
use crate::models::log_entry::LogEntry;
use crate::plugin::builtin::docker::{docker_can_handle, docker_push_done, DockerParser, DockerPluginFactory};
use crate::plugin::builtin::nginx::{nginx_can_handle, nginx_push_done, NginxParser, NginxPluginFactory};
use crate::text::{has_infix, has_suffix, texts, unicode_lowercase};

verus! {

#[derive(Clone, Debug)]
pub struct PluginMetadata {
    pub id: String,
    pub name: String,
    pub description: String,
    pub file_patterns: Vec<String>,
}

/// Id, name, description and file patterns, as texts.
pub type MetadataTexts = (Seq<char>, Seq<char>, Seq<char>, Seq<Seq<char>>);

impl PluginMetadata {
    /// The metadata as texts: id, name, description, file patterns.
    pub open spec fn view_texts(self) -> MetadataTexts {
        (self.id@, self.name@, self.description@, texts(self.file_patterns@))
    }
}

/// The metadata each built-in parser reports, by id.
pub open spec fn builtin_metadata(id: Seq<char>) -> MetadataTexts {
    if id == "nginx"@ {
        ("nginx"@, "Nginx"@, "Parses nginx combined access and error log format"@, seq!["*nginx*"@, "*access.log"@])
    } else if id == "docker"@ {
        ("docker"@, "Docker"@, "Parses Docker JSON log envelope format"@, seq!["*-json.log"@, "*docker*"@])
    } else if id == "json"@ {
        ("json"@, "JSON"@, "Parses structured JSON log lines (one object per line)"@, seq![
            "*.json"@,
            "*.jsonl"@,
            "*.ndjson"@,
        ])
    } else {
        ("plaintext"@, "Plaintext"@,
        "Parses plain text log files with timestamp+level prefix, supports stacktrace merging"@, seq![
            "*.log"@,
            "*.txt"@,
        ])
    }
}

/// Whether the parser with the given id claims a source path.
pub open spec fn can_handle_by_id(id: Seq<char>, path: Seq<char>) -> bool {
    if id == "nginx"@ {
        nginx_can_handle(path)
    } else if id == "docker"@ {
        docker_can_handle(path)
    } else if id == "json"@ {
        json_can_handle(path)
    } else if id == "plaintext"@ {
        plain_can_handle(path)
    } else {
        false
    }
}

/// The paths each built-in parser claims: nginx a path that, lower-cased,
/// names nginx or ends in `access.log` or `error.log`; docker a path that
/// names docker or ends in `-json.log`; json one ending in `.json`, `.jsonl`
/// or `.ndjson`; plaintext one ending in `.log` or `.txt`. No other parser
/// id claims any path.
pub proof fn law_claimed_paths(id: Seq<char>, path: Seq<char>)
    ensures
        id == "nginx"@ ==> (can_handle_by_id(id, path) <==> (has_infix(unicode_lowercase(path), "nginx"@) || has_suffix(
            unicode_lowercase(path),
            "access.log"@,
        ) || has_suffix(unicode_lowercase(path), "error.log"@))),
        id == "docker"@ ==> (can_handle_by_id(id, path) <==> (has_infix(path, "docker"@) || has_suffix(
            path,
            "-json.log"@,
        ))),
        id == "json"@ ==> (can_handle_by_id(id, path) <==> (has_suffix(path, ".json"@) || has_suffix(path, ".jsonl"@)
            || has_suffix(path, ".ndjson"@))),
        id == "plaintext"@ ==> (can_handle_by_id(id, path) <==> (has_suffix(path, ".log"@) || has_suffix(
            path,
            ".txt"@,
        ))),
        !(id == "nginx"@ || id == "docker"@ || id == "json"@ || id == "plaintext"@) ==> !can_handle_by_id(id, path),
{
    reveal_strlit("nginx");
    reveal_strlit("docker");
    reveal_strlit("json");
    reveal_strlit("plaintext");
    assert("nginx"@[0] == 'n' && "docker"@[0] == 'd' && "json"@[0] == 'j' && "plaintext"@[0] == 'p');
}

/// A log parser of one of the built-in formats, one per watched source.
pub enum LogParser {
    Nginx(NginxParser),
    Docker(DockerParser),
    Json(JsonParser),
    Plaintext(PlaintextParser),
}

impl LogParser {
    pub open spec fn parser_id(self) -> Seq<char> {
        match self {
            LogParser::Nginx(_) => "nginx"@,
            LogParser::Docker(_) => "docker"@,
            LogParser::Json(_) => "json"@,
            LogParser::Plaintext(_) => "plaintext"@,
        }
    }

    /// The source a parser reads: its id and path.
    pub open spec fn source(self) -> (Seq<char>, Seq<char>) {
        match self {
            LogParser::Nginx(p) => (p.source_id@, p.source_path@),
            LogParser::Docker(p) => (p.source_id@, p.source_path@),
            LogParser::Json(p) => (p.source_id@, p.source_path@),
            LogParser::Plaintext(p) => (p.source_id@, p.source_path@),
        }
    }

    /// Whether nothing is held back: only the plaintext parser ever holds an
    /// entry between lines.
    pub open spec fn is_idle(self) -> bool {
        match self {
            LogParser::Plaintext(p) => p.pending is None,
            _ => true,
        }
    }

    /// What one call of `push_line` does: that of the parser inside.
    pub open spec fn push_done(old_p: LogParser, line: Seq<char>, new_p: LogParser, r: Option<LogEntry>) -> bool {
        match (old_p, new_p) {
            (LogParser::Nginx(a), LogParser::Nginx(b)) => nginx_push_done(a, line, b, r),
            (LogParser::Docker(a), LogParser::Docker(b)) => docker_push_done(a, line, b, r),
            (LogParser::Json(a), LogParser::Json(b)) => json_push_done(a, line, b, r),
            (LogParser::Plaintext(a), LogParser::Plaintext(b)) => plaintext_push_done(a, line, b, r),
            _ => false,
        }
    }

    pub fn id(&self) -> (r: &str)
        ensures
            r@ == self.parser_id(),
    {
        match self {
            LogParser::Nginx(p) => p.id(),
            LogParser::Docker(p) => p.id(),
            LogParser::Json(p) => p.id(),
            LogParser::Plaintext(p) => p.id(),
        }
    }

    pub fn can_handle(&self, source_path: &str) -> (r: bool)
        ensures
            r == can_handle_by_id(self.parser_id(), source_path@),
    {
        proof {
            reveal_strlit("nginx");
            reveal_strlit("docker");
            reveal_strlit("json");
            reveal_strlit("plaintext");
        }
        match self {
            LogParser::Nginx(p) => p.can_handle(source_path),
            LogParser::Docker(p) => p.can_handle(source_path),
            LogParser::Json(p) => p.can_handle(source_path),
            LogParser::Plaintext(p) => p.can_handle(source_path),
        }
    }

    /// Returns a completed entry if a full entry is ready, `None` if the line
    /// is blank, unreadable or a continuation (stacktrace etc.).
    pub fn push_line(&mut self, line: &str) -> (r: Option<LogEntry>)
        ensures
            LogParser::push_done(*old(self), line@, *final(self), r),
            final(self).parser_id() == old(self).parser_id(),
            final(self).source() == old(self).source(),
    {
        match self {
            LogParser::Nginx(p) => p.push_line(line),
            LogParser::Docker(p) => p.push_line(line),
            LogParser::Json(p) => p.push_line(line),
            LogParser::Plaintext(p) => p.push_line(line),
        }
    }

    /// Flushes any buffered partial entry (on source close or end of input).
    pub fn flush(&mut self) -> (r: Option<LogEntry>)
        ensures
            final(self).is_idle(),
            final(self).parser_id() == old(self).parser_id(),
            final(self).source() == old(self).source(),
            match *old(self) {
                LogParser::Plaintext(p) => r == finished_opt(p.pending),
                _ => r is None && *final(self) == *old(self),
            },
    {
        match self {
            LogParser::Nginx(p) => p.flush(),
            LogParser::Docker(p) => p.flush(),
            LogParser::Json(p) => p.flush(),
            LogParser::Plaintext(p) => p.flush(),
        }
    }

    pub fn metadata(&self) -> (r: PluginMetadata)
        ensures
            r.view_texts().0 == builtin_metadata(self.parser_id()).0,
            r.view_texts().1 == builtin_metadata(self.parser_id()).1,
            r.view_texts().2 == builtin_metadata(self.parser_id()).2,
            r.view_texts().3 == builtin_metadata(self.parser_id()).3,
    {
        proof {
            reveal_strlit("nginx");
            reveal_strlit("docker");
            reveal_strlit("json");
            reveal_strlit("plaintext");
        }
        match self {
            LogParser::Nginx(p) => p.metadata(),
            LogParser::Docker(p) => p.metadata(),
            LogParser::Json(p) => p.metadata(),
            LogParser::Plaintext(p) => p.metadata(),
        }
    }
}

/// A factory of one of the built-in parsers.
#[derive(Clone, Copy, Debug)]
pub enum PluginFactory {
    Nginx(NginxPluginFactory),
    Docker(DockerPluginFactory),
    Json(JsonPluginFactory),
    Plaintext(PlaintextPluginFactory),
}

impl PluginFactory {
    pub open spec fn factory_id(self) -> Seq<char> {
        match self {
            PluginFactory::Nginx(_) => "nginx"@,
            PluginFactory::Docker(_) => "docker"@,
            PluginFactory::Json(_) => "json"@,
            PluginFactory::Plaintext(_) => "plaintext"@,
        }
    }

    pub fn id(&self) -> (r: &str)
        ensures
            r@ == self.factory_id(),
    {
        match self {
            PluginFactory::Nginx(f) => f.id(),
            PluginFactory::Docker(f) => f.id(),
            PluginFactory::Json(f) => f.id(),
            PluginFactory::Plaintext(f) => f.id(),
        }
    }

    /// Creates a fresh parser per source.
    pub fn create(&self, source_id: &str, source_path: &str) -> (r: LogParser)
        ensures
            r.parser_id() == self.factory_id(),
            r.source() == (source_id@, source_path@),
            r.is_idle(),
    {
        match self {
            PluginFactory::Nginx(f) => LogParser::Nginx(f.create(source_id, source_path)),
            PluginFactory::Docker(f) => LogParser::Docker(f.create(source_id, source_path)),
            PluginFactory::Json(f) => LogParser::Json(f.create(source_id, source_path)),
            PluginFactory::Plaintext(f) => LogParser::Plaintext(f.create(source_id, source_path)),
        }
    }
}

} // verus!
