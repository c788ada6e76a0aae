//! Parses JSON-structured log lines, one object per line.
use vstd::prelude::*;

use crate::clock::{now_millis, parse_utc_datetime, utc_datetime_millis};
use crate::json_line::{
    copy_member, find_member, json_document, lemma_members_pairs, member_get, members_model, members_view,
    pairs, parse_json, JsonDocument, JsonMember, MemberModel,
};
use crate::models::log_entry::{level_named, LogEntry, LogLevel};
use crate::plugin::PluginMetadata;
use crate::text::{
    chars_of, ends_with, eq_str, has_suffix, owned, string_of, texts, trim, trim_chars,
};

verus! {

pub type MemberViews = Seq<(Seq<char>, Option<Seq<char>>)>;

/// The value of the first of three keys that is present: its string text, or
/// `None` inside where that value is not a string.
pub open spec fn first_present(ms: MemberViews, a: Seq<char>, b: Seq<char>, c: Seq<char>) -> Option<Option<Seq<char>>> {
    match member_get(ms, a) {
        Some(t) => Some(t),
        None => match member_get(ms, b) {
            Some(t) => Some(t),
            None => member_get(ms, c),
        },
    }
}

/// The text found, or `default` where no key is present or its value is not
/// a string.
pub open spec fn text_or(found: Option<Option<Seq<char>>>, default: Seq<char>) -> Seq<char> {
    match found {
        Some(Some(t)) => t,
        _ => default,
    }
}

/// The level of an object: `level`, else `severity`, else `lvl`; `info` by default.
pub open spec fn json_level(ms: MemberViews) -> LogLevel {
    level_named(text_or(first_present(ms, "level"@, "severity"@, "lvl"@), "info"@))
}

/// The message of an object: `message`, else `msg`, else `text`; empty by default.
pub open spec fn json_message(ms: MemberViews) -> Seq<char> {
    text_or(first_present(ms, "message"@, "msg"@, "text"@), ""@)
}

/// The timestamp of an object, where `timestamp`, else `time`, else
/// `@timestamp` holds a text that chrono reads as a UTC date and time.
pub open spec fn json_timestamp(ms: MemberViews) -> Option<i64> {
    match first_present(ms, "timestamp"@, "time"@, "@timestamp"@) {
        Some(Some(t)) => utc_datetime_millis(t),
        _ => None,
    }
}

/// Whether a member stays among the entry's fields: all but the keys read
/// for message, level and time.
pub open spec fn kept_field(key: Seq<char>) -> bool {
    !(key == "message"@ || key == "msg"@ || key == "level"@ || key == "severity"@ || key == "timestamp"@
        || key == "time"@)
}

/// The members that stay among the entry's fields, in order.
pub open spec fn kept_members(ms: MemberViews) -> MemberViews
    decreases ms.len(),
{
    if ms.len() == 0 {
        ms
    } else if kept_field(ms.last().0) {
        kept_members(ms.drop_last()).push(ms.last())
    } else {
        kept_members(ms.drop_last())
    }
}

/// The members of a document, with their values: those of an object, none
/// otherwise.
pub open spec fn object_models(d: Option<Seq<MemberModel>>) -> Seq<MemberModel> {
    match d {
        Some(ms) => ms,
        None => Seq::empty(),
    }
}

/// The keys and string texts of a document's members.
pub open spec fn object_members(d: Option<Seq<MemberModel>>) -> MemberViews {
    pairs(object_models(d))
}

/// The members, with their values, that stay among the entry's fields, in
/// order.
pub open spec fn kept_models(ms: Seq<MemberModel>) -> Seq<MemberModel>
    decreases ms.len(),
{
    if ms.len() == 0 {
        ms
    } else if kept_field(ms.last().0) {
        kept_models(ms.drop_last()).push(ms.last())
    } else {
        kept_models(ms.drop_last())
    }
}

/// The message of an object is its `message` member; where there is none,
/// its `msg` member; where there is neither, its `text` member. The member
/// found gives its text where it is a string and the empty message
/// otherwise; an object with none of the three has the empty message.
pub proof fn law_message_keys(ms: MemberViews)
    ensures
        member_get(ms, "message"@) matches Some(v) ==> json_message(ms) == (match v {
            Some(t) => t,
            None => ""@,
        }),
        member_get(ms, "msg"@) matches Some(v) ==> (member_get(ms, "message"@) is None ==> json_message(ms) == (match v {
            Some(t) => t,
            None => ""@,
        })),
        member_get(ms, "text"@) matches Some(v) ==> (member_get(ms, "message"@) is None && member_get(ms, "msg"@) is None
            ==> json_message(ms) == (match v {
            Some(t) => t,
            None => ""@,
        })),
        (member_get(ms, "message"@) is None && member_get(ms, "msg"@) is None && member_get(ms, "text"@) is None)
            ==> json_message(ms) == ""@,
{
}

/// The level of an object is named by its `level` member; where there is
/// none, by `severity`; where there is neither, by `lvl`. The member found
/// names the level where it is a string; otherwise, and where none of the
/// three is present, the level is info.
pub proof fn law_level_keys(ms: MemberViews)
    ensures
        member_get(ms, "level"@) matches Some(v) ==> json_level(ms) == level_named(match v {
            Some(t) => t,
            None => "info"@,
        }),
        member_get(ms, "severity"@) matches Some(v) ==> (member_get(ms, "level"@) is None ==> json_level(ms)
            == level_named(match v {
            Some(t) => t,
            None => "info"@,
        })),
        member_get(ms, "lvl"@) matches Some(v) ==> (member_get(ms, "level"@) is None && member_get(ms, "severity"@)
            is None ==> json_level(ms) == level_named(match v {
            Some(t) => t,
            None => "info"@,
        })),
        (member_get(ms, "level"@) is None && member_get(ms, "severity"@) is None && member_get(ms, "lvl"@) is None)
            ==> json_level(ms) == level_named("info"@),
{
}

/// The time of an object is read from its `timestamp` member; where there is
/// none, from `time`; where there is neither, from `@timestamp`. The member
/// found gives a time only where it is a string that chrono reads as a UTC
/// date and time.
pub proof fn law_timestamp_keys(ms: MemberViews)
    ensures
        member_get(ms, "timestamp"@) matches Some(v) ==> json_timestamp(ms) == (match v {
            Some(t) => utc_datetime_millis(t),
            None => None,
        }),
        member_get(ms, "time"@) matches Some(v) ==> (member_get(ms, "timestamp"@) is None ==> json_timestamp(ms)
            == (match v {
            Some(t) => utc_datetime_millis(t),
            None => None,
        })),
        member_get(ms, "@timestamp"@) matches Some(v) ==> (member_get(ms, "timestamp"@) is None && member_get(
            ms,
            "time"@,
        ) is None ==> json_timestamp(ms) == (match v {
            Some(t) => utc_datetime_millis(t),
            None => None,
        })),
        (member_get(ms, "timestamp"@) is None && member_get(ms, "time"@) is None && member_get(ms, "@timestamp"@)
            is None) ==> json_timestamp(ms) is None,
{
}

/// The keys read for message, level and time (`message`, `msg`, `level`,
/// `severity`, `timestamp`, `time`).
pub open spec fn read_keys() -> Seq<Seq<char>> {
    seq!["message"@, "msg"@, "level"@, "severity"@, "timestamp"@, "time"@]
}

/// The entry's fields are the object's other members: none of them has a key
/// read for message, level or time, and every member with another key stays,
/// with its text.
pub proof fn law_fields_keep_the_other_members(ms: MemberViews)
    ensures
        forall|i: int| 0 <= i < kept_members(ms).len() ==> !read_keys().contains(#[trigger] kept_members(ms)[i].0),
        forall|i: int| 0 <= i < ms.len() && !read_keys().contains(#[trigger] ms[i].0) ==> kept_members(ms).contains(ms[i]),
        kept_members(ms).len() <= ms.len(),
    decreases ms.len(),
{
    if ms.len() > 0 {
        law_fields_keep_the_other_members(ms.drop_last());
        let k0 = kept_members(ms.drop_last());
        let last = ms.last();
        assert(read_keys()[0] == "message"@);
        assert(read_keys()[1] == "msg"@);
        assert(read_keys()[2] == "level"@);
        assert(read_keys()[3] == "severity"@);
        assert(read_keys()[4] == "timestamp"@);
        assert(read_keys()[5] == "time"@);
        assert forall|key: Seq<char>| read_keys().contains(key) <==> !kept_field(key) by {
            if !kept_field(key) {
                if key == "message"@ { assert(read_keys()[0] == key); }
                else if key == "msg"@ { assert(read_keys()[1] == key); }
                else if key == "level"@ { assert(read_keys()[2] == key); }
                else if key == "severity"@ { assert(read_keys()[3] == key); }
                else if key == "timestamp"@ { assert(read_keys()[4] == key); }
                else { assert(read_keys()[5] == key); }
            }
        }
        assert forall|i: int| 0 <= i < kept_members(ms).len() implies !read_keys().contains(#[trigger] kept_members(ms)[i].0) by {
            if kept_field(last.0) && i == k0.len() {
                assert(kept_members(ms)[i] == last);
            } else {
                assert(kept_members(ms)[i] == k0[i]);
            }
        }
        assert forall|i: int| 0 <= i < ms.len() && !read_keys().contains(#[trigger] ms[i].0) implies kept_members(ms).contains(ms[i]) by {
            if i < ms.len() - 1 {
                assert(ms[i] == ms.drop_last()[i]);
                assert(k0.contains(ms[i]));
                if kept_field(last.0) {
                    let j = choose|j: int| 0 <= j < k0.len() && k0[j] == ms[i];
                    assert(kept_members(ms)[j] == ms[i]);
                }
            } else {
                assert(kept_members(ms)[k0.len() as int] == last);
            }
        }
    }
}

/// Whether a line yields an entry: it is not blank and its trimmed text
/// parses as JSON.
pub open spec fn json_line_parses(line: Seq<char>) -> bool {
    trim(line).len() > 0 && json_document(trim(line)) is Some
}

/// The members of the object a line holds.
pub open spec fn json_line_members(line: Seq<char>) -> MemberViews {
    object_members(json_document(trim(line)).unwrap())
}

/// The members of the object a line holds, with their values.
pub open spec fn json_line_models(line: Seq<char>) -> Seq<MemberModel> {
    object_models(json_document(trim(line)).unwrap())
}

/// What one call of `push_line` does, from the parser before to the parser after.
pub open spec fn json_push_done(old_p: JsonParser, line: Seq<char>, new_p: JsonParser, r: Option<LogEntry>) -> bool {
    &&& new_p.source_id == old_p.source_id
    &&& new_p.source_path == old_p.source_path
    &&& r is Some <==> json_line_parses(line)
    &&& r matches Some(e) ==> {
                let ms = json_line_members(line);
                &&& e.level == json_level(ms)
                &&& e.message@ == json_message(ms)
                &&& (json_timestamp(ms) matches Some(t) ==> e.timestamp == t)
                &&& members_view(e.fields@) == kept_members(ms)
                &&& members_model(e.fields@) == kept_models(json_line_models(line))
                &&& e.stacktrace is None
                &&& texts(e.raw_lines@) == seq![line]
                &&& e.parser_id@ == "json"@
                &&& e.source_id@ == old_p.source_id@
                &&& e.source_path@ == old_p.source_path@
            }
}

/// Parses JSON-structured log lines (one JSON object per line).
pub struct JsonParser {
    pub source_id: String,
    pub source_path: String,
}

pub open spec fn json_can_handle(path: Seq<char>) -> bool {
    has_suffix(path, ".json"@) || has_suffix(path, ".jsonl"@) || has_suffix(path, ".ndjson"@)
}

/// The text of the first present key among three, as `first_present` finds it.
fn first_present_text(ms: &Vec<JsonMember>, a: &str, b: &str, c: &str) -> (r: Option<Option<String>>)
    ensures
        match r {
            None => first_present(members_view(ms@), a@, b@, c@) is None,
            Some(None) => first_present(members_view(ms@), a@, b@, c@) == Some(None::<Seq<char>>),
            Some(Some(t)) => first_present(members_view(ms@), a@, b@, c@) == Some(Some(t@)),
        },
{
    let found = match find_member(ms, a) {
        Some(i) => Some(i),
        None => match find_member(ms, b) {
            Some(i) => Some(i),
            None => find_member(ms, c),
        },
    };
    match found {
        Some(i) => match &ms[i].text {
            Some(t) => Some(Some(t.clone())),
            None => Some(None),
        },
        None => None,
    }
}

impl JsonParser {
    pub fn new(source_id: &str, source_path: &str) -> (r: JsonParser)
        ensures
            r.source_id@ == source_id@,
            r.source_path@ == source_path@,
    {
        JsonParser { source_id: owned(source_id), source_path: owned(source_path) }
    }

    pub fn id(&self) -> (r: &str)
        ensures
            r@ == "json"@,
    {
        "json"
    }

    pub fn can_handle(&self, source_path: &str) -> (r: bool)
        ensures
            r == json_can_handle(source_path@),
    {
        let p = chars_of(source_path);
        let p = p.as_slice();
        ends_with(p, ".json") || ends_with(p, ".jsonl") || ends_with(p, ".ndjson")
    }

    /// Reads one line: a blank line or one that is not JSON gives nothing;
    /// any other gives an entry with the object's level, message, timestamp
    /// (now where none is readable) and remaining fields.
    pub fn push_line(&mut self, line: &str) -> (r: Option<LogEntry>)
        ensures
            json_push_done(*old(self), line@, *final(self), r),
    {
        let v = chars_of(line);
        let t = trim_chars(v.as_slice());
        if t.len() == 0 {
            return None;
        }
        let trimmed = string_of(t.as_slice());
        let doc = match parse_json(trimmed.as_str()) {
            Some(d) => d,
            None => {
                return None;
            },
        };
        let members: Vec<JsonMember> = match doc {
            JsonDocument::Object(ms) => ms,
            JsonDocument::Other => Vec::new(),
        };
        assert(members_model(members@) =~= json_line_models(line@));
        proof {
            lemma_members_pairs(members@);
        }
        assert(members_view(members@) =~= json_line_members(line@));

        let level = match first_present_text(&members, "level", "severity", "lvl") {
            Some(Some(s)) => LogLevel::from_str(s.as_str()),
            _ => LogLevel::from_str("info"),
        };
        let message = match first_present_text(&members, "message", "msg", "text") {
            Some(Some(s)) => s,
            _ => owned(""),
        };
        let timestamp = match first_present_text(&members, "timestamp", "time", "@timestamp") {
            Some(Some(s)) => match parse_utc_datetime(s.as_str()) {
                Some(ms) => ms,
                None => now_millis(),
            },
            _ => now_millis(),
        };

        let mut fields: Vec<JsonMember> = Vec::new();
        let mut i: usize = 0;
        while i < members.len()
            invariant
                i <= members.len(),
                members_view(fields@) == kept_members(members_view(members@).take(i as int)),
                members_model(fields@) == kept_models(members_model(members@).take(i as int)),
            decreases members.len() - i,
        {
            let k = chars_of(members[i].key.as_str());
            let k = k.as_slice();
            let drop = eq_str(k, "message") || eq_str(k, "msg") || eq_str(k, "level") || eq_str(
                k,
                "severity",
            ) || eq_str(k, "timestamp") || eq_str(k, "time");
            assert(members_view(members@).take(i + 1).drop_last() =~= members_view(members@).take(
                i as int,
            ));
            assert(members_model(members@).take(i + 1).drop_last() =~= members_model(members@).take(
                i as int,
            ));
            if !drop {
                fields.push(copy_member(&members[i]));
                assert(members_view(fields@) =~= kept_members(members_view(members@).take(i as int)).push(
                    members_view(members@)[i as int],
                ));
                assert(members_model(fields@) =~= kept_models(members_model(members@).take(i as int)).push(
                    members_model(members@)[i as int],
                ));
            }
            i = i + 1;
        }
        assert(members_view(members@).take(members.len() as int) =~= members_view(members@));
        assert(members_model(members@).take(members.len() as int) =~= members_model(members@));

        let mut entry = LogEntry::new(
            self.source_id.as_str(),
            self.source_path.as_str(),
            timestamp,
            level,
            message,
            "json",
        );
        entry.fields = fields;
        let mut raw: Vec<String> = Vec::new();
        raw.push(owned(line));
        entry.raw_lines = raw;
        assert(texts(entry.raw_lines@) =~= seq![line@]);
        Some(entry)
    }

    /// Nothing is ever held back between lines.
    pub fn flush(&mut self) -> (r: Option<LogEntry>)
        ensures
            r is None,
            *final(self) == *old(self),
    {
        None
    }

    pub fn metadata(&self) -> (r: PluginMetadata)
        ensures
            r.view_texts() == ("json"@, "JSON"@,
            "Parses structured JSON log lines (one object per line)"@, seq!["*.json"@, "*.jsonl"@, "*.ndjson"@]),
    {
        let mut patterns: Vec<String> = Vec::new();
        patterns.push(owned("*.json"));
        patterns.push(owned("*.jsonl"));
        patterns.push(owned("*.ndjson"));
        let r = PluginMetadata {
            id: owned("json"),
            name: owned("JSON"),
            description: owned("Parses structured JSON log lines (one object per line)"),
            file_patterns: patterns,
        };
        assert(texts(r.file_patterns@) =~= seq!["*.json"@, "*.jsonl"@, "*.ndjson"@]);
        r
    }
}

#[derive(Clone, Copy, Debug)]
pub struct JsonPluginFactory;

impl JsonPluginFactory {
    pub fn id(&self) -> (r: &str)
        ensures
            r@ == "json"@,
    {
        "json"
    }

    /// A fresh parser per source.
    pub fn create(&self, source_id: &str, source_path: &str) -> (r: JsonParser)
        ensures
            r.source_id@ == source_id@,
            r.source_path@ == source_path@,
    {
        JsonParser::new(source_id, source_path)
    }
}

} // verus!
