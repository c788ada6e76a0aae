//! Inspects configuration files (YAML, JSON, TOML) for empty sensitive keys
//! and privileged ports, once their text has been parsed into a tree.
pub mod document;

use vstd::prelude::*;

use crate::config_inspector::document::{
    config_document, doc_view, entries_view, items_view, lemma_entries_view, lemma_items_view, parse_config, DocModel,
};
use crate::pattern::opt_text;
use crate::text::{
    chars_of, decimal, eq_str, owned, push_chars, push_str, string_of, to_decimal, to_lowercase,
    unicode_lowercase,
};

verus! {

/// A parsed document (a configuration file, or a JSON reply), as far as the
/// library reads it.
#[derive(Debug)]
pub enum ConfigValue {
    Null,
    Text(String),
    /// A number, with its value where it is a non-negative integer that fits a `u64`.
    Number(Option<u64>),
    Sequence(Vec<ConfigValue>),
    /// The entries of a mapping, in the parser's order.
    Mapping(Vec<ConfigEntry>),
    /// Booleans, dates and anything else.
    Other,
}

/// An entry of a mapping; the key is `None` where it is not a string.
#[derive(Debug)]
pub struct ConfigEntry {
    pub key: Option<String>,
    pub value: ConfigValue,
}

#[derive(Clone, Copy, Debug, PartialEq, Eq, Structural)]
pub enum ConfigFormat {
    Yaml,
    Json,
    Toml,
}

#[derive(Clone, Debug)]
pub struct ConfigIssue {
    pub severity: String,
    pub key: String,
    pub message: String,
    pub suggestion: Option<String>,
}

#[derive(Clone, Debug)]
pub struct ConfigInspectionResult {
    pub file_path: String,
    pub format: String,
    pub issues: Vec<ConfigIssue>,
    pub key_count: usize,
    pub parsed_ok: bool,
}

/// Severity, key, message and suggestion of an issue, as texts.
pub type IssueView = (Seq<char>, Seq<char>, Seq<char>, Option<Seq<char>>);

pub open spec fn issue_view(i: ConfigIssue) -> IssueView {
    (i.severity@, i.key@, i.message@, match i.suggestion {
        Some(s) => Some(s@),
        None => None,
    })
}

pub open spec fn issues_view(v: Seq<ConfigIssue>) -> Seq<IssueView> {
    v.map_values(|i: ConfigIssue| issue_view(i))
}

/// The number of keys in a document: every entry of every mapping, at any depth.
pub open spec fn count_keys(v: ConfigValue) -> nat
    decreases v, 0nat,
{
    match v {
        ConfigValue::Mapping(es) => es@.len() + entry_keys(es@, es@.len() as int),
        ConfigValue::Sequence(vs) => item_keys(vs@, vs@.len() as int),
        _ => 0,
    }
}

/// The keys below the first `n` entries of a mapping.
pub open spec fn entry_keys(es: Seq<ConfigEntry>, n: int) -> nat
    decreases es, n,
{
    if n <= 0 || n > es.len() {
        0
    } else {
        entry_keys(es, n - 1) + count_keys(es[n - 1].value)
    }
}

/// The keys in the first `n` items of a sequence.
pub open spec fn item_keys(vs: Seq<ConfigValue>, n: int) -> nat
    decreases vs, n,
{
    if n <= 0 || n > vs.len() {
        0
    } else {
        item_keys(vs, n - 1) + count_keys(vs[n - 1])
    }
}

/// The name an entry's key goes by: the key, or `<key>` where it is not a string.
pub open spec fn key_name(k: Option<String>) -> Seq<char> {
    match k {
        Some(s) => s@,
        None => "<key>"@,
    }
}

/// The dotted path of a key below a prefix.
pub open spec fn full_key(prefix: Seq<char>, key: Seq<char>) -> Seq<char> {
    if prefix.len() == 0 {
        key
    } else {
        prefix + "."@ + key
    }
}

pub open spec fn is_empty_text(v: ConfigValue) -> bool {
    v matches ConfigValue::Text(s) && s@.len() == 0
}

/// The issues an entry raises by itself, in the rules of each format.
pub open spec fn entry_issues(fmt: ConfigFormat, key: Seq<char>, value: ConfigValue, full: Seq<char>) -> Seq<IssueView> {
    match fmt {
        ConfigFormat::Json => {
            if (key == "password"@ || key == "secret"@ || key == "token"@ || key == "apiKey"@ || key
                == "api_key"@) && (is_empty_text(value) || value is Null) {
                seq![("warning"@, full, "Sensitive key '"@ + full + "' is empty"@, None)]
            } else {
                seq![]
            }
        },
        ConfigFormat::Toml => {
            if (key == "password"@ || key == "secret"@ || key == "token"@) && is_empty_text(value) {
                seq![("warning"@, full, "Sensitive key '"@ + full + "' is empty"@, None)]
            } else {
                seq![]
            }
        },
        ConfigFormat::Yaml => {
            let empty = if (key == "host"@ || key == "password"@ || key == "secret"@ || key == "token"@ || key
                == "key"@ || key == "url"@ || key == "database"@) && (value is Null || is_empty_text(value)) {
                seq![("warning"@, full, "Key '"@ + full + "' appears to be empty or null"@, Some("Ensure this value is set correctly"@))]
            } else {
                seq![]
            };
            let port = if key == "port"@ && (value matches ConfigValue::Number(Some(p)) && p < 1024) {
                let p = value->Number_0.unwrap();
                seq![("info"@, full, "Port "@ + decimal(p as nat) + " is a privileged port (< 1024)"@, Some("May require root/admin permissions"@))]
            } else {
                seq![]
            };
            empty + port
        },
    }
}

/// The issues of a document below a key prefix: each mapping entry's own
/// issues, then those of its value; only mappings are looked into.
pub open spec fn issues_of(fmt: ConfigFormat, v: ConfigValue, prefix: Seq<char>) -> Seq<IssueView>
    decreases v, 0nat,
{
    match v {
        ConfigValue::Mapping(es) => entries_issues(fmt, es@, es@.len() as int, prefix),
        _ => seq![],
    }
}

/// The issues of the first `n` entries of a mapping.
pub open spec fn entries_issues(fmt: ConfigFormat, es: Seq<ConfigEntry>, n: int, prefix: Seq<char>) -> Seq<IssueView>
    decreases es, n,
{
    if n <= 0 || n > es.len() {
        seq![]
    } else {
        let e = es[n - 1];
        let full = full_key(prefix, key_name(e.key));
        entries_issues(fmt, es, n - 1, prefix) + entry_issues(fmt, key_name(e.key), e.value, full) + issues_of(
            fmt,
            e.value,
            full,
        )
    }
}

} // verus!

verus! {

/// Partial key counts never exceed the full count.
proof fn lemma_entry_keys_mono(es: Seq<ConfigEntry>, i: int, n: int)
    requires
        0 <= i <= n <= es.len(),
    ensures
        entry_keys(es, i) <= entry_keys(es, n),
    decreases n - i,
{
    if i < n {
        lemma_entry_keys_mono(es, i, n - 1);
    }
}

proof fn lemma_item_keys_mono(vs: Seq<ConfigValue>, i: int, n: int)
    requires
        0 <= i <= n <= vs.len(),
    ensures
        item_keys(vs, i) <= item_keys(vs, n),
    decreases n - i,
{
    if i < n {
        lemma_item_keys_mono(vs, i, n - 1);
    }
}

/// Counts the keys of a document, as `count_keys` defines them.
pub fn key_count(v: &ConfigValue) -> (n: usize)
    requires
        count_keys(*v) <= usize::MAX,
    ensures
        n == count_keys(*v),
    decreases *v,
{
    match v {
        ConfigValue::Mapping(es) => {
            let mut total: usize = es.len();
            let mut i: usize = 0;
            while i < es.len()
                invariant
                    i <= es.len(),
                    count_keys(*v) <= usize::MAX,
                    *v == ConfigValue::Mapping(*es),
                    total == es@.len() + entry_keys(es@, i as int),
                decreases es.len() - i,
            {
                proof {
                    lemma_entry_keys_mono(es@, i as int + 1, es@.len() as int);
                }
                let k = key_count(&es[i].value);
                total = total + k;
                i = i + 1;
            }
            total
        },
        ConfigValue::Sequence(vs) => {
            let mut total: usize = 0;
            let mut i: usize = 0;
            while i < vs.len()
                invariant
                    i <= vs.len(),
                    count_keys(*v) <= usize::MAX,
                    *v == ConfigValue::Sequence(*vs),
                    total == item_keys(vs@, i as int),
                decreases vs.len() - i,
            {
                proof {
                    lemma_item_keys_mono(vs@, i as int + 1, vs@.len() as int);
                }
                let k = key_count(&vs[i]);
                total = total + k;
                i = i + 1;
            }
            total
        },
        _ => 0,
    }
}

} // verus!

verus! {

fn key_text(k: &Option<String>) -> (r: Vec<char>)
    ensures
        r@ == key_name(*k),
{
    match k {
        Some(s) => chars_of(s.as_str()),
        None => chars_of("<key>"),
    }
}

fn dotted(prefix: &[char], key: &[char]) -> (r: Vec<char>)
    ensures
        r@ == full_key(prefix@, key@),
{
    if prefix.len() == 0 {
        let mut r: Vec<char> = Vec::new();
        push_chars(&mut r, key);
        assert(r@ =~= key@);
        r
    } else {
        let mut r: Vec<char> = Vec::new();
        push_chars(&mut r, prefix);
        push_str(&mut r, ".");
        push_chars(&mut r, key);
        assert(r@ =~= prefix@ + "."@ + key@);
        r
    }
}

fn push_issue(issues: &mut Vec<ConfigIssue>, issue: ConfigIssue)
    ensures
        issues_view(final(issues)@) == issues_view(old(issues)@).push(issue_view(issue)),
{
    issues.push(issue);
    assert(issues_view(issues@) =~= issues_view(old(issues)@).push(issue_view(issue)));
}

/// `prefix`, the full key, then `suffix`, as one text.
fn framed(prefix: &str, full: &[char], suffix: &str) -> (r: String)
    ensures
        r@ == prefix@ + full@ + suffix@,
{
    let mut m: Vec<char> = Vec::new();
    push_str(&mut m, prefix);
    push_chars(&mut m, full);
    push_str(&mut m, suffix);
    assert(m@ =~= prefix@ + full@ + suffix@);
    string_of(m.as_slice())
}

fn is_json_sensitive(key: &[char]) -> (r: bool)
    ensures
        r == (key@ == "password"@ || key@ == "secret"@ || key@ == "token"@ || key@ == "apiKey"@ || key@
            == "api_key"@),
{
    eq_str(key, "password") || eq_str(key, "secret") || eq_str(key, "token") || eq_str(key, "apiKey")
        || eq_str(key, "api_key")
}

fn is_toml_sensitive(key: &[char]) -> (r: bool)
    ensures
        r == (key@ == "password"@ || key@ == "secret"@ || key@ == "token"@),
{
    eq_str(key, "password") || eq_str(key, "secret") || eq_str(key, "token")
}

fn is_yaml_watched(key: &[char]) -> (r: bool)
    ensures
        r == (key@ == "host"@ || key@ == "password"@ || key@ == "secret"@ || key@ == "token"@ || key@
            == "key"@ || key@ == "url"@ || key@ == "database"@),
{
    eq_str(key, "host") || eq_str(key, "password") || eq_str(key, "secret") || eq_str(key, "token")
        || eq_str(key, "key") || eq_str(key, "url") || eq_str(key, "database")
}

fn empty_text(v: &ConfigValue) -> (r: bool)
    ensures
        r == is_empty_text(*v),
{
    match v {
        ConfigValue::Text(s) => {
            let c = chars_of(s.as_str());
            c.len() == 0
        },
        _ => false,
    }
}

fn is_null(v: &ConfigValue) -> (r: bool)
    ensures
        r == (*v is Null),
{
    match v {
        ConfigValue::Null => true,
        _ => false,
    }
}

/// Appends the issues that one entry raises by itself.
fn push_entry_issues(
    fmt: ConfigFormat,
    key: &[char],
    value: &ConfigValue,
    full: &[char],
    issues: &mut Vec<ConfigIssue>,
)
    ensures
        issues_view(final(issues)@) == issues_view(old(issues)@) + entry_issues(fmt, key@, *value, full@),
{
    let ghost start = issues_view(issues@);
    match fmt {
        ConfigFormat::Json => {
            if is_json_sensitive(key) && (empty_text(value) || is_null(value)) {
                let issue = ConfigIssue {
                    severity: owned("warning"),
                    key: string_of(full),
                    message: framed("Sensitive key '", full, "' is empty"),
                    suggestion: None,
                };
                push_issue(issues, issue);
            }
            assert(issues_view(issues@) =~= start + entry_issues(fmt, key@, *value, full@));
        },
        ConfigFormat::Toml => {
            if is_toml_sensitive(key) && empty_text(value) {
                let issue = ConfigIssue {
                    severity: owned("warning"),
                    key: string_of(full),
                    message: framed("Sensitive key '", full, "' is empty"),
                    suggestion: None,
                };
                push_issue(issues, issue);
            }
            assert(issues_view(issues@) =~= start + entry_issues(fmt, key@, *value, full@));
        },
        ConfigFormat::Yaml => {
            if is_yaml_watched(key) && (is_null(value) || empty_text(value)) {
                let issue = ConfigIssue {
                    severity: owned("warning"),
                    key: string_of(full),
                    message: framed("Key '", full, "' appears to be empty or null"),
                    suggestion: Some(owned("Ensure this value is set correctly")),
                };
                push_issue(issues, issue);
            }
            let ghost mid = issues_view(issues@);
            if eq_str(key, "port") {
                if let ConfigValue::Number(Some(p)) = value {
                    if *p < 1024 {
                        let digits = to_decimal(*p);
                        let mut m: Vec<char> = Vec::new();
                        push_str(&mut m, "Port ");
                        push_chars(&mut m, digits.as_slice());
                        push_str(&mut m, " is a privileged port (< 1024)");
                        let issue = ConfigIssue {
                            severity: owned("info"),
                            key: string_of(full),
                            message: string_of(m.as_slice()),
                            suggestion: Some(owned("May require root/admin permissions")),
                        };
                        push_issue(issues, issue);
                    }
                }
            }
            assert(issues_view(issues@) =~= start + entry_issues(fmt, key@, *value, full@));
        },
    }
}

/// Appends the issues of a document below a key prefix, as `issues_of`
/// defines them.
fn check_issues(fmt: ConfigFormat, v: &ConfigValue, issues: &mut Vec<ConfigIssue>, prefix: &[char])
    ensures
        issues_view(final(issues)@) == issues_view(old(issues)@) + issues_of(fmt, *v, prefix@),
    decreases *v,
{
    match v {
        ConfigValue::Mapping(es) => {
            let mut i: usize = 0;
            while i < es.len()
                invariant
                    i <= es.len(),
                    *v == ConfigValue::Mapping(*es),
                    issues_view(issues@) == issues_view(old(issues)@) + entries_issues(
                        fmt,
                        es@,
                        i as int,
                        prefix@,
                    ),
                decreases es.len() - i,
            {
                let ghost before = issues_view(issues@);
                let key = key_text(&es[i].key);
                let full = dotted(prefix, key.as_slice());
                push_entry_issues(fmt, key.as_slice(), &es[i].value, full.as_slice(), issues);
                assert(decreases_to!(*v => es@[i as int].value)) by {
                    assert(decreases_to!(*v => v->Mapping_0));
                    assert(decreases_to!(*es => es@));
                    assert(decreases_to!(es@ => es@[i as int]));
                }
                check_issues(fmt, &es[i].value, issues, full.as_slice());
                i = i + 1;
                assert(issues_view(issues@) =~= issues_view(old(issues)@) + entries_issues(
                    fmt,
                    es@,
                    i as int,
                    prefix@,
                ));
            }
        },
        _ => {
            assert(issues_view(issues@) =~= issues_view(old(issues)@) + issues_of(fmt, *v, prefix@));
        },
    }
}

} // verus!

verus! {

/// The name a format is reported under.
pub open spec fn format_name(fmt: ConfigFormat) -> Seq<char> {
    match fmt {
        ConfigFormat::Yaml => "yaml"@,
        ConfigFormat::Json => "json"@,
        ConfigFormat::Toml => "toml"@,
    }
}

/// The one issue reported for a document that does not parse, given the
/// parser's own description of the fault.
pub open spec fn parse_error_issue(fmt: ConfigFormat, error: Seq<char>) -> IssueView {
    match fmt {
        ConfigFormat::Yaml => ("error"@, "<root>"@, "YAML parse error: "@ + error, Some(
            "Check for indentation issues or invalid YAML syntax"@,
        )),
        ConfigFormat::Json => ("error"@, "<root>"@, "JSON parse error: "@ + error, Some(
            "Check for missing commas, brackets, or invalid JSON syntax"@,
        )),
        ConfigFormat::Toml => ("error"@, "<root>"@, "TOML parse error: "@ + error, Some(
            "Check TOML syntax"@,
        )),
    }
}

/// Whether a parse outcome is small enough for its key count to fit a `usize`.
pub open spec fn countable(parsed: Result<ConfigValue, String>) -> bool {
    match parsed {
        Ok(v) => count_keys(v) <= usize::MAX,
        Err(_) => true,
    }
}

/// What inspecting a file of a known format gives, once its text has been
/// parsed (`Ok`) or refused by the parser (`Err`, with the parser's message).
pub open spec fn inspection_holds(
    r: ConfigInspectionResult,
    path: Seq<char>,
    fmt: ConfigFormat,
    parsed: Result<ConfigValue, String>,
) -> bool {
    &&& r.file_path@ == path
    &&& r.format@ == format_name(fmt)
    &&& match parsed {
        Ok(v) => {
            &&& r.parsed_ok
            &&& r.key_count == count_keys(v)
            &&& issues_view(r.issues@) == issues_of(fmt, v, seq![])
        },
        Err(e) => {
            &&& !r.parsed_ok
            &&& r.key_count == 0
            &&& issues_view(r.issues@) == seq![parse_error_issue(fmt, e@)]
        },
    }
}

fn format_text(fmt: ConfigFormat) -> (r: String)
    ensures
        r@ == format_name(fmt),
{
    match fmt {
        ConfigFormat::Yaml => owned("yaml"),
        ConfigFormat::Json => owned("json"),
        ConfigFormat::Toml => owned("toml"),
    }
}

fn parse_error(fmt: ConfigFormat, error: &str) -> (r: ConfigIssue)
    ensures
        issue_view(r) == parse_error_issue(fmt, error@),
{
    let (lead, hint) = match fmt {
        ConfigFormat::Yaml => ("YAML parse error: ", "Check for indentation issues or invalid YAML syntax"),
        ConfigFormat::Json => ("JSON parse error: ", "Check for missing commas, brackets, or invalid JSON syntax"),
        ConfigFormat::Toml => ("TOML parse error: ", "Check TOML syntax"),
    };
    let mut m: Vec<char> = Vec::new();
    push_str(&mut m, lead);
    push_str(&mut m, error);
    ConfigIssue {
        severity: owned("error"),
        key: owned("<root>"),
        message: string_of(m.as_slice()),
        suggestion: Some(owned(hint)),
    }
}

/// Inspects a document of a known format: counts its keys and lists its
/// issues, or reports the parse error.
pub fn inspect_parsed(path: &str, fmt: ConfigFormat, parsed: Result<ConfigValue, String>) -> (r:
    ConfigInspectionResult)
    requires
        countable(parsed),
    ensures
        inspection_holds(r, path@, fmt, parsed),
{
    let mut issues: Vec<ConfigIssue> = Vec::new();
    match parsed {
        Ok(value) => {
            let key_count = key_count(&value);
            let empty: Vec<char> = Vec::new();
            check_issues(fmt, &value, &mut issues, empty.as_slice());
            assert(issues_view(issues@) =~= issues_of(fmt, value, seq![]));
            ConfigInspectionResult {
                file_path: owned(path),
                format: format_text(fmt),
                issues,
                key_count,
                parsed_ok: true,
            }
        },
        Err(e) => {
            let issue = parse_error(fmt, e.as_str());
            push_issue(&mut issues, issue);
            assert(issues_view(issues@) =~= seq![parse_error_issue(fmt, e@)]);
            ConfigInspectionResult {
                file_path: owned(path),
                format: format_text(fmt),
                issues,
                key_count: 0,
                parsed_ok: false,
            }
        },
    }
}

/// The format an extension names, matched exactly (callers lower-case it).
pub open spec fn format_of(ext: Seq<char>) -> Option<ConfigFormat> {
    if ext == "yaml"@ || ext == "yml"@ {
        Some(ConfigFormat::Yaml)
    } else if ext == "json"@ {
        Some(ConfigFormat::Json)
    } else if ext == "toml"@ {
        Some(ConfigFormat::Toml)
    } else {
        None
    }
}

/// The format for a lower-cased extension, or the error naming it.
pub fn format_for_extension(ext: &str) -> (r: Result<ConfigFormat, String>)
    ensures
        match r {
            Ok(f) => format_of(ext@) == Some(f),
            Err(e) => format_of(ext@) is None && e@ == "Unsupported config format: "@ + ext@,
        },
{
    let v = chars_of(ext);
    if eq_str(v.as_slice(), "yaml") || eq_str(v.as_slice(), "yml") {
        Ok(ConfigFormat::Yaml)
    } else if eq_str(v.as_slice(), "json") {
        Ok(ConfigFormat::Json)
    } else if eq_str(v.as_slice(), "toml") {
        Ok(ConfigFormat::Toml)
    } else {
        let mut m: Vec<char> = Vec::new();
        push_str(&mut m, "Unsupported config format: ");
        push_str(&mut m, ext);
        Err(string_of(m.as_slice()))
    }
}

/// What `Path::extension` gives for a path, as text: the part of the file
/// name after its last dot, if any (rules on leading dots and trailing
/// separators included).
pub uninterp spec fn path_extension(path: Seq<char>) -> Option<Seq<char>>;

/// Calls `Path::extension` on a path given as text. The result is named;
/// it depends on the path alone. A path built from a `str` is valid UTF-8,
/// so the extension always converts back to text.
#[verifier::external_body]
fn extension_of(path: &str) -> (r: Option<String>)
    ensures
        opt_text(r) == path_extension(path@),
{
    std::path::Path::new(path).extension().and_then(|e| e.to_str()).map(|e| e.to_string())
}

/// The lower-cased extension that decides a file's format (empty where the
/// path has none).
pub open spec fn extension_key(path: Seq<char>) -> Seq<char> {
    unicode_lowercase(
        match path_extension(path) {
            Some(e) => e,
            None => seq![],
        },
    )
}

/// The format of a configuration file, from its extension.
pub fn config_format(path: &str) -> (r: Result<ConfigFormat, String>)
    ensures
        match r {
            Ok(f) => format_of(extension_key(path@)) == Some(f),
            Err(e) => format_of(extension_key(path@)) is None && e@ == "Unsupported config format: "@
                + extension_key(path@),
        },
{
    let ext = match extension_of(path) {
        Some(e) => e,
        None => {
            let e = owned("");
            proof {
                reveal_strlit("");
            }
            assert(e@ =~= seq![]);
            e
        },
    };
    let lower = to_lowercase(ext.as_str());
    format_for_extension(lower.as_str())
}

/// Inspects a configuration file whose text the caller has read and parsed
/// in the format its extension names. An unknown extension is an error.
pub fn inspect_file(path: &str, parsed: Result<ConfigValue, String>) -> (r: Result<ConfigInspectionResult, String>)
    requires
        countable(parsed),
    ensures
        match r {
            Ok(res) => match format_of(extension_key(path@)) {
                Some(f) => inspection_holds(res, path@, f, parsed),
                None => false,
            },
            Err(e) => format_of(extension_key(path@)) is None && e@ == "Unsupported config format: "@
                + extension_key(path@),
        },
{
    match config_format(path) {
        Ok(fmt) => {
            let res = inspect_parsed(path, fmt, parsed);
            assert(inspection_holds(res, path@, fmt, parsed));
            Ok(res)
        },
        Err(e) => Err(e),
    }
}

} // verus!

verus! {

/// The keys a YAML inspection wants set.
pub open spec fn yaml_watched_keys() -> Seq<Seq<char>> {
    seq!["host"@, "password"@, "secret"@, "token"@, "key"@, "url"@, "database"@]
}

/// The keys a JSON inspection treats as sensitive.
pub open spec fn json_sensitive_keys() -> Seq<Seq<char>> {
    seq!["password"@, "secret"@, "token"@, "apiKey"@, "api_key"@]
}

/// The keys a TOML inspection treats as sensitive.
pub open spec fn toml_sensitive_keys() -> Seq<Seq<char>> {
    seq!["password"@, "secret"@, "token"@]
}

/// What an entry raises by itself, format by format. In YAML, a key of
/// `host`, `password`, `secret`, `token`, `key`, `url` or `database` whose
/// value is null or an empty string raises a warning under its dotted path,
/// and a `port` below 1024 raises information; nothing else. In JSON, a key
/// of `password`, `secret`, `token`, `apiKey` or `api_key` whose value is
/// null or an empty string raises a warning. In TOML, a key of `password`,
/// `secret` or `token` whose value is an empty string raises a warning.
pub proof fn law_entry_rules(key: Seq<char>, value: ConfigValue, full: Seq<char>)
    ensures
        entry_issues(ConfigFormat::Yaml, key, value, full) == (if yaml_watched_keys().contains(key) && (value is Null
            || (value matches ConfigValue::Text(s) && s@.len() == 0)) {
            seq![("warning"@, full, "Key '"@ + full + "' appears to be empty or null"@, Some("Ensure this value is set correctly"@))]
        } else {
            Seq::<IssueView>::empty()
        }) + (if key == "port"@ && (value matches ConfigValue::Number(Some(p)) && p < 1024) {
            seq![("info"@, full, "Port "@ + decimal(value->Number_0.unwrap() as nat) + " is a privileged port (< 1024)"@, Some("May require root/admin permissions"@))]
        } else {
            Seq::<IssueView>::empty()
        }),
        entry_issues(ConfigFormat::Json, key, value, full) == (if json_sensitive_keys().contains(key) && (value is Null
            || (value matches ConfigValue::Text(s) && s@.len() == 0)) {
            seq![("warning"@, full, "Sensitive key '"@ + full + "' is empty"@, None::<Seq<char>>)]
        } else {
            Seq::<IssueView>::empty()
        }),
        entry_issues(ConfigFormat::Toml, key, value, full) == (if toml_sensitive_keys().contains(key) && (value matches ConfigValue::Text(s) && s@.len() == 0) {
            seq![("warning"@, full, "Sensitive key '"@ + full + "' is empty"@, None::<Seq<char>>)]
        } else {
            Seq::<IssueView>::empty()
        }),
{
    let y = yaml_watched_keys();
    assert(y[0] == "host"@ && y[1] == "password"@ && y[2] == "secret"@ && y[3] == "token"@);
    assert(y[4] == "key"@ && y[5] == "url"@ && y[6] == "database"@);
    assert(y.contains(key) <==> (key == "host"@ || key == "password"@ || key == "secret"@ || key == "token"@
        || key == "key"@ || key == "url"@ || key == "database"@));
    let j = json_sensitive_keys();
    assert(j[0] == "password"@ && j[1] == "secret"@ && j[2] == "token"@ && j[3] == "apiKey"@ && j[4] == "api_key"@);
    assert(j.contains(key) <==> (key == "password"@ || key == "secret"@ || key == "token"@ || key == "apiKey"@
        || key == "api_key"@));
    let t = toml_sensitive_keys();
    assert(t[0] == "password"@ && t[1] == "secret"@ && t[2] == "token"@);
    assert(t.contains(key) <==> (key == "password"@ || key == "secret"@ || key == "token"@));
}

/// Whether every issue of a list is a warning without a suggestion.
pub open spec fn all_bare_warnings(issues: Seq<IssueView>) -> bool {
    forall|i: int| 0 <= i < issues.len() ==> (#[trigger] issues[i]).0 == "warning"@ && issues[i].3 is None
}

proof fn lemma_entries_bare_warnings(fmt: ConfigFormat, es: Seq<ConfigEntry>, n: int, prefix: Seq<char>)
    requires
        fmt != ConfigFormat::Yaml,
    ensures
        all_bare_warnings(entries_issues(fmt, es, n, prefix)),
    decreases es, n,
{
    if 0 < n <= es.len() {
        lemma_entries_bare_warnings(fmt, es, n - 1, prefix);
        let e = es[n - 1];
        let full = full_key(prefix, key_name(e.key));
        law_json_and_toml_issues_are_bare_warnings(fmt, e.value, full);
        let a = entries_issues(fmt, es, n - 1, prefix);
        let b = entry_issues(fmt, key_name(e.key), e.value, full);
        let c = issues_of(fmt, e.value, full);
        assert(all_bare_warnings(b));
        assert(entries_issues(fmt, es, n, prefix) == a + b + c);
        assert forall|i: int| 0 <= i < (a + b + c).len() implies ((#[trigger] (a + b + c)[i]).0 == "warning"@
            && (a + b + c)[i].3 is None) by {
            if i < a.len() {
                assert((a + b + c)[i] == a[i]);
            } else if i < a.len() + b.len() {
                assert((a + b + c)[i] == b[i - a.len()]);
            } else {
                assert((a + b + c)[i] == c[i - a.len() - b.len()]);
            }
        }
    }
}

/// JSON and TOML inspections only ever warn, about empty sensitive keys,
/// and never suggest anything; only YAML reports privileged ports (as
/// information) and suggests fixes.
pub proof fn law_json_and_toml_issues_are_bare_warnings(fmt: ConfigFormat, v: ConfigValue, prefix: Seq<char>)
    requires
        fmt != ConfigFormat::Yaml,
    ensures
        all_bare_warnings(issues_of(fmt, v, prefix)),
    decreases v, 0nat,
{
    match v {
        ConfigValue::Mapping(es) => {
            lemma_entries_bare_warnings(fmt, es@, es@.len() as int, prefix);
        },
        _ => {},
    }
}

} // verus!

verus! {

/// Counts the keys of a document where the count fits a `usize`; nothing
/// where it does not.
pub fn checked_key_count(v: &ConfigValue) -> (r: Option<usize>)
    ensures
        match r {
            Some(n) => n == count_keys(*v),
            None => count_keys(*v) > usize::MAX,
        },
    decreases *v,
{
    match v {
        ConfigValue::Mapping(es) => {
            let mut total: usize = es.len();
            let mut i: usize = 0;
            while i < es.len()
                invariant
                    i <= es.len(),
                    *v == ConfigValue::Mapping(*es),
                    total == es@.len() + entry_keys(es@, i as int),
                decreases es.len() - i,
            {
                proof {
                    lemma_entry_keys_mono(es@, i as int + 1, es@.len() as int);
                }
                assert(decreases_to!(*v => es@[i as int].value)) by {
                    assert(decreases_to!(*v => v->Mapping_0));
                    assert(decreases_to!(*es => es@));
                    assert(decreases_to!(es@ => es@[i as int]));
                }
                let k = match checked_key_count(&es[i].value) {
                    Some(k) => k,
                    None => {
                        return None;
                    },
                };
                match total.checked_add(k) {
                    Some(t) => {
                        total = t;
                    },
                    None => {
                        return None;
                    },
                }
                i = i + 1;
            }
            Some(total)
        },
        ConfigValue::Sequence(vs) => {
            let mut total: usize = 0;
            let mut i: usize = 0;
            while i < vs.len()
                invariant
                    i <= vs.len(),
                    *v == ConfigValue::Sequence(*vs),
                    total == item_keys(vs@, i as int),
                decreases vs.len() - i,
            {
                proof {
                    lemma_item_keys_mono(vs@, i as int + 1, vs@.len() as int);
                }
                assert(decreases_to!(*v => vs@[i as int])) by {
                    assert(decreases_to!(*v => v->Sequence_0));
                    assert(decreases_to!(*vs => vs@));
                }
                let k = match checked_key_count(&vs[i]) {
                    Some(k) => k,
                    None => {
                        return None;
                    },
                };
                match total.checked_add(k) {
                    Some(t) => {
                        total = t;
                    },
                    None => {
                        return None;
                    },
                }
                i = i + 1;
            }
            Some(total)
        },
        _ => Some(0),
    }
}

/// What inspecting a configuration text gives, in a format whose parser
/// reads `doc` from it: the inspection of a tree with that reading, or of the
/// parser's error.
pub open spec fn text_inspection(
    res: ConfigInspectionResult,
    path: Seq<char>,
    fmt: ConfigFormat,
    doc: Result<DocModel, Seq<char>>,
) -> bool {
    match doc {
        Ok(m) => exists|v: ConfigValue| #[trigger] doc_view(v) == m && inspection_holds(res, path, fmt, Ok(v)),
        Err(e) => exists|s: String| #[trigger] s@ == e && inspection_holds(res, path, fmt, Err(s)),
    }
}

/// Inspects a configuration file from its text: the format comes from the
/// path's extension, the text is parsed in it, and the tree is inspected.
/// An unknown extension is an error. Nothing comes back for a document with
/// more keys than a `usize` can count.
pub fn inspect_text(path: &str, text: &str) -> (r: Option<Result<ConfigInspectionResult, String>>)
    ensures
        match format_of(extension_key(path@)) {
            None => r matches Some(Err(e)) && e@ == "Unsupported config format: "@ + extension_key(path@),
            Some(f) => match r {
                Some(Ok(res)) => text_inspection(res, path@, f, config_document(f, text@)),
                Some(Err(_)) => false,
                None => exists|v: ConfigValue| #[trigger] doc_view(v) == config_document(f, text@)->Ok_0
                    && config_document(f, text@) is Ok && count_keys(v) > usize::MAX,
            },
        },
{
    let fmt = match config_format(path) {
        Ok(f) => f,
        Err(e) => {
            return Some(Err(e));
        },
    };
    match parse_config(fmt, text) {
        Ok(v) => {
            match checked_key_count(&v) {
                Some(_) => {
                    let ghost g = v;
                    let res = inspect_parsed(path, fmt, Ok(v));
                    assert(doc_view(g) == config_document(fmt, text@)->Ok_0);
                    assert(inspection_holds(res, path@, fmt, Ok(g)));
                    Some(Ok(res))
                },
                None => {
                    assert(doc_view(v) == config_document(fmt, text@)->Ok_0);
                    None
                },
            }
        },
        Err(e) => {
            let ghost g = e;
            let res = inspect_parsed(path, fmt, Err(e));
            assert(g@ == config_document(fmt, text@)->Err_0);
            assert(inspection_holds(res, path@, fmt, Err(g)));
            Some(Ok(res))
        },
    }
}

} // verus!

verus! {

proof fn lemma_entries_congruent(fmt: ConfigFormat, ea: Seq<ConfigEntry>, eb: Seq<ConfigEntry>, n: int, prefix: Seq<char>)
    requires
        ea.len() == eb.len(),
        0 <= n <= ea.len(),
        forall|k: int|
            0 <= k < ea.len() ==> opt_text(#[trigger] ea[k].key) == opt_text(eb[k].key) && doc_view(ea[k].value)
                == doc_view(eb[k].value),
    ensures
        entry_keys(ea, n) == entry_keys(eb, n),
        entries_issues(fmt, ea, n, prefix) == entries_issues(fmt, eb, n, prefix),
    decreases ea, n,
{
    if n > 0 {
        lemma_entries_congruent(fmt, ea, eb, n - 1, prefix);
        let a = ea[n - 1];
        let b = eb[n - 1];
        assert(opt_text(a.key) == opt_text(b.key));
        assert(key_name(a.key) == key_name(b.key));
        let full = full_key(prefix, key_name(a.key));
        law_inspection_reads_only_the_document(fmt, a.value, b.value, full);
        assert(entry_issues(fmt, key_name(a.key), a.value, full) == entry_issues(fmt, key_name(b.key), b.value, full));
    }
}

proof fn lemma_items_congruent(va: Seq<ConfigValue>, vb: Seq<ConfigValue>, n: int)
    requires
        va.len() == vb.len(),
        0 <= n <= va.len(),
        forall|k: int| 0 <= k < va.len() ==> doc_view(#[trigger] va[k]) == doc_view(vb[k]),
    ensures
        item_keys(va, n) == item_keys(vb, n),
    decreases va, n,
{
    if n > 0 {
        lemma_items_congruent(va, vb, n - 1);
        law_inspection_reads_only_the_document(ConfigFormat::Json, va[n - 1], vb[n - 1], seq![]);
    }
}

/// Inspection reads a document only through what the parser read: two trees
/// with the same reading have the same key count and the same issues, and
/// agree on being null, an empty text or a number.
pub proof fn law_inspection_reads_only_the_document(fmt: ConfigFormat, a: ConfigValue, b: ConfigValue, prefix: Seq<char>)
    requires
        doc_view(a) == doc_view(b),
    ensures
        count_keys(a) == count_keys(b),
        issues_of(fmt, a, prefix) == issues_of(fmt, b, prefix),
        is_empty_text(a) == is_empty_text(b),
        (a is Null) == (b is Null),
        a is Number ==> b is Number && a->Number_0 == b->Number_0,
    decreases a, 0nat,
{
    match (a, b) {
        (ConfigValue::Mapping(ea), ConfigValue::Mapping(eb)) => {
            lemma_entries_view(ea@, ea@.len() as int);
            lemma_entries_view(eb@, eb@.len() as int);
            assert forall|k: int| 0 <= k < ea@.len() implies opt_text(#[trigger] ea@[k].key) == opt_text(eb@[k].key)
                && doc_view(ea@[k].value) == doc_view(eb@[k].value) by {
                assert(entries_view(ea@, ea@.len() as int)[k] == entries_view(eb@, eb@.len() as int)[k]);
            }
            lemma_entries_congruent(fmt, ea@, eb@, ea@.len() as int, prefix);
        },
        (ConfigValue::Sequence(va), ConfigValue::Sequence(vb)) => {
            lemma_items_view(va@, va@.len() as int);
            lemma_items_view(vb@, vb@.len() as int);
            assert forall|k: int| 0 <= k < va@.len() implies doc_view(#[trigger] va@[k]) == doc_view(vb@[k]) by {
                assert(items_view(va@, va@.len() as int)[k] == items_view(vb@, vb@.len() as int)[k]);
            }
            lemma_items_congruent(va@, vb@, va@.len() as int);
        },
        _ => {},
    }
}

/// The format of a configuration file goes by its lower-cased extension:
/// `yaml` and `yml` are YAML, `json` is JSON, `toml` is TOML, and no other
/// extension has a format.
pub proof fn law_config_formats(ext: Seq<char>)
    ensures
        (ext == "yaml"@ || ext == "yml"@) ==> format_of(ext) == Some(ConfigFormat::Yaml),
        ext == "json"@ ==> format_of(ext) == Some(ConfigFormat::Json),
        ext == "toml"@ ==> format_of(ext) == Some(ConfigFormat::Toml),
        !(ext == "yaml"@ || ext == "yml"@ || ext == "json"@ || ext == "toml"@) ==> format_of(ext) is None,
{
    reveal_strlit("yaml");
    reveal_strlit("yml");
    reveal_strlit("json");
    reveal_strlit("toml");
    assert("yaml"@[0] == 'y' && "yml"@[0] == 'y' && "json"@[0] == 'j' && "toml"@[0] == 't');
}

} // verus!
