//! The parts of an Anthropic Messages API reply the library reads: which
//! content block holds the answer, the tokens used, and the fix suggestions
//! and config conflicts of the report in it.
use vstd::prelude::*;

use crate::ai::{get_member, get_text, get_text_or, law_members_read_only_the_document, member, text_member, text_or};
use crate::config_inspector::document::{doc_view, items_view, json_tree, lemma_items_view, parse_config, DocModel};
use crate::config_inspector::{ConfigFormat, ConfigValue};
use crate::models::report::{CodeSnippet, ConfigConflict, FixSuggestion};
use crate::text::{chars_of, eq_str, owned};

verus! {

/// One content block of a reply: its type and its text, if any.
#[derive(Clone, Debug)]
pub struct ContentBlock {
    pub kind: String,
    pub text: Option<String>,
}

/// The answer of a reply: the text of the first block of type "text", or
/// empty where there is none or it has no text.
pub open spec fn reply_text_of(blocks: Seq<ContentBlock>) -> Seq<char>
    decreases blocks.len(),
{
    if blocks.len() == 0 {
        seq![]
    } else if blocks[0].kind@ == "text"@ {
        match blocks[0].text {
            Some(t) => t@,
            None => seq![],
        }
    } else {
        reply_text_of(blocks.drop_first())
    }
}

pub fn reply_text(blocks: &Vec<ContentBlock>) -> (r: String)
    ensures
        r@ == reply_text_of(blocks@),
{
    let mut i: usize = 0;
    assert(blocks@.skip(0) =~= blocks@);
    while i < blocks.len()
        invariant
            i <= blocks.len(),
            reply_text_of(blocks@) == reply_text_of(blocks@.skip(i as int)),
        decreases blocks.len() - i,
    {
        assert(blocks@.skip(i as int).drop_first() =~= blocks@.skip(i + 1));
        assert(blocks@.skip(i as int)[0] == blocks@[i as int]);
        let k = chars_of(blocks[i].kind.as_str());
        if eq_str(k.as_slice(), "text") {
            return match &blocks[i].text {
                Some(t) => t.clone(),
                None => {
                    let e = owned("");
                    proof {
                        reveal_strlit("");
                    }
                    assert(e@ =~= seq![]);
                    e
                },
            };
        }
        i = i + 1;
    }
    assert(blocks@.skip(i as int) =~= seq![]);
    let e = owned("");
    proof {
        reveal_strlit("");
    }
    assert(e@ =~= seq![]);
    e
}

/// The tokens a reply used: input and output together, where the reply
/// reports its usage.
pub fn total_tokens(usage: Option<(u32, u32)>) -> (r: Option<u32>)
    requires
        usage matches Some((i, o)) ==> i + o <= u32::MAX,
    ensures
        r == match usage {
            Some((i, o)) => Some((i + o) as u32),
            None => None,
        },
{
    match usage {
        Some((i, o)) => Some(i + o),
        None => None,
    }
}

/// A code snippet as values: language, file name, content, diff.
pub type SnippetView = (Seq<char>, Option<Seq<char>>, Seq<char>, Option<Seq<char>>);

/// A fix suggestion as values: priority, title, description, snippet, command.
pub type FixView = (u8, Seq<char>, Seq<char>, Option<SnippetView>, Option<Seq<char>>);

pub open spec fn snippet_view(c: CodeSnippet) -> SnippetView {
    (c.language@, opt_chars(c.filename), c.content@, opt_chars(c.diff))
}

pub open spec fn opt_chars(o: Option<String>) -> Option<Seq<char>> {
    match o {
        Some(s) => Some(s@),
        None => None,
    }
}

pub open spec fn fix_view(f: FixSuggestion) -> FixView {
    (
        f.priority,
        f.title@,
        f.description@,
        match f.code_snippet {
            Some(c) => Some(snippet_view(c)),
            None => None,
        },
        opt_chars(f.command),
    )
}

/// The snippet a suggestion's `code_snippet` member describes; a missing
/// language reads as "text", a missing content as empty.
pub open spec fn snippet_of(cs: ConfigValue) -> SnippetView {
    (text_or(cs, "language"@, "text"@), text_member(cs, "filename"@), text_or(cs, "content"@, seq![]), text_member(cs, "diff"@))
}

/// The priority a suggestion gives: its `priority` member where that is a
/// non-negative integer, truncated to a byte as a cast does, else 5.
pub open spec fn priority_of(v: ConfigValue) -> u8 {
    match member(v, "priority"@) {
        Some(ConfigValue::Number(Some(n))) => (n % 256) as u8,
        _ => 5,
    }
}

/// The fix suggestion a reply object describes, each member read with its
/// default: title "Fix", description empty.
pub open spec fn fix_of(v: ConfigValue) -> FixView {
    (
        priority_of(v),
        text_or(v, "title"@, "Fix"@),
        text_or(v, "description"@, seq![]),
        match member(v, "code_snippet"@) {
            Some(cs) => Some(snippet_of(cs)),
            None => None,
        },
        text_member(v, "command"@),
    )
}

fn empty_text() -> (r: String)
    ensures
        r@ == Seq::<char>::empty(),
{
    let e = owned("");
    proof {
        reveal_strlit("");
    }
    assert(e@ =~= seq![]);
    e
}

fn read_snippet(cs: &ConfigValue) -> (r: CodeSnippet)
    ensures
        snippet_view(r) == snippet_of(*cs),
{
    let content = match get_text(cs, "content") {
        Some(s) => s,
        None => empty_text(),
    };
    CodeSnippet {
        language: get_text_or(cs, "language", "text"),
        filename: get_text(cs, "filename"),
        content,
        diff: get_text(cs, "diff"),
    }
}

fn read_fix(v: &ConfigValue) -> (r: FixSuggestion)
    ensures
        fix_view(r) == fix_of(*v),
{
    let priority: u8 = match get_member(v, "priority") {
        Some(ConfigValue::Number(Some(n))) => (*n % 256) as u8,
        _ => 5,
    };
    let description = match get_text(v, "description") {
        Some(s) => s,
        None => empty_text(),
    };
    let code_snippet = match get_member(v, "code_snippet") {
        Some(cs) => Some(read_snippet(cs)),
        None => None,
    };
    FixSuggestion {
        priority,
        title: get_text_or(v, "title", "Fix"),
        description,
        code_snippet,
        command: get_text(v, "command"),
    }
}

/// Reads the fix suggestions of a reply, one per object, in order.
pub fn parse_fix_suggestions(raw: &Vec<ConfigValue>) -> (r: Vec<FixSuggestion>)
    ensures
        r@.map_values(|f: FixSuggestion| fix_view(f)) == raw@.map_values(|v: ConfigValue| fix_of(v)),
{
    let mut r: Vec<FixSuggestion> = Vec::new();
    let mut i: usize = 0;
    while i < raw.len()
        invariant
            i <= raw.len(),
            r@.map_values(|f: FixSuggestion| fix_view(f)) == raw@.take(i as int).map_values(
                |v: ConfigValue| fix_of(v),
            ),
        decreases raw.len() - i,
    {
        let f = read_fix(&raw[i]);
        let ghost before = r@;
        r.push(f);
        assert(raw@.take(i + 1) =~= raw@.take(i as int).push(raw@[i as int]));
        assert(r@.map_values(|f: FixSuggestion| fix_view(f)) =~= before.map_values(|f: FixSuggestion| fix_view(f)).push(fix_view(f)));
        assert(raw@.take(i + 1).map_values(|v: ConfigValue| fix_of(v)) =~= raw@.take(i as int).map_values(|v: ConfigValue| fix_of(v)).push(fix_of(raw@[i as int])));
        i = i + 1;
    }
    assert(raw@.take(raw.len() as int) =~= raw@);
    r
}

/// A config conflict as values: file path, key, current value, suggested
/// value, reason.
pub type ConflictView = (Seq<char>, Seq<char>, Seq<char>, Seq<char>, Seq<char>);

pub open spec fn conflict_view(c: ConfigConflict) -> ConflictView {
    (c.file_path@, c.key@, c.current_value@, c.suggested_value@, c.reason@)
}

/// The conflict a reply object describes; a missing member reads as empty.
pub open spec fn conflict_of(v: ConfigValue) -> ConflictView {
    (
        text_or(v, "file_path"@, seq![]),
        text_or(v, "key"@, seq![]),
        text_or(v, "current_value"@, seq![]),
        text_or(v, "suggested_value"@, seq![]),
        text_or(v, "reason"@, seq![]),
    )
}

fn text_or_empty(v: &ConfigValue, key: &str) -> (r: String)
    ensures
        r@ == text_or(*v, key@, seq![]),
{
    match get_text(v, key) {
        Some(s) => s,
        None => empty_text(),
    }
}

/// Reads the config conflicts of a reply, one per object, in order.
pub fn parse_config_conflicts(raw: &Vec<ConfigValue>) -> (r: Vec<ConfigConflict>)
    ensures
        r@.map_values(|c: ConfigConflict| conflict_view(c)) == raw@.map_values(|v: ConfigValue| conflict_of(v)),
{
    let mut r: Vec<ConfigConflict> = Vec::new();
    let mut i: usize = 0;
    while i < raw.len()
        invariant
            i <= raw.len(),
            r@.map_values(|c: ConfigConflict| conflict_view(c)) == raw@.take(i as int).map_values(
                |v: ConfigValue| conflict_of(v),
            ),
        decreases raw.len() - i,
    {
        let v = &raw[i];
        let c = ConfigConflict {
            file_path: text_or_empty(v, "file_path"),
            key: text_or_empty(v, "key"),
            current_value: text_or_empty(v, "current_value"),
            suggested_value: text_or_empty(v, "suggested_value"),
            reason: text_or_empty(v, "reason"),
        };
        let ghost before = r@;
        assert(conflict_view(c) == conflict_of(raw@[i as int]));
        r.push(c);
        assert(r@.map_values(|c: ConfigConflict| conflict_view(c)) =~= before.map_values(|c: ConfigConflict| conflict_view(c)).push(conflict_view(c)));
        assert(raw@.take(i + 1).map_values(|v: ConfigValue| conflict_of(v)) =~= raw@.take(i as int).map_values(|v: ConfigValue| conflict_of(v)).push(conflict_of(raw@[i as int])));
        i = i + 1;
    }
    assert(raw@.take(raw.len() as int) =~= raw@);
    r
}

} // verus!

verus! {

/// The items of a member that is an array; none otherwise.
pub open spec fn array_items(v: ConfigValue, key: Seq<char>) -> Seq<ConfigValue> {
    match member(v, key) {
        Some(ConfigValue::Sequence(vs)) => vs@,
        _ => seq![],
    }
}

fn fixes_in(v: &ConfigValue) -> (r: Vec<FixSuggestion>)
    ensures
        r@.map_values(|f: FixSuggestion| fix_view(f)) == array_items(*v, "fix_suggestions"@).map_values(
            |x: ConfigValue| fix_of(x),
        ),
{
    match get_member(v, "fix_suggestions") {
        Some(ConfigValue::Sequence(vs)) => parse_fix_suggestions(vs),
        _ => {
            let r: Vec<FixSuggestion> = Vec::new();
            assert(r@.map_values(|f: FixSuggestion| fix_view(f)) =~= seq![]);
            assert(array_items(*v, "fix_suggestions"@).map_values(|x: ConfigValue| fix_of(x)) =~= seq![]);
            r
        },
    }
}

fn conflicts_in(v: &ConfigValue) -> (r: Vec<ConfigConflict>)
    ensures
        r@.map_values(|c: ConfigConflict| conflict_view(c)) == array_items(*v, "config_conflicts"@).map_values(
            |x: ConfigValue| conflict_of(x),
        ),
{
    match get_member(v, "config_conflicts") {
        Some(ConfigValue::Sequence(vs)) => parse_config_conflicts(vs),
        _ => {
            let r: Vec<ConfigConflict> = Vec::new();
            assert(r@.map_values(|c: ConfigConflict| conflict_view(c)) =~= seq![]);
            assert(array_items(*v, "config_conflicts"@).map_values(|x: ConfigValue| conflict_of(x)) =~= seq![]);
            r
        },
    }
}

/// Reads the fix suggestions and config conflicts of a report text (the
/// `fix_suggestions` and `config_conflicts` arrays, none where a member is
/// missing or no array), or the JSON parser's error.
pub fn report_lists(text: &str) -> (r: Result<(Vec<FixSuggestion>, Vec<ConfigConflict>), String>)
    ensures
        match r {
            Ok(t) => json_tree(text@) is Ok && exists|v: ConfigValue|
                #[trigger] doc_view(v) == json_tree(text@)->Ok_0 && t.0@.map_values(|f: FixSuggestion| fix_view(f))
                    == array_items(v, "fix_suggestions"@).map_values(|x: ConfigValue| fix_of(x)) && t.1@.map_values(
                    |c: ConfigConflict| conflict_view(c),
                ) == array_items(v, "config_conflicts"@).map_values(|x: ConfigValue| conflict_of(x)),
            Err(e) => json_tree(text@) == Err::<DocModel, Seq<char>>(e@),
        },
{
    match parse_config(ConfigFormat::Json, text) {
        Ok(v) => {
            let fixes = fixes_in(&v);
            let conflicts = conflicts_in(&v);
            let ghost g = v;
            assert(doc_view(g) == json_tree(text@)->Ok_0);
            Ok((fixes, conflicts))
        },
        Err(e) => Err(e),
    }
}

} // verus!

verus! {

proof fn lemma_fix_alike(x: ConfigValue, y: ConfigValue)
    requires
        doc_view(x) == doc_view(y),
    ensures
        fix_of(x) == fix_of(y),
        conflict_of(x) == conflict_of(y),
{
    law_members_read_only_the_document(x, y, "priority"@);
    law_members_read_only_the_document(x, y, "title"@);
    law_members_read_only_the_document(x, y, "description"@);
    law_members_read_only_the_document(x, y, "code_snippet"@);
    law_members_read_only_the_document(x, y, "command"@);
    law_members_read_only_the_document(x, y, "file_path"@);
    law_members_read_only_the_document(x, y, "key"@);
    law_members_read_only_the_document(x, y, "current_value"@);
    law_members_read_only_the_document(x, y, "suggested_value"@);
    law_members_read_only_the_document(x, y, "reason"@);
    match (member(x, "code_snippet"@), member(y, "code_snippet"@)) {
        (Some(cx), Some(cy)) => {
            law_members_read_only_the_document(cx, cy, "language"@);
            law_members_read_only_the_document(cx, cy, "filename"@);
            law_members_read_only_the_document(cx, cy, "content"@);
            law_members_read_only_the_document(cx, cy, "diff"@);
        },
        _ => {},
    }
    assert(priority_of(x) == priority_of(y));
}

proof fn lemma_array_items_alike(a: ConfigValue, b: ConfigValue, key: Seq<char>)
    requires
        doc_view(a) == doc_view(b),
    ensures
        array_items(a, key).len() == array_items(b, key).len(),
        forall|k: int|
            0 <= k < array_items(a, key).len() ==> doc_view(#[trigger] array_items(a, key)[k]) == doc_view(
                array_items(b, key)[k],
            ),
{
    law_members_read_only_the_document(a, b, key);
    match (member(a, key), member(b, key)) {
        (Some(ConfigValue::Sequence(va)), Some(ConfigValue::Sequence(vb))) => {
            lemma_items_view(va@, va@.len() as int);
            lemma_items_view(vb@, vb@.len() as int);
            assert forall|k: int| 0 <= k < va@.len() implies doc_view(#[trigger] va@[k]) == doc_view(vb@[k]) by {
                assert(items_view(va@, va@.len() as int)[k] == items_view(vb@, vb@.len() as int)[k]);
            }
        },
        _ => {},
    }
}

/// The lists of a report are read only through what the parser read: two
/// trees with the same reading give the same fix suggestions and config
/// conflicts.
pub proof fn law_report_lists_read_only_the_document(a: ConfigValue, b: ConfigValue)
    requires
        doc_view(a) == doc_view(b),
    ensures
        array_items(a, "fix_suggestions"@).map_values(|x: ConfigValue| fix_of(x)) == array_items(
            b,
            "fix_suggestions"@,
        ).map_values(|x: ConfigValue| fix_of(x)),
        array_items(a, "config_conflicts"@).map_values(|x: ConfigValue| conflict_of(x)) == array_items(
            b,
            "config_conflicts"@,
        ).map_values(|x: ConfigValue| conflict_of(x)),
{
    lemma_array_items_alike(a, b, "fix_suggestions"@);
    lemma_array_items_alike(a, b, "config_conflicts"@);
    let fa = array_items(a, "fix_suggestions"@);
    let fb = array_items(b, "fix_suggestions"@);
    assert forall|k: int| 0 <= k < fa.len() implies #[trigger] fix_of(fa[k]) == fix_of(fb[k]) by {
        lemma_fix_alike(fa[k], fb[k]);
    }
    assert(fa.map_values(|x: ConfigValue| fix_of(x)) =~= fb.map_values(|x: ConfigValue| fix_of(x)));
    let ca = array_items(a, "config_conflicts"@);
    let cb = array_items(b, "config_conflicts"@);
    assert forall|k: int| 0 <= k < ca.len() implies #[trigger] conflict_of(ca[k]) == conflict_of(cb[k]) by {
        lemma_fix_alike(ca[k], cb[k]);
    }
    assert(ca.map_values(|x: ConfigValue| conflict_of(x)) =~= cb.map_values(|x: ConfigValue| conflict_of(x)));
}

} // verus!
