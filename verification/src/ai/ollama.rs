//! The parts of an Ollama reply the library reads.
use vstd::prelude::*;

use crate::ai::{get_member, get_text_or, law_members_read_only_the_document, member, text_or};
use crate::config_inspector::document::{doc_view, items_view, json_tree, lemma_items_view, parse_config, DocModel};
use crate::config_inspector::{ConfigFormat, ConfigValue};
use crate::text::texts;

verus! {

/// The texts among the items of a sequence, in order; other items are
/// skipped.
pub open spec fn item_texts(vs: Seq<ConfigValue>) -> Seq<Seq<char>>
    decreases vs.len(),
{
    if vs.len() == 0 {
        seq![]
    } else {
        let rest = item_texts(vs.drop_last());
        match vs.last() {
            ConfigValue::Text(s) => rest.push(s@),
            _ => rest,
        }
    }
}

/// The contributing factors of a reply: the texts in its
/// `contributing_factors` array, none where that is missing or no array.
pub open spec fn factors_of(raw: ConfigValue) -> Seq<Seq<char>> {
    match member(raw, "contributing_factors"@) {
        Some(ConfigValue::Sequence(vs)) => item_texts(vs@),
        _ => seq![],
    }
}

pub fn contributing_factors(raw: &ConfigValue) -> (r: Vec<String>)
    ensures
        texts(r@) == factors_of(*raw),
{
    let mut r: Vec<String> = Vec::new();
    match get_member(raw, "contributing_factors") {
        Some(ConfigValue::Sequence(vs)) => {
            let mut i: usize = 0;
            while i < vs.len()
                invariant
                    i <= vs.len(),
                    texts(r@) == item_texts(vs@.take(i as int)),
                decreases vs.len() - i,
            {
                assert(vs@.take(i + 1).drop_last() =~= vs@.take(i as int));
                assert(vs@.take(i + 1).last() == vs@[i as int]);
                match &vs[i] {
                    ConfigValue::Text(s) => {
                        let ghost before = r@;
                        r.push(s.clone());
                        assert(texts(r@) =~= texts(before).push(s@));
                    },
                    _ => {},
                }
                i = i + 1;
            }
            assert(vs@.take(vs.len() as int) =~= vs@);
        },
        _ => {
            assert(texts(r@) =~= seq![]);
        },
    }
    r
}

/// The summary and root cause of a reply, empty where missing.
pub fn summary_and_root_cause(raw: &ConfigValue) -> (r: (String, String))
    ensures
        r.0@ == text_or(*raw, "summary"@, ""@),
        r.1@ == text_or(*raw, "root_cause"@, ""@),
{
    (get_text_or(raw, "summary", ""), get_text_or(raw, "root_cause", ""))
}

} // verus!

verus! {

/// Reads a reply text: its summary, root cause and contributing factors, or
/// the JSON parser's error.
pub fn read_reply(text: &str) -> (r: Result<(String, String, Vec<String>), String>)
    ensures
        match r {
            Ok(t) => json_tree(text@) is Ok && exists|v: ConfigValue|
                #[trigger] doc_view(v) == json_tree(text@)->Ok_0 && t.0@ == text_or(v, "summary"@, ""@) && t.1@
                    == text_or(v, "root_cause"@, ""@) && texts(t.2@) == factors_of(v),
            Err(e) => json_tree(text@) == Err::<DocModel, Seq<char>>(e@),
        },
{
    match parse_config(ConfigFormat::Json, text) {
        Ok(v) => {
            let (summary, root_cause) = summary_and_root_cause(&v);
            let factors = contributing_factors(&v);
            let ghost g = v;
            assert(doc_view(g) == json_tree(text@)->Ok_0);
            Ok((summary, root_cause, factors))
        },
        Err(e) => Err(e),
    }
}

} // verus!

verus! {

proof fn lemma_item_texts_alike(va: Seq<ConfigValue>, vb: Seq<ConfigValue>)
    requires
        va.len() == vb.len(),
        forall|k: int| 0 <= k < va.len() ==> doc_view(#[trigger] va[k]) == doc_view(vb[k]),
    ensures
        item_texts(va) == item_texts(vb),
    decreases va.len(),
{
    if va.len() > 0 {
        assert forall|k: int| 0 <= k < va.drop_last().len() implies doc_view(#[trigger] va.drop_last()[k])
            == doc_view(vb.drop_last()[k]) by {
            assert(va.drop_last()[k] == va[k]);
            assert(vb.drop_last()[k] == vb[k]);
        }
        lemma_item_texts_alike(va.drop_last(), vb.drop_last());
        assert(doc_view(va.last()) == doc_view(vb.last()));
    }
}

/// A reply is read only through what the parser read: two trees with the
/// same reading give the same summary, root cause and factors.
pub proof fn law_replies_read_only_the_document(a: ConfigValue, b: ConfigValue)
    requires
        doc_view(a) == doc_view(b),
    ensures
        text_or(a, "summary"@, ""@) == text_or(b, "summary"@, ""@),
        text_or(a, "root_cause"@, ""@) == text_or(b, "root_cause"@, ""@),
        factors_of(a) == factors_of(b),
{
    law_members_read_only_the_document(a, b, "summary"@);
    law_members_read_only_the_document(a, b, "root_cause"@);
    law_members_read_only_the_document(a, b, "contributing_factors"@);
    match (member(a, "contributing_factors"@), member(b, "contributing_factors"@)) {
        (Some(ConfigValue::Sequence(va)), Some(ConfigValue::Sequence(vb))) => {
            lemma_items_view(va@, va@.len() as int);
            lemma_items_view(vb@, vb@.len() as int);
            assert forall|k: int| 0 <= k < va@.len() implies doc_view(#[trigger] va@[k]) == doc_view(vb@[k]) by {
                assert(items_view(va@, va@.len() as int)[k] == items_view(vb@, vb@.len() as int)[k]);
            }
            lemma_item_texts_alike(va@, vb@);
        },
        _ => {},
    }
}

} // verus!
