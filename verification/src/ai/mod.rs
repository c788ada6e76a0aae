//! Reading the JSON replies of AI backends into report pieces. A reply is
//! handed over parsed into a `ConfigValue` tree; members are looked up by
//! key as JSON indexing does, a missing member reading as absent.
pub mod anthropic;
pub mod ollama;
pub mod prompts;

use vstd::prelude::*;

use crate::config_inspector::document::{doc_view, entries_view, lemma_entries_view};
use crate::config_inspector::{ConfigEntry, ConfigValue};
use crate::pattern::opt_text;
use crate::text::{chars_of, eq_str, owned};

verus! {

/// The value of the first entry of `es` whose key is `key`.
pub open spec fn entry_value(es: Seq<ConfigEntry>, key: Seq<char>) -> Option<ConfigValue>
    decreases es.len(),
{
    if es.len() == 0 {
        None
    } else if es[0].key matches Some(k) && k@ == key {
        Some(es[0].value)
    } else {
        entry_value(es.drop_first(), key)
    }
}

/// The member of a mapping under a key; nothing for a missing key or a
/// value that is not a mapping.
pub open spec fn member(v: ConfigValue, key: Seq<char>) -> Option<ConfigValue> {
    match v {
        ConfigValue::Mapping(es) => entry_value(es@, key),
        _ => None,
    }
}

/// The text of a member, where it is a string.
pub open spec fn text_member(v: ConfigValue, key: Seq<char>) -> Option<Seq<char>> {
    match member(v, key) {
        Some(ConfigValue::Text(s)) => Some(s@),
        _ => None,
    }
}

/// The text of a member, or a default where it is missing or not a string.
pub open spec fn text_or(v: ConfigValue, key: Seq<char>, default: Seq<char>) -> Seq<char> {
    match text_member(v, key) {
        Some(s) => s,
        None => default,
    }
}

/// Looks a member up by key.
pub fn get_member<'a>(v: &'a ConfigValue, key: &str) -> (r: Option<&'a ConfigValue>)
    ensures
        match r {
            Some(m) => member(*v, key@) == Some(*m),
            None => member(*v, key@) is None,
        },
{
    match v {
        ConfigValue::Mapping(es) => {
            let mut i: usize = 0;
            assert(es@.skip(0) =~= es@);
            while i < es.len()
                invariant
                    i <= es.len(),
                    *v == ConfigValue::Mapping(*es),
                    entry_value(es@, key@) == entry_value(es@.skip(i as int), key@),
                decreases es.len() - i,
            {
                assert(es@.skip(i as int).drop_first() =~= es@.skip(i + 1));
                assert(es@.skip(i as int)[0] == es@[i as int]);
                let hit = match &es[i].key {
                    Some(k) => {
                        let kc = chars_of(k.as_str());
                        eq_str(kc.as_slice(), key)
                    },
                    None => false,
                };
                assert(hit == (es@[i as int].key matches Some(k) && k@ == key@));
                if hit {
                    return Some(&es[i].value);
                }
                i = i + 1;
            }
            assert(es@.skip(i as int) =~= seq![]);
            None
        },
        _ => None,
    }
}

/// The text of a member, where it is a string.
pub fn get_text(v: &ConfigValue, key: &str) -> (r: Option<String>)
    ensures
        match r {
            Some(s) => text_member(*v, key@) == Some(s@),
            None => text_member(*v, key@) is None,
        },
{
    match get_member(v, key) {
        Some(ConfigValue::Text(s)) => Some(s.clone()),
        _ => None,
    }
}

/// The text of a member, or `default`.
pub fn get_text_or(v: &ConfigValue, key: &str, default: &str) -> (r: String)
    ensures
        r@ == text_or(*v, key@, default@),
{
    match get_text(v, key) {
        Some(s) => s,
        None => owned(default),
    }
}

} // verus!

verus! {

/// Whether two entry lists read alike: the same keys and values of the same
/// reading, pairwise.
pub open spec fn entries_alike(ea: Seq<ConfigEntry>, eb: Seq<ConfigEntry>) -> bool {
    &&& ea.len() == eb.len()
    &&& forall|k: int|
        0 <= k < ea.len() ==> opt_text(#[trigger] ea[k].key) == opt_text(eb[k].key) && doc_view(ea[k].value)
            == doc_view(eb[k].value)
}

proof fn lemma_entry_value_alike(ea: Seq<ConfigEntry>, eb: Seq<ConfigEntry>, key: Seq<char>)
    requires
        entries_alike(ea, eb),
    ensures
        match (entry_value(ea, key), entry_value(eb, key)) {
            (Some(x), Some(y)) => doc_view(x) == doc_view(y),
            (None, None) => true,
            _ => false,
        },
    decreases ea.len(),
{
    if ea.len() > 0 {
        assert(opt_text(ea[0].key) == opt_text(eb[0].key));
        assert forall|k: int| 0 <= k < ea.drop_first().len() implies opt_text(
            #[trigger] ea.drop_first()[k].key,
        ) == opt_text(eb.drop_first()[k].key) && doc_view(ea.drop_first()[k].value) == doc_view(
            eb.drop_first()[k].value,
        ) by {
            assert(ea.drop_first()[k] == ea[k + 1]);
            assert(eb.drop_first()[k] == eb[k + 1]);
        }
        lemma_entry_value_alike(ea.drop_first(), eb.drop_first(), key);
    }
}

/// Looking a member up reads a reply only through what the parser read: two
/// trees with the same reading have members of the same reading.
pub proof fn law_members_read_only_the_document(a: ConfigValue, b: ConfigValue, key: Seq<char>)
    requires
        doc_view(a) == doc_view(b),
    ensures
        match (member(a, key), member(b, key)) {
            (Some(x), Some(y)) => doc_view(x) == doc_view(y),
            (None, None) => true,
            _ => false,
        },
        text_member(a, key) == text_member(b, key),
{
    match (a, b) {
        (ConfigValue::Mapping(ea), ConfigValue::Mapping(eb)) => {
            lemma_entries_view(ea@, ea@.len() as int);
            lemma_entries_view(eb@, eb@.len() as int);
            assert forall|k: int| 0 <= k < ea@.len() implies opt_text(#[trigger] ea@[k].key) == opt_text(eb@[k].key)
                && doc_view(ea@[k].value) == doc_view(eb@[k].value) by {
                assert(entries_view(ea@, ea@.len() as int)[k] == entries_view(eb@, eb@.len() as int)[k]);
            }
            lemma_entry_value_alike(ea@, eb@, key);
        },
        _ => {},
    }
}

} // verus!
