//! One line of JSON, read by `serde_json`. The parsers look at the members of
//! a top-level object: their keys and, where a value is a string, its text.
//! Every value is also carried as its JSON text.
use vstd::prelude::*;

use crate::text::{chars_of, eq_str};

verus! {

/// A member of a JSON object.
#[derive(Clone, Debug)]
pub struct JsonMember {
    pub key: String,
    /// The value's text where it is a JSON string.
    pub text: Option<String>,
    /// The value as compact JSON text, as `serde_json` writes it.
    pub json: String,
}

/// A parsed JSON document: an object's members in order, or anything else.
#[derive(Clone, Debug)]
pub enum JsonDocument {
    Object(Vec<JsonMember>),
    Other,
}

/// The key and string text of the first member with key `key`, if any.
pub open spec fn member_get(ms: Seq<(Seq<char>, Option<Seq<char>>)>, key: Seq<char>) -> Option<Option<Seq<char>>>
    decreases ms.len(),
{
    if ms.len() == 0 {
        None
    } else if ms[0].0 == key {
        Some(ms[0].1)
    } else {
        member_get(ms.drop_first(), key)
    }
}

proof fn lemma_member_get_at(ms: Seq<(Seq<char>, Option<Seq<char>>)>, key: Seq<char>, i: int)
    requires
        0 <= i <= ms.len(),
        forall|j: int| 0 <= j < i ==> ms[j].0 != key,
    ensures
        i < ms.len() && ms[i].0 == key ==> member_get(ms, key) == Some(ms[i].1),
        i == ms.len() ==> member_get(ms, key) is None,
    decreases i,
{
    if i > 0 {
        lemma_member_get_at(ms.drop_first(), key, i - 1);
    }
}

/// A copy of a member.
pub fn copy_member(m: &JsonMember) -> (r: JsonMember)
    ensures
        r == *m,
{
    let text = match &m.text {
        Some(t) => Some(t.clone()),
        None => None,
    };
    JsonMember { key: m.key.clone(), text, json: m.json.clone() }
}

/// Where the first member with key `key` is, if any.
pub fn find_member(ms: &Vec<JsonMember>, key: &str) -> (r: Option<usize>)
    ensures
        match r {
            Some(i) => i < ms@.len() && member_get(members_view(ms@), key@) == Some(member_view(ms@[i as int]).1) && ms@[i as int].key@ == key@,
            None => member_get(members_view(ms@), key@) is None,
        },
{
    let mut i: usize = 0;
    while i < ms.len()
        invariant
            i <= ms.len(),
            forall|j: int| 0 <= j < i ==> members_view(ms@)[j].0 != key@,
        decreases ms.len() - i,
    {
        let k = chars_of(ms[i].key.as_str());
        if eq_str(k.as_slice(), key) {
            proof {
                lemma_member_get_at(members_view(ms@), key@, i as int);
            }
            return Some(i);
        }
        i = i + 1;
    }
    proof {
        lemma_member_get_at(members_view(ms@), key@, i as int);
    }
    None
}

/// A member as the parsers see it: its key and its string text, if any.
pub open spec fn member_view(m: JsonMember) -> (Seq<char>, Option<Seq<char>>) {
    (m.key@, match m.text {
        Some(t) => Some(t@),
        None => None,
    })
}

pub open spec fn members_view(ms: Seq<JsonMember>) -> Seq<(Seq<char>, Option<Seq<char>>)> {
    ms.map_values(|m: JsonMember| member_view(m))
}

/// A member with its value: key, string text, JSON text of the value.
pub type MemberModel = (Seq<char>, Option<Seq<char>>, Seq<char>);

pub open spec fn member_model(m: JsonMember) -> MemberModel {
    (m.key@, member_view(m).1, m.json@)
}

pub open spec fn members_model(ms: Seq<JsonMember>) -> Seq<MemberModel> {
    ms.map_values(|m: JsonMember| member_model(m))
}

/// The keys and string texts of members with values.
pub open spec fn pairs(ms: Seq<MemberModel>) -> Seq<(Seq<char>, Option<Seq<char>>)> {
    ms.map_values(|m: MemberModel| (m.0, m.1))
}

pub proof fn lemma_members_pairs(ms: Seq<JsonMember>)
    ensures
        members_view(ms) == pairs(members_model(ms)),
{
    assert(members_view(ms) =~= pairs(members_model(ms)));
}

/// `Some(members)` for an object, `None` for any other document.
pub open spec fn document_view(d: JsonDocument) -> Option<Seq<MemberModel>> {
    match d {
        JsonDocument::Object(ms) => Some(members_model(ms@)),
        JsonDocument::Other => None,
    }
}

/// What `serde_json::from_str::<serde_json::Value>` reads from a text: `None`
/// where it reports an error, else the document as `document_view` shows it,
/// each member's value written back as compact JSON text.
pub uninterp spec fn json_document(text: Seq<char>) -> Option<Option<Seq<MemberModel>>>;

/// Calls `serde_json::from_str::<serde_json::Value>` and splits an object
/// into its members (key, the text of a string value, the value written back
/// with `to_string`). The result is named, a function of the text alone.
#[verifier::external_body]
pub(crate) fn parse_json(text: &str) -> (r: Option<JsonDocument>)
    ensures
        match r {
            None => json_document(text@) is None,
            Some(d) => json_document(text@) == Some(document_view(d)),
        },
{
    serde_json::from_str::<serde_json::Value>(text).ok().map(|v| match v {
        serde_json::Value::Object(map) => JsonDocument::Object(
            map.into_iter().map(|(key, value)| JsonMember {
                key,
                text: value.as_str().map(|s| s.to_string()),
                json: value.to_string(),
            }).collect(),
        ),
        _ => JsonDocument::Other,
    })
}

} // verus!
