//! Parsing configuration text into a `ConfigValue` tree. Each parser is
//! asked for one node at a time, by its path from the root (the index of a
//! mapping entry or sequence item at each level); the tree is assembled here
//! and shown equal, node by node, to the document the parser reads.
use vstd::prelude::*;

use serde_json::Value as J;
use serde_yaml::Value as Y;
use toml::Value as T;

use self::NodeShape::{Mapping, Null, Number, Other, Scalar, Sequence, Text};

use crate::config_inspector::{ConfigEntry, ConfigFormat, ConfigValue};
use crate::pattern::opt_text;

verus! {

/// A parsed document as values: what the inspection can read of it.
pub enum DocModel {
    Null,
    Text(Seq<char>),
    /// A number, with its value where it is a non-negative integer that fits a `u64`.
    Number(Option<u64>),
    Sequence(Seq<DocModel>),
    /// The entries of a mapping in the parser's order: each key (none where
    /// it is not a string) and value.
    Mapping(Seq<(Option<Seq<char>>, DocModel)>),
    Other,
}

/// A tree as values.
pub open spec fn doc_view(v: ConfigValue) -> DocModel
    decreases v, 0nat,
{
    match v {
        ConfigValue::Null => DocModel::Null,
        ConfigValue::Text(s) => DocModel::Text(s@),
        ConfigValue::Number(n) => DocModel::Number(n),
        ConfigValue::Sequence(vs) => DocModel::Sequence(items_view(vs@, vs@.len() as int)),
        ConfigValue::Mapping(es) => DocModel::Mapping(entries_view(es@, es@.len() as int)),
        ConfigValue::Other => DocModel::Other,
    }
}

/// The first `n` items of a sequence, as values.
pub open spec fn items_view(vs: Seq<ConfigValue>, n: int) -> Seq<DocModel>
    decreases vs, n,
{
    if n <= 0 || n > vs.len() {
        seq![]
    } else {
        items_view(vs, n - 1).push(doc_view(vs[n - 1]))
    }
}

/// The first `n` entries of a mapping, as values.
pub open spec fn entries_view(es: Seq<ConfigEntry>, n: int) -> Seq<(Option<Seq<char>>, DocModel)>
    decreases es, n,
{
    if n <= 0 || n > es.len() {
        seq![]
    } else {
        entries_view(es, n - 1).push((opt_text(es[n - 1].key), doc_view(es[n - 1].value)))
    }
}

pub(crate) proof fn lemma_items_view(vs: Seq<ConfigValue>, n: int)
    requires
        0 <= n <= vs.len(),
    ensures
        items_view(vs, n).len() == n,
        forall|k: int| 0 <= k < n ==> #[trigger] items_view(vs, n)[k] == doc_view(vs[k]),
    decreases n,
{
    if n > 0 {
        lemma_items_view(vs, n - 1);
    }
}

pub(crate) proof fn lemma_entries_view(es: Seq<ConfigEntry>, n: int)
    requires
        0 <= n <= es.len(),
    ensures
        entries_view(es, n).len() == n,
        forall|k: int|
            0 <= k < n ==> #[trigger] entries_view(es, n)[k] == (opt_text(es[k].key), doc_view(es[k].value)),
    decreases n,
{
    if n > 0 {
        lemma_entries_view(es, n - 1);
    }
}

/// The `i`-th entry's value of a mapping, or the `i`-th item of a sequence.
pub open spec fn child(m: DocModel, i: int) -> Option<DocModel> {
    match m {
        DocModel::Sequence(xs) => if 0 <= i < xs.len() {
            Some(xs[i])
        } else {
            None
        },
        DocModel::Mapping(es) => if 0 <= i < es.len() {
            Some(es[i].1)
        } else {
            None
        },
        _ => None,
    }
}

/// The node at a path from the root, if there is one.
pub open spec fn subtree(m: DocModel, path: Seq<usize>) -> Option<DocModel>
    decreases path.len(),
{
    if path.len() == 0 {
        Some(m)
    } else {
        match child(m, path[0] as int) {
            Some(c) => subtree(c, path.drop_first()),
            None => None,
        }
    }
}

proof fn lemma_subtree_push(m: DocModel, path: Seq<usize>, i: usize)
    ensures
        subtree(m, path.push(i)) == match subtree(m, path) {
            Some(n) => child(n, i as int),
            None => None,
        },
    decreases path.len(),
{
    if path.len() == 0 {
        let p1 = path.push(i);
        assert(p1.drop_first() =~= Seq::<usize>::empty());
        assert(p1[0] == i);
        assert(subtree(m, path) == Some(m));
        match child(m, i as int) {
            Some(c) => {
                assert(subtree(c, p1.drop_first()) == Some(c));
            },
            None => {},
        }
    } else {
        assert(path.push(i).drop_first() =~= path.drop_first().push(i));
        assert(path.push(i)[0] == path[0]);
        match child(m, path[0] as int) {
            Some(c) => lemma_subtree_push(c, path.drop_first(), i),
            None => {},
        }
    }
}

/// One node as a parser shows it: its kind, its text or number, how many
/// items a sequence has, and the keys of a mapping.
pub enum NodeShape {
    Null,
    Text(String),
    Number(Option<u64>),
    Sequence(usize),
    Mapping(Vec<Option<String>>),
    Other,
    /// A scalar as its accessors read it: whether it is null, its text,
    /// its `u64` value.
    Scalar(bool, Option<String>, Option<u64>),
}

/// The node a scalar's accessors describe: null first, then a text, then a
/// number, else anything else.
pub open spec fn scalar_model(null: bool, text: Option<String>, number: Option<u64>) -> DocModel {
    if null {
        DocModel::Null
    } else if text is Some {
        DocModel::Text(text->Some_0@)
    } else if number is Some {
        DocModel::Number(number)
    } else {
        DocModel::Other
    }
}

/// Whether a shape shows a node.
pub open spec fn shape_matches(s: NodeShape, m: DocModel) -> bool {
    match (s, m) {
        (NodeShape::Null, DocModel::Null) => true,
        (NodeShape::Text(t), DocModel::Text(x)) => t@ == x,
        (NodeShape::Number(a), DocModel::Number(b)) => a == b,
        (NodeShape::Sequence(n), DocModel::Sequence(xs)) => n == xs.len(),
        (NodeShape::Mapping(keys), DocModel::Mapping(es)) => keys@.len() == es.len() && forall|i: int|
            0 <= i < es.len() ==> opt_text(#[trigger] keys@[i]) == es[i].0,
        (NodeShape::Other, DocModel::Other) => true,
        (NodeShape::Scalar(null, text, number), m) => m == scalar_model(null, text, number),
        _ => false,
    }
}

/// What a node query answers for a document: the parser's error, or the
/// shape of the node at the path (nothing where there is none).
pub open spec fn node_answer(doc: Result<DocModel, Seq<char>>, path: Seq<usize>, r: Result<Option<NodeShape>, String>) -> bool {
    match doc {
        Err(e) => r matches Err(x) && x@ == e,
        Ok(m) => r matches Ok(o) && match subtree(m, path) {
            Some(n) => o matches Some(s) && shape_matches(s, n),
            None => o is None,
        },
    }
}

/// What `serde_json::from_str::<serde_json::Value>` reads from a text: the
/// parser's error message, or the document, where a number is kept with its
/// `as_u64` value, a boolean is `Other`, and object members come in key order.
pub uninterp spec fn json_tree(text: Seq<char>) -> Result<DocModel, Seq<char>>;

/// What `serde_yaml::from_str::<serde_yaml::Value>` reads from a text: the
/// parser's error message, or the document, where a tagged value reads as
/// the scalar under its tags (`is_null`, `as_str`, `as_u64`), a tagged
/// sequence or mapping is `Other`, a number without a `u64` value is `Other`,
/// a key that is no string has none, and mappings keep their order.
pub uninterp spec fn yaml_tree(text: Seq<char>) -> Result<DocModel, Seq<char>>;

/// What `toml::from_str::<toml::Value>` reads from a text: the parser's error
/// message, or the document, where an integer is kept with its value where
/// it is non-negative, floats, booleans and dates are `Other`, and tables
/// come in key order.
pub uninterp spec fn toml_tree(text: Seq<char>) -> Result<DocModel, Seq<char>>;

/// The document a configuration text holds in a format.
pub open spec fn config_document(fmt: ConfigFormat, text: Seq<char>) -> Result<DocModel, Seq<char>> {
    match fmt {
        ConfigFormat::Json => json_tree(text),
        ConfigFormat::Yaml => yaml_tree(text),
        ConfigFormat::Toml => toml_tree(text),
    }
}

/// Parses the text as a `serde_json::Value` (`str::parse`, whose `FromStr`
/// calls `serde_json::from_str`), follows the path (`get` into arrays, the
/// `nth` of `values` into objects) and shows the node reached. The answer is
/// named, a function of the text and the path.
#[verifier::external_body]
fn json_node(text: &str, path: &Vec<usize>) -> (r: Result<Option<NodeShape>, String>)
    ensures
        node_answer(json_tree(text@), path@, r),
{
    let root = text.parse::<J>().map_err(|e| e.to_string())?;
    Ok(path.iter().try_fold(&root, |v, i| match v {
        J::Array(a) => a.get(*i),
        J::Object(m) => m.values().nth(*i),
        _ => None,
    }).map(|v| match v {
        J::Null => Null,
        J::String(s) => Text(s.clone()),
        J::Number(n) => Number(n.as_u64()),
        J::Array(a) => Sequence(a.len()),
        J::Object(m) => Mapping(m.keys().cloned().map(Some).collect()),
        _ => Other,
    }))
}

/// Calls `serde_yaml::from_str::<serde_yaml::Value>`, follows the path into
/// untagged sequences and mappings and shows the node reached, a scalar
/// through `is_null`, `as_str` and `as_u64`. The answer is named, a function
/// of the text and the path.
#[verifier::external_body]
fn yaml_node(text: &str, path: &Vec<usize>) -> (r: Result<Option<NodeShape>, String>)
    ensures
        node_answer(yaml_tree(text@), path@, r),
{
    let root: Y = serde_yaml::from_str(text).map_err(|e| e.to_string())?;
    Ok(path.iter().try_fold(&root, |v, &i| match v {
        Y::Sequence(a) => a.get(i),
        Y::Mapping(m) => m.values().nth(i),
        _ => None,
    }).map(|v| match v {
        Y::Sequence(a) => Sequence(a.len()),
        Y::Mapping(m) => Mapping(m.keys().map(|k| k.as_str().map(String::from)).collect()),
        _ => Scalar(v.is_null(), v.as_str().map(String::from), v.as_u64()),
    }))
}

/// Calls `toml::from_str::<toml::Value>`, follows the path (`get` into
/// arrays, the `nth` of `values` into tables) and shows the node reached.
/// The answer is named, a function of the text and the path.
#[verifier::external_body]
fn toml_node(text: &str, path: &Vec<usize>) -> (r: Result<Option<NodeShape>, String>)
    ensures
        node_answer(toml_tree(text@), path@, r),
{
    let root = toml::from_str::<T>(text).map_err(|e| e.to_string())?;
    Ok(path.iter().try_fold(&root, |v, i| match v {
        T::Array(a) => a.get(*i),
        T::Table(m) => m.values().nth(*i),
        _ => None,
    }).map(|v| match v {
        T::String(s) => Text(s.clone()),
        T::Integer(n) => Number(u64::try_from(*n).ok()),
        T::Array(a) => Sequence(a.len()),
        T::Table(m) => Mapping(m.keys().cloned().map(Some).collect()),
        _ => Other,
    }))
}

fn node(fmt: ConfigFormat, text: &str, path: &Vec<usize>) -> (r: Result<Option<NodeShape>, String>)
    ensures
        node_answer(config_document(fmt, text@), path@, r),
{
    match fmt {
        ConfigFormat::Json => json_node(text, path),
        ConfigFormat::Yaml => yaml_node(text, path),
        ConfigFormat::Toml => toml_node(text, path),
    }
}

fn extended(path: &Vec<usize>, i: usize) -> (r: Vec<usize>)
    ensures
        r@ == path@.push(i),
{
    let mut r: Vec<usize> = Vec::new();
    let mut k: usize = 0;
    while k < path.len()
        invariant
            k <= path.len(),
            r@ == path@.take(k as int),
        decreases path.len() - k,
    {
        r.push(path[k]);
        k = k + 1;
        assert(r@ =~= path@.take(k as int));
    }
    assert(path@.take(path.len() as int) =~= path@);
    r.push(i);
    r
}

/// Builds the node of a document at a path, asking the parser for each node.
fn build(fmt: ConfigFormat, text: &str, path: &Vec<usize>, Ghost(doc): Ghost<DocModel>) -> (r: ConfigValue)
    requires
        config_document(fmt, text@) == Ok::<DocModel, Seq<char>>(doc),
        subtree(doc, path@) is Some,
    ensures
        doc_view(r) == subtree(doc, path@)->Some_0,
    decreases subtree(doc, path@)->Some_0,
{
    let ghost here = subtree(doc, path@)->Some_0;
    let shape = match node(fmt, text, path) {
        Ok(Some(s)) => s,
        _ => {
            proof {
                assert(false);
            }
            return ConfigValue::Other;
        },
    };
    match shape {
        NodeShape::Null => ConfigValue::Null,
        NodeShape::Text(t) => ConfigValue::Text(t),
        NodeShape::Number(n) => ConfigValue::Number(n),
        NodeShape::Other => ConfigValue::Other,
        NodeShape::Scalar(null, text, number) => {
            if null {
                ConfigValue::Null
            } else {
                match text {
                    Some(t) => ConfigValue::Text(t),
                    None => match number {
                        Some(k) => ConfigValue::Number(Some(k)),
                        None => ConfigValue::Other,
                    },
                }
            }
        },
        NodeShape::Sequence(n) => {
            let ghost xs = here->Sequence_0;
            let mut items: Vec<ConfigValue> = Vec::new();
            let mut i: usize = 0;
            while i < n
                invariant
                    config_document(fmt, text@) == Ok::<DocModel, Seq<char>>(doc),
                    here == subtree(doc, path@)->Some_0,
                    subtree(doc, path@) is Some,
                    here == DocModel::Sequence(xs),
                    n == xs.len(),
                    i <= n,
                    items@.len() == i,
                    forall|k: int| 0 <= k < i ==> doc_view(#[trigger] items@[k]) == xs[k],
                decreases n - i,
            {
                let child_path = extended(path, i);
                proof {
                    lemma_subtree_push(doc, path@, i);
                    assert(decreases_to!(here => xs[i as int]));
                }
                let c = build(fmt, text, &child_path, Ghost(doc));
                items.push(c);
                i = i + 1;
            }
            proof {
                lemma_items_view(items@, items@.len() as int);
                assert(items_view(items@, items@.len() as int) =~= xs);
            }
            ConfigValue::Sequence(items)
        },
        NodeShape::Mapping(keys) => {
            let ghost es = here->Mapping_0;
            let n = keys.len();
            let mut entries: Vec<ConfigEntry> = Vec::new();
            let mut i: usize = 0;
            while i < n
                invariant
                    config_document(fmt, text@) == Ok::<DocModel, Seq<char>>(doc),
                    here == subtree(doc, path@)->Some_0,
                    subtree(doc, path@) is Some,
                    here == DocModel::Mapping(es),
                    n == keys@.len(),
                    n == es.len(),
                    forall|k: int| 0 <= k < es.len() ==> opt_text(#[trigger] keys@[k]) == es[k].0,
                    i <= n,
                    entries@.len() == i,
                    forall|k: int|
                        0 <= k < i ==> (opt_text((#[trigger] entries@[k]).key), doc_view(entries@[k].value)) == es[k],
                decreases n - i,
            {
                let child_path = extended(path, i);
                proof {
                    lemma_subtree_push(doc, path@, i);
                    assert(decreases_to!(here => es[i as int].1)) by {
                        assert(decreases_to!(here => es));
                        assert(decreases_to!(es => es[i as int]));
                    }
                }
                let c = build(fmt, text, &child_path, Ghost(doc));
                let key = match &keys[i] {
                    Some(k) => Some(k.clone()),
                    None => None,
                };
                assert(opt_text(key) == es[i as int].0);
                entries.push(ConfigEntry { key, value: c });
                i = i + 1;
            }
            proof {
                lemma_entries_view(entries@, entries@.len() as int);
                assert(entries_view(entries@, entries@.len() as int) =~= es);
            }
            ConfigValue::Mapping(entries)
        },
    }
}

/// Parses a configuration text in a format: the parser's error, or the
/// document as a tree.
pub fn parse_config(fmt: ConfigFormat, text: &str) -> (r: Result<ConfigValue, String>)
    ensures
        match r {
            Ok(v) => config_document(fmt, text@) == Ok::<DocModel, Seq<char>>(doc_view(v)),
            Err(e) => config_document(fmt, text@) == Err::<DocModel, Seq<char>>(e@),
        },
{
    let root: Vec<usize> = Vec::new();
    match node(fmt, text, &root) {
        Err(e) => Err(e),
        Ok(_) => {
            let ghost doc = config_document(fmt, text@)->Ok_0;
            assert(root@ =~= Seq::<usize>::empty());
            Ok(build(fmt, text, &root, Ghost(doc)))
        },
    }
}

} // verus!
