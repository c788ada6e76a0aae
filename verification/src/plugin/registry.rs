//! The registry of log parsers, and how a parser is picked for a path.
use vstd::prelude::*;

use crate::collector::parser::json_parser::{json_can_handle, JsonPluginFactory};
use crate::collector::parser::plaintext_parser::PlaintextPluginFactory;
use crate::models::incident::with_id;
use crate::plugin::builtin::docker::{docker_can_handle, DockerPluginFactory};
use crate::plugin::builtin::nginx::{nginx_can_handle, NginxPluginFactory};
use crate::plugin::{builtin_metadata, can_handle_by_id, LogParser, PluginFactory, PluginMetadata};
use crate::text::{chars_of, eq_str};

verus! {

/// The parser used where no specific format claims a path.
pub const FALLBACK_PARSER: &'static str = "plaintext";

/// The parser for a path: the first of nginx, docker and json (specific
/// formats first) that is registered and claims the path, else plaintext.
pub open spec fn detect_for(ids: Seq<Seq<char>>, path: Seq<char>) -> Seq<char> {
    if ids.contains("nginx"@) && nginx_can_handle(path) {
        "nginx"@
    } else if ids.contains("docker"@) && docker_can_handle(path) {
        "docker"@
    } else if ids.contains("json"@) && json_can_handle(path) {
        "json"@
    } else {
        FALLBACK_PARSER@
    }
}

/// No id occurs twice.
pub open spec fn unique_ids(ids: Seq<Seq<char>>) -> bool {
    forall|i: int, j: int| 0 <= i < j < ids.len() ==> ids[i] != ids[j]
}

/// The ids a registry starts with.
pub open spec fn builtin_ids() -> Seq<Seq<char>> {
    seq!["nginx"@, "docker"@, "json"@, "plaintext"@]
}

pub struct PluginRegistry {
    factories: Vec<PluginFactory>,
}

impl PluginRegistry {
    /// The ids of the registered factories, in the order they were registered.
    pub closed spec fn ids(&self) -> Seq<Seq<char>> {
        self.factories@.map_values(|f: PluginFactory| f.factory_id())
    }

    /// A registry holding the four built-in parsers.
    pub fn new() -> (r: PluginRegistry)
        ensures
            r.ids() == builtin_ids(),
    {
        proof {
            reveal_strlit("nginx");
            reveal_strlit("docker");
            reveal_strlit("json");
            reveal_strlit("plaintext");
        }
        let mut registry = PluginRegistry { factories: Vec::new() };
        assert(registry.ids() =~= Seq::<Seq<char>>::empty());
        registry.register(PluginFactory::Nginx(NginxPluginFactory));
        assert(registry.ids() =~= seq!["nginx"@]);
        registry.register(PluginFactory::Docker(DockerPluginFactory));
        assert(!seq!["nginx"@].contains("docker"@)) by {
            assert(seq!["nginx"@][0].len() != "docker"@.len());
        }
        assert(registry.ids() =~= seq!["nginx"@, "docker"@]);
        registry.register(PluginFactory::Json(JsonPluginFactory));
        assert(!seq!["nginx"@, "docker"@].contains("json"@)) by {
            assert(seq!["nginx"@, "docker"@][0].len() != "json"@.len());
            assert(seq!["nginx"@, "docker"@][1].len() != "json"@.len());
        }
        assert(registry.ids() =~= seq!["nginx"@, "docker"@, "json"@]);
        registry.register(PluginFactory::Plaintext(PlaintextPluginFactory));
        assert(!seq!["nginx"@, "docker"@, "json"@].contains("plaintext"@)) by {
            assert(seq!["nginx"@, "docker"@, "json"@][0].len() != "plaintext"@.len());
            assert(seq!["nginx"@, "docker"@, "json"@][1].len() != "plaintext"@.len());
            assert(seq!["nginx"@, "docker"@, "json"@][2].len() != "plaintext"@.len());
        }
        assert(registry.ids() =~= builtin_ids());
        registry
    }

    /// Where the factory with the given id is, if registered.
    fn position(&self, id: &str) -> (r: Option<usize>)
        ensures
            match r {
                Some(i) => i < self.ids().len() && self.ids()[i as int] == id@,
                None => !self.ids().contains(id@),
            },
    {
        let mut i: usize = 0;
        while i < self.factories.len()
            invariant
                i <= self.factories.len(),
                forall|j: int| 0 <= j < i ==> self.ids()[j] != id@,
            decreases self.factories.len() - i,
        {
            let here = chars_of(self.factories[i].id());
            if eq_str(here.as_slice(), id) {
                return Some(i);
            }
            i = i + 1;
        }
        assert(!self.ids().contains(id@)) by {
            if self.ids().contains(id@) {
                let j = choose|j: int| 0 <= j < self.ids().len() && self.ids()[j] == id@;
                assert(j < i);
            }
        }
        None
    }

    /// Registers a factory under its id, replacing one registered under the
    /// same id.
    pub fn register(&mut self, factory: PluginFactory)
        ensures
            final(self).ids() == with_id(old(self).ids(), factory.factory_id()),
    {
        match self.position(factory.id()) {
            Some(i) => {
                self.factories.set(i, factory);
                assert(self.ids() =~= old(self).ids());
                assert(old(self).ids().contains(factory.factory_id()));
            },
            None => {
                self.factories.push(factory);
                assert(self.ids() =~= old(self).ids().push(factory.factory_id()));
            },
        }
    }

    /// A fresh parser of the given id for a source, if that id is registered.
    pub fn create(&self, plugin_id: &str, source_id: &str, source_path: &str) -> (r: Option<LogParser>)
        ensures
            r is Some <==> self.ids().contains(plugin_id@),
            r matches Some(p) ==> p.parser_id() == plugin_id@ && p.source() == (source_id@, source_path@)
                && p.is_idle(),
    {
        match self.position(plugin_id) {
            Some(i) => Some(self.factories[i].create(source_id, source_path)),
            None => None,
        }
    }

    /// Whether the registered parser of the given id claims a path.
    fn claims(&self, id: &str, source_path: &str) -> (r: bool)
        ensures
            r == (self.ids().contains(id@) && can_handle_by_id(id@, source_path@)),
    {
        match self.position(id) {
            Some(i) => {
                let parser = self.factories[i].create("", source_path);
                parser.can_handle(source_path)
            },
            None => false,
        }
    }

    /// The parser for a path, checked in a fixed order: nginx, docker, json,
    /// then plaintext as the catch-all.
    pub fn detect(&self, source_path: &str) -> (r: &'static str)
        ensures
            r@ == detect_for(self.ids(), source_path@),
    {
        proof {
            reveal_strlit("nginx");
            reveal_strlit("docker");
            reveal_strlit("json");
            reveal_strlit("plaintext");
        }
        if self.claims("nginx", source_path) {
            "nginx"
        } else if self.claims("docker", source_path) {
            "docker"
        } else if self.claims("json", source_path) {
            "json"
        } else {
            FALLBACK_PARSER
        }
    }

    /// The metadata of every registered parser, in registration order.
    pub fn list_metadata(&self) -> (r: Vec<PluginMetadata>)
        ensures
            r@.len() == self.ids().len(),
            forall|i: int|
                0 <= i < r@.len() ==> {
                    let m = #[trigger] r@[i].view_texts();
                    let b = builtin_metadata(self.ids()[i]);
                    m.0 == b.0 && m.1 == b.1 && m.2 == b.2 && m.3 == b.3
                },
    {
        let mut r: Vec<PluginMetadata> = Vec::new();
        let mut i: usize = 0;
        while i < self.factories.len()
            invariant
                i <= self.factories.len(),
                r@.len() == i,
                forall|k: int|
                    0 <= k < i ==> {
                        let m = #[trigger] r@[k].view_texts();
                        let b = builtin_metadata(self.ids()[k]);
                        m.0 == b.0 && m.1 == b.1 && m.2 == b.2 && m.3 == b.3
                    },
            decreases self.factories.len() - i,
        {
            let parser = self.factories[i].create("", "");
            r.push(parser.metadata());
            i = i + 1;
        }
        r
    }
}

impl Default for PluginRegistry {
    fn default() -> (r: Self)
        ensures
            r.ids() == builtin_ids(),
    {
        PluginRegistry::new()
    }
}

/// Registering never lets an id occur twice.
pub proof fn law_register_keeps_ids_unique(ids: Seq<Seq<char>>, id: Seq<char>)
    requires
        unique_ids(ids),
    ensures
        unique_ids(with_id(ids, id)),
{
}

/// A new registry knows every parser the collector may name, and no id twice.
pub proof fn law_builtins_registered()
    ensures
        unique_ids(builtin_ids()),
        builtin_ids().contains("plaintext"@),
        builtin_ids().contains("json"@),
        builtin_ids().contains("nginx"@),
        builtin_ids().contains("docker"@),
{
    reveal_strlit("nginx");
    reveal_strlit("docker");
    reveal_strlit("json");
    reveal_strlit("plaintext");
    assert forall|i: int, j: int| 0 <= i < j < builtin_ids().len() implies builtin_ids()[i] != builtin_ids()[j] by {
        assert(builtin_ids()[i].len() != builtin_ids()[j].len());
    }
    assert(builtin_ids()[3] == "plaintext"@);
    assert(builtin_ids()[2] == "json"@);
    assert(builtin_ids()[1] == "docker"@);
    assert(builtin_ids()[0] == "nginx"@);
}

/// Detection always names a registered parser, or the plaintext fallback.
pub proof fn law_detect_names_a_registered_parser(ids: Seq<Seq<char>>, path: Seq<char>)
    ensures
        ids.contains(detect_for(ids, path)) || detect_for(ids, path) == FALLBACK_PARSER@,
{
}

} // verus!
