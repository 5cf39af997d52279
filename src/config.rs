//! The configuration file's model: named contexts, each with an optional
//! Kafka section and an optional schema registry section.

use vstd::prelude::*;

verus! {

/// Credentials for HTTP basic authentication against the registry.
pub struct BasicAuth {
    pub username: String,
    pub password: Option<String>,
}

/// Where the schema registry is and how to authenticate with it.
pub struct SchemaRegistryConfig {
    pub url: String,
    pub basic_auth: Option<BasicAuth>,
}

/// Where the Kafka cluster is, and extra client properties, each key once.
pub struct KafkaConfig {
    pub bootstrap_server: String,
    pub properties: Option<Vec<(String, String)>>,
}

/// One named environment: the cluster and registry that commands talk to.
pub struct KToolsContext {
    pub kafka: Option<KafkaConfig>,
    pub schema_registry: Option<SchemaRegistryConfig>,
}

/// The whole configuration: the user name and the named contexts, each name once.
pub struct KToolsConfig {
    pub user: String,
    pub contexts: Vec<(String, KToolsContext)>,
}

/// No property key occurs twice.
pub open spec fn distinct_keys(props: Seq<(String, String)>) -> bool {
    forall|i: int, j: int| 0 <= i < j < props.len() ==> props[i].0@ != props[j].0@
}

impl KafkaConfig {
    /// Each extra property key is given once.
    pub open spec fn wf(&self) -> bool {
        match self.properties {
            Some(props) => distinct_keys(props@),
            None => true,
        }
    }
}

impl KToolsContext {
    /// The Kafka section, when present, is well formed.
    pub open spec fn wf(&self) -> bool {
        match self.kafka {
            Some(k) => k.wf(),
            None => true,
        }
    }
}

/// No context name occurs twice.
pub open spec fn distinct_names(contexts: Seq<(String, KToolsContext)>) -> bool {
    forall|i: int, j: int| 0 <= i < j < contexts.len() ==> contexts[i].0@ != contexts[j].0@
}

impl KToolsConfig {
    /// Each context name is given once and each context is well formed.
    pub open spec fn wf(&self) -> bool {
        &&& distinct_names(self.contexts@)
        &&& forall|i: int| 0 <= i < self.contexts@.len() ==> (#[trigger] self.contexts@[i]).1.wf()
    }
}

/// The position of the first context called `name`, if any.
pub open spec fn first_context_index(contexts: Seq<(String, KToolsContext)>, name: Seq<char>) -> Option<int>
    decreases contexts.len(),
{
    if contexts.len() == 0 {
        None
    } else {
        match first_context_index(contexts.drop_last(), name) {
            Some(i) => Some(i),
            None => if contexts.last().0@ == name {
                Some(contexts.len() - 1)
            } else {
                None
            },
        }
    }
}

/// A context that talks to a local cluster and registry, optionally with credentials.
pub open spec fn is_local_context(c: KToolsContext, with_auth: bool) -> bool {
    &&& c.kafka is Some
    &&& c.kafka->0.bootstrap_server@ == "localhost:9092"@
    &&& c.kafka->0.properties is None
    &&& c.schema_registry is Some
    &&& c.schema_registry->0.url@ == "http://localhost:8081"@
    &&& if with_auth {
        let auth = c.schema_registry->0.basic_auth;
        &&& auth is Some
        &&& auth->0.username@ == "admin"@
        &&& auth->0.password is Some
        &&& auth->0.password->0@ == "admin"@
    } else {
        c.schema_registry->0.basic_auth is None
    }
}

fn local_context(with_auth: bool) -> (r: KToolsContext)
    ensures
        is_local_context(r, with_auth),
{
    let basic_auth = if with_auth {
        Some(BasicAuth { username: "admin".to_string(), password: Some("admin".to_string()) })
    } else {
        None
    };
    KToolsContext {
        kafka: Some(
            KafkaConfig { bootstrap_server: "localhost:9092".to_string(), properties: None },
        ),
        schema_registry: Some(
            SchemaRegistryConfig { url: "http://localhost:8081".to_string(), basic_auth },
        ),
    }
}

impl KToolsConfig {
    /// The first context called `name`.
    pub fn context(&self, name: &str) -> (r: Option<&KToolsContext>)
        ensures
            match first_context_index(self.contexts@, name@) {
                Some(i) => r == Some(&self.contexts@[i].1),
                None => r is None,
            },
    {
        let mut i: usize = 0;
        while i < self.contexts.len()
            invariant
                i <= self.contexts@.len(),
                first_context_index(self.contexts@.subrange(0, i as int), name@) is None,
            decreases self.contexts@.len() - i,
        {
            let ghost prefix = self.contexts@.subrange(0, i + 1);
            assert(prefix.drop_last() == self.contexts@.subrange(0, i as int));
            assert(prefix.last() == self.contexts@[i as int]);
            if crate::text::str_eq(self.contexts[i].0.as_str(), name) {
                proof { lemma_first_index_extends(self.contexts@, name@, i + 1, i as int); }
                return Some(&self.contexts[i].1);
            }
            i = i + 1;
        }
        assert(self.contexts@.subrange(0, self.contexts@.len() as int) == self.contexts@);
        None
    }
}

proof fn lemma_first_index_extends(s: Seq<(String, KToolsContext)>, name: Seq<char>, n: int, k: int)
    requires
        0 <= n <= s.len(),
        first_context_index(s.subrange(0, n), name) == Some(k),
    ensures
        first_context_index(s, name) == Some(k),
    decreases s.len() - n,
{
    if n < s.len() {
        assert(s.subrange(0, n + 1).drop_last() == s.subrange(0, n));
        lemma_first_index_extends(s, name, n + 1, k);
    } else {
        assert(s.subrange(0, n) == s);
    }
}

impl Default for KToolsConfig {
    /// A configuration with a `local` context and a `dev` context that
    /// authenticates as `admin`, both against a cluster and registry on localhost.
    fn default() -> (r: KToolsConfig)
        ensures
            r.wf(),
            r.user@ == "user.name"@,
            r.contexts@.len() == 2,
            r.contexts@[0].0@ == "local"@,
            is_local_context(r.contexts@[0].1, false),
            r.contexts@[1].0@ == "dev"@,
            is_local_context(r.contexts@[1].1, true),
    {
        let mut contexts: Vec<(String, KToolsContext)> = Vec::new();
        contexts.push(("local".to_string(), local_context(false)));
        contexts.push(("dev".to_string(), local_context(true)));
        let r = KToolsConfig { user: "user.name".to_string(), contexts };
        proof {
            reveal_strlit("local");
            reveal_strlit("dev");
        }
        assert("local"@.len() != "dev"@.len());
        assert(r.contexts@[0].0@ != r.contexts@[1].0@);
        r
    }
}

} // verus!
