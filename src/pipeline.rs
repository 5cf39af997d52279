//! The Kafka side: the client properties a context yields, the key of a
//! produced record, and the decoded view of a consumed message.

use vstd::prelude::*;
use vstd::utf8::{decode_utf8, valid_utf8};
use vstd::string::{StrSliceExecFns, StringSliceAdditionalSpecFns};
use serde_json::Value;
use rdkafka::ClientConfig;
use crate::config::{KafkaConfig, KToolsContext};
use crate::registry::ConfigError;

verus! {

#[verifier::external_type_specification]
#[verifier::external_body]
pub struct ExClientConfig(ClientConfig);

/// The properties held by a Kafka client configuration.
pub uninterp spec fn client_config_entries(c: ClientConfig) -> Map<Seq<char>, Seq<char>>;

/// The empty property map.
pub open spec fn no_properties() -> Map<Seq<char>, Seq<char>> {
    Map::empty()
}

/// Relies on `ClientConfig::new`: a configuration with no properties set.
#[verifier::external_body]
fn new_client_config() -> (r: ClientConfig)
    ensures
        client_config_entries(r) == no_properties(),
{
    ClientConfig::new()
}

/// Relies on `ClientConfig::set`: inserts the property into the configuration's
/// map, replacing an earlier value of the same key.
#[verifier::external_body]
fn set_property(config: &mut ClientConfig, key: &str, value: &str)
    ensures
        client_config_entries(*final(config)) == client_config_entries(*old(config)).insert(
            key@,
            value@,
        ),
{
    config.set(key, value);
}

/// The name of `String::from_utf8_lossy`'s result.
pub uninterp spec fn utf8_lossy_of(b: Seq<u8>) -> Seq<char>;

/// Relies on `String::from_utf8_lossy`: invalid sequences become U+FFFD, and
/// valid UTF-8 is decoded as it is.
#[verifier::external_body]
pub fn utf8_lossy(b: &[u8]) -> (r: String)
    ensures
        r@ == utf8_lossy_of(b@),
        valid_utf8(b@) ==> r@ == decode_utf8(b@),
{
    String::from_utf8_lossy(b).into_owned()
}

/// Properties applied in order over `m`, later ones replacing earlier ones.
pub open spec fn with_properties(m: Map<Seq<char>, Seq<char>>, props: Seq<(String, String)>) -> Map<Seq<char>, Seq<char>>
    decreases props.len(),
{
    if props.len() == 0 {
        m
    } else {
        with_properties(m, props.drop_last()).insert(props.last().0@, props.last().1@)
    }
}

/// The client properties for `user` on a Kafka section: the bootstrap servers,
/// the client id, a consumer group of the user's own, then the extra properties.
pub open spec fn client_properties(user: Seq<char>, kafka: KafkaConfig) -> Map<Seq<char>, Seq<char>> {
    let base = Map::<Seq<char>, Seq<char>>::empty().insert(
        "bootstrap.servers"@,
        kafka.bootstrap_server@,
    ).insert("client.id"@, "ktools-cli"@).insert("group.id"@, "ktools-"@ + user);
    match kafka.properties {
        Some(props) => with_properties(base, props@),
        None => base,
    }
}

/// The Kafka client configuration for `user` in `context`. Fails when the
/// context has no Kafka section.
pub fn kafka_client_config(user: &str, context: &KToolsContext) -> (r: Result<ClientConfig, ConfigError>)
    ensures
        context.kafka is None <==> r matches Err(ConfigError::MissingKafka),
        context.kafka is Some ==> (r is Ok && client_config_entries(r->Ok_0) == client_properties(
            user@,
            context.kafka->0,
        )),
{
    let kafka = match &context.kafka {
        Some(kafka) => kafka,
        None => { return Err(ConfigError::MissingKafka); },
    };
    let mut group: Vec<char> = Vec::new();
    crate::text::push_str(&mut group, "ktools-");
    crate::text::push_str(&mut group, user);
    let group_id = crate::text::string_of(&group);
    let mut config = new_client_config();
    set_property(&mut config, "bootstrap.servers", kafka.bootstrap_server.as_str());
    set_property(&mut config, "client.id", "ktools-cli");
    set_property(&mut config, "group.id", group_id.as_str());
    let ghost base = client_config_entries(config);
    match &kafka.properties {
        Some(props) => {
            let mut i: usize = 0;
            while i < props.len()
                invariant
                    i <= props@.len(),
                    client_config_entries(config) == with_properties(base, props@.subrange(0, i as int)),
                decreases props@.len() - i,
            {
                assert(props@.subrange(0, i + 1).drop_last() == props@.subrange(0, i as int));
                set_property(&mut config, props[i].0.as_str(), props[i].1.as_str());
                i = i + 1;
            }
            assert(props@.subrange(0, props@.len() as int) == props@);
        },
        None => {},
    }
    Ok(config)
}

/// The key bytes of a produced record: the key's UTF-8 bytes, or none at all.
pub fn record_key(key: Option<&str>) -> (r: Vec<u8>)
    ensures
        r@ == match key {
            Some(k) => k.spec_bytes(),
            None => Seq::<u8>::empty(),
        },
{
    match key {
        Some(k) => k.as_bytes_vec(),
        None => Vec::new(),
    }
}

/// A consumed message as it is shown: key and header values decoded lossily
/// as UTF-8, and the payload decoded by the chosen codec.
pub struct KafkaMessage {
    pub key: Option<String>,
    pub value: Option<Value>,
    pub partition: i32,
    pub offset: i64,
    pub timestamp: i64,
    /// Header names and values, each name once.
    pub headers: Vec<(String, String)>,
}

/// The map that name/value pairs stand for, later pairs replacing earlier ones.
pub open spec fn pairs_map(pairs: Seq<(String, String)>) -> Map<Seq<char>, Seq<char>>
    decreases pairs.len(),
{
    if pairs.len() == 0 {
        Map::empty()
    } else {
        pairs_map(pairs.drop_last()).insert(pairs.last().0@, pairs.last().1@)
    }
}

/// No name occurs twice.
pub open spec fn distinct_names(pairs: Seq<(String, String)>) -> bool {
    forall|i: int, j: int| 0 <= i < j < pairs.len() ==> pairs[i].0@ != pairs[j].0@
}

/// The text of a header value: lossy UTF-8, or empty when the header has no value.
pub open spec fn header_text(value: Option<Vec<u8>>) -> Seq<char> {
    match value {
        Some(v) => utf8_lossy_of(v@),
        None => Seq::empty(),
    }
}

/// The header map that raw headers give, later headers of a name replacing earlier ones.
pub open spec fn header_map(raw: Seq<(String, Option<Vec<u8>>)>) -> Map<Seq<char>, Seq<char>>
    decreases raw.len(),
{
    if raw.len() == 0 {
        Map::empty()
    } else {
        header_map(raw.drop_last()).insert(raw.last().0@, header_text(raw.last().1))
    }
}

proof fn lemma_pairs_map_update(pairs: Seq<(String, String)>, j: int, p: (String, String))
    requires
        distinct_names(pairs),
        0 <= j < pairs.len(),
        pairs[j].0@ == p.0@,
    ensures
        pairs_map(pairs.update(j, p)) == pairs_map(pairs).insert(p.0@, p.1@),
    decreases pairs.len(),
{
    let updated = pairs.update(j, p);
    let init = pairs.drop_last();
    if j == pairs.len() - 1 {
        assert(updated.drop_last() == init);
        assert(pairs_map(updated) == pairs_map(init).insert(p.0@, p.1@));
        assert(pairs_map(pairs).insert(p.0@, p.1@) =~= pairs_map(init).insert(p.0@, p.1@));
    } else {
        assert(updated.drop_last() == init.update(j, p));
        lemma_pairs_map_update(init, j, p);
        assert(pairs.last().0@ != p.0@);
        assert(pairs_map(updated) =~= pairs_map(pairs).insert(p.0@, p.1@));
    }
}

fn header_value_text(value: &Option<Vec<u8>>) -> (r: String)
    ensures
        r@ == header_text(*value),
{
    match value {
        Some(v) => utf8_lossy(v.as_slice()),
        None => String::new(),
    }
}

fn position_of_name(pairs: &Vec<(String, String)>, name: &str) -> (r: Option<usize>)
    ensures
        match r {
            Some(k) => k < pairs@.len() && pairs@[k as int].0@ == name@,
            None => forall|k: int| 0 <= k < pairs@.len() ==> pairs@[k].0@ != name@,
        },
{
    let mut j: usize = 0;
    while j < pairs.len()
        invariant
            j <= pairs@.len(),
            forall|k: int| 0 <= k < j ==> pairs@[k].0@ != name@,
        decreases pairs@.len() - j,
    {
        if crate::text::str_eq(pairs[j].0.as_str(), name) {
            return Some(j);
        }
        j = j + 1;
    }
    None
}

/// The header map of a consumed message, each name once, later headers of a
/// name replacing earlier ones.
pub fn collect_headers(raw: &Vec<(String, Option<Vec<u8>>)>) -> (r: Vec<(String, String)>)
    ensures
        distinct_names(r@),
        pairs_map(r@) == header_map(raw@),
{
    let mut out: Vec<(String, String)> = Vec::new();
    let mut i: usize = 0;
    while i < raw.len()
        invariant
            i <= raw@.len(),
            distinct_names(out@),
            pairs_map(out@) == header_map(raw@.subrange(0, i as int)),
        decreases raw@.len() - i,
    {
        assert(raw@.subrange(0, i + 1).drop_last() == raw@.subrange(0, i as int));
        let name = raw[i].0.clone();
        let text = header_value_text(&raw[i].1);
        let found = position_of_name(&out, name.as_str());
        let ghost before = out@;
        match found {
            Some(k) => {
                proof { lemma_pairs_map_update(before, k as int, (name, text)); }
                out.set(k, (name, text));
                assert(out@ == before.update(k as int, (name, text)));
            },
            None => {
                out.push((name, text));
                assert(out@.drop_last() == before);
            },
        }
        i = i + 1;
    }
    assert(raw@.subrange(0, raw@.len() as int) == raw@);
    out
}

/// Builds the shown form of a consumed message; a missing timestamp shows as 0.
pub fn compose_message(
    key: Option<&[u8]>,
    headers: &Vec<(String, Option<Vec<u8>>)>,
    partition: i32,
    offset: i64,
    timestamp: Option<i64>,
    value: Option<Value>,
) -> (m: KafkaMessage)
    ensures
        match key {
            Some(k) => m.key is Some && m.key->0@ == utf8_lossy_of(k@),
            None => m.key is None,
        },
        m.value == value,
        m.partition == partition,
        m.offset == offset,
        m.timestamp == match timestamp {
            Some(t) => t,
            None => 0,
        },
        distinct_names(m.headers@),
        pairs_map(m.headers@) == header_map(headers@),
{
    let key = match key {
        Some(k) => Some(utf8_lossy(k)),
        None => None,
    };
    let timestamp = match timestamp {
        Some(t) => t,
        None => 0,
    };
    KafkaMessage { key, value, partition, offset, timestamp, headers: collect_headers(headers) }
}

} // verus!
