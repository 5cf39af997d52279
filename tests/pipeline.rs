use ktools::cli::CodecKind;
use ktools::codec::{Decoded, Encoded};
use ktools::config::{KToolsContext, KafkaConfig, SchemaRegistryConfig};
use ktools::pipeline::{collect_headers, compose_message, kafka_client_config, record_key, utf8_lossy};
use ktools::registry::{ConfigError, SchemaRegistryClient};

fn context(properties: Option<Vec<(String, String)>>) -> KToolsContext {
    KToolsContext {
        kafka: Some(KafkaConfig { bootstrap_server: "broker:9092".to_string(), properties }),
        schema_registry: Some(SchemaRegistryConfig {
            url: "http://localhost:8081".to_string(),
            basic_auth: None,
        }),
    }
}

#[test]
fn client_config_sets_servers_client_and_group() {
    let config = kafka_client_config("alice", &context(None)).ok().unwrap();
    assert_eq!(config.get("bootstrap.servers"), Some("broker:9092"));
    assert_eq!(config.get("client.id"), Some("ktools-cli"));
    assert_eq!(config.get("group.id"), Some("ktools-alice"));
    assert_eq!(config.config_map().len(), 3);
}

#[test]
fn extra_properties_apply_in_order_and_override() {
    let props = vec![
        ("security.protocol".to_string(), "SASL_SSL".to_string()),
        ("group.id".to_string(), "shared".to_string()),
        ("security.protocol".to_string(), "SSL".to_string()),
    ];
    let config = kafka_client_config("bob", &context(Some(props))).ok().unwrap();
    assert_eq!(config.get("security.protocol"), Some("SSL"));
    assert_eq!(config.get("group.id"), Some("shared"));
    assert_eq!(config.config_map().len(), 4);
}

#[test]
fn client_config_needs_a_kafka_section() {
    let context = KToolsContext { kafka: None, schema_registry: None };
    assert!(matches!(kafka_client_config("u", &context), Err(ConfigError::MissingKafka)));
}

#[test]
fn record_key_is_empty_without_a_key() {
    assert_eq!(record_key(None), Vec::<u8>::new());
    assert_eq!(record_key(Some("k1")), b"k1".to_vec());
    assert_eq!(record_key(Some("é")), vec![0xc3, 0xa9]);
}

#[test]
fn lossy_utf8_replaces_invalid_bytes() {
    assert_eq!(utf8_lossy(b"abc"), "abc");
    assert_eq!(utf8_lossy(&[0x61, 0xff, 0x62]), "a\u{fffd}b");
}

#[test]
fn later_header_of_a_name_replaces_the_earlier() {
    let raw = vec![
        ("a".to_string(), Some(b"1".to_vec())),
        ("b".to_string(), None),
        ("a".to_string(), Some(vec![0x32, 0xff])),
    ];
    let headers = collect_headers(&raw);
    assert_eq!(
        headers,
        vec![("a".to_string(), "2\u{fffd}".to_string()), ("b".to_string(), String::new())]
    );
}

#[test]
fn message_without_timestamp_shows_zero() {
    let m = compose_message(Some(&[0x6b, 0xff]), &vec![], 3, 17, None, None);
    assert_eq!(m.key.as_deref(), Some("k\u{fffd}"));
    assert_eq!(m.partition, 3);
    assert_eq!(m.offset, 17);
    assert_eq!(m.timestamp, 0);
    assert!(m.value.is_none());
    assert!(m.headers.is_empty());
    let m = compose_message(None, &vec![], 0, 0, Some(1700000000000), None);
    assert!(m.key.is_none());
    assert_eq!(m.timestamp, 1700000000000);
}

#[test]
fn raw_message_produced_then_consumed() {
    let client = SchemaRegistryClient::configure(&context(None)).ok().unwrap();
    let payload = br#"{"a":1}"#;
    let value = match client.encode(CodecKind::Raw, "t", payload) {
        Ok(Encoded::Ready(bytes)) => bytes,
        _ => panic!("raw encoding hands the bytes back"),
    };
    let key = record_key(Some("k1"));
    let decoded = match client.decode(CodecKind::Raw, Some(&value)) {
        Ok(Decoded::Done(v)) => v,
        _ => panic!("raw decoding finishes without the registry"),
    };
    let m = compose_message(Some(&key), &vec![], 0, 0, Some(5), decoded);
    assert_eq!(m.key.as_deref(), Some("k1"));
    assert_eq!(m.value, Some(serde_json::from_str::<serde_json::Value>(r#"{"a":1}"#).unwrap()));
    assert!(m.headers.is_empty());
}
