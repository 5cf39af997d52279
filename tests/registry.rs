use ktools::cli::CodecKind;
use ktools::config::{BasicAuth, KToolsConfig, KToolsContext, KafkaConfig, SchemaRegistryConfig};
use ktools::registry::{
    schema_kind_for, select_version, ConfigError, RegistrationError, ResolutionError, SchemaKind,
    SchemaRegistryClient,
};

fn registry_context() -> KToolsContext {
    KToolsContext {
        kafka: None,
        schema_registry: Some(SchemaRegistryConfig {
            url: "http://localhost:8081".to_string(),
            basic_auth: Some(BasicAuth { username: "admin".to_string(), password: None }),
        }),
    }
}

#[test]
fn codec_kind_defaults_to_raw() {
    assert_eq!(CodecKind::default(), CodecKind::Raw);
    assert!(!CodecKind::Raw.uses_registry());
    assert!(CodecKind::Json.uses_registry());
    assert!(CodecKind::Avro.uses_registry());
    assert!(CodecKind::Proto.uses_registry());
}

#[test]
fn default_config_has_local_and_dev() {
    let config = KToolsConfig::default();
    assert_eq!(config.user, "user.name");
    assert_eq!(config.contexts.len(), 2);
    let local = config.context("local").unwrap();
    let kafka = local.kafka.as_ref().unwrap();
    assert_eq!(kafka.bootstrap_server, "localhost:9092");
    assert!(kafka.properties.is_none());
    let registry = local.schema_registry.as_ref().unwrap();
    assert_eq!(registry.url, "http://localhost:8081");
    assert!(registry.basic_auth.is_none());
    let dev = config.context("dev").unwrap();
    let auth = dev.schema_registry.as_ref().unwrap().basic_auth.as_ref().unwrap();
    assert_eq!(auth.username, "admin");
    assert_eq!(auth.password.as_deref(), Some("admin"));
    assert!(config.context("prod").is_none());
}

#[test]
fn context_lookup_takes_the_first_of_a_name() {
    let config = KToolsConfig {
        user: "me".to_string(),
        contexts: vec![
            ("a".to_string(), KToolsContext { kafka: None, schema_registry: None }),
            (
                "a".to_string(),
                KToolsContext {
                    kafka: Some(KafkaConfig { bootstrap_server: "b:1".to_string(), properties: None }),
                    schema_registry: None,
                },
            ),
        ],
    };
    assert!(config.context("a").unwrap().kafka.is_none());
}

#[test]
fn latest_version_is_the_last_of_ascending_versions() {
    assert_eq!(select_version("orders-value", &vec![1, 2, 5], None).unwrap(), 5);
    assert_eq!(select_version("orders-value", &vec![4], None).unwrap(), 4);
}

#[test]
fn latest_version_is_the_largest() {
    assert_eq!(select_version("s", &vec![3, 9, 4], None).unwrap(), 9);
}

#[test]
fn requested_version_that_exists_is_used() {
    assert_eq!(select_version("s", &vec![1, 2, 3], Some(2)).unwrap(), 2);
}

#[test]
fn unknown_version_lists_the_subject_versions() {
    let err = select_version("orders-value", &vec![1, 2, 3], Some(4)).unwrap_err();
    match &err {
        ResolutionError::UnknownVersion { subject, version, versions } => {
            assert_eq!(subject, "orders-value");
            assert_eq!(*version, 4);
            assert_eq!(versions, &vec![1, 2, 3]);
        }
        other => panic!("unexpected error {:?}", other),
    }
    assert_eq!(
        err.message(),
        "Subject orders-value does not have version 4. Subject versions: 1, 2, 3."
    );
}

#[test]
fn unknown_version_message_renders_large_numbers() {
    let err = select_version("s", &vec![10, 205, 4294967295], Some(0)).unwrap_err();
    assert_eq!(
        err.message(),
        "Subject s does not have version 0. Subject versions: 10, 205, 4294967295."
    );
}

#[test]
fn subject_without_versions_has_no_latest() {
    let err = select_version("s", &vec![], None).unwrap_err();
    assert!(matches!(err, ResolutionError::NoVersions { .. }));
    assert_eq!(err.message(), "Subject s has no versions.");
}

#[test]
fn schema_type_follows_the_file_extension() {
    assert_eq!(schema_kind_for("a.avsc").unwrap(), SchemaKind::Avro);
    assert_eq!(schema_kind_for("a.json").unwrap(), SchemaKind::Json);
    assert_eq!(schema_kind_for("a.proto").unwrap(), SchemaKind::Protobuf);
    assert_eq!(schema_kind_for("schemas/v1.2/orders.avsc").unwrap(), SchemaKind::Avro);
}

#[test]
fn unsupported_extension_is_refused() {
    match schema_kind_for("a.txt") {
        Err(RegistrationError::UnsupportedType { extension }) => assert_eq!(extension, "txt"),
        other => panic!("unexpected result {:?}", other),
    }
}

#[test]
fn missing_extension_is_refused() {
    assert!(matches!(schema_kind_for("a"), Err(RegistrationError::MissingExtension)));
    assert!(matches!(schema_kind_for("dir.d/a"), Err(RegistrationError::MissingExtension)));
    assert!(matches!(schema_kind_for(".avsc"), Err(RegistrationError::MissingExtension)));
}

#[test]
fn registry_client_needs_a_registry_section() {
    let context = KToolsContext { kafka: None, schema_registry: None };
    assert!(matches!(SchemaRegistryClient::configure(&context), Err(ConfigError::MissingRegistry)));
}

#[test]
fn registry_client_is_built_from_a_registry_section() {
    assert!(SchemaRegistryClient::configure(&registry_context()).is_ok());
}

#[test]
fn unknown_version_lists_versions_ascending_once() {
    let err = select_version("s", &vec![3, 1, 2, 1], Some(7)).unwrap_err();
    match &err {
        ResolutionError::UnknownVersion { versions, .. } => assert_eq!(versions, &vec![1, 2, 3]),
        other => panic!("unexpected error {:?}", other),
    }
    assert_eq!(err.message(), "Subject s does not have version 7. Subject versions: 1, 2, 3.");
}

#[test]
fn trailing_separators_are_ignored_for_the_extension() {
    assert_eq!(schema_kind_for("dir/a.avsc/").unwrap(), SchemaKind::Avro);
    assert_eq!(schema_kind_for("a.proto//").unwrap(), SchemaKind::Protobuf);
    assert!(matches!(schema_kind_for(".."), Err(RegistrationError::MissingExtension)));
    assert!(matches!(schema_kind_for("dir/.."), Err(RegistrationError::MissingExtension)));
}
