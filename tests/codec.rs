use ktools::cli::CodecKind;
use ktools::codec::{DecodeError, Decoded, EncodeError, Encoded};
use ktools::config::{KToolsContext, SchemaRegistryConfig};
use ktools::envelope::{frame, unframe, EnvelopeError};
use ktools::registry::SchemaRegistryClient;

fn client() -> SchemaRegistryClient {
    let context = KToolsContext {
        kafka: None,
        schema_registry: Some(SchemaRegistryConfig {
            url: "http://localhost:8081".to_string(),
            basic_auth: None,
        }),
    };
    SchemaRegistryClient::configure(&context).ok().unwrap()
}

const ALL: [CodecKind; 4] = [CodecKind::Raw, CodecKind::Json, CodecKind::Avro, CodecKind::Proto];

#[test]
fn frame_puts_magic_byte_and_big_endian_id_first() {
    assert_eq!(frame(1, &[7, 8]), vec![0, 0, 0, 0, 1, 7, 8]);
    assert_eq!(frame(0x01020304, &[]), vec![0, 1, 2, 3, 4]);
    assert_eq!(frame(u32::MAX, &[9]), vec![0, 255, 255, 255, 255, 9]);
}

#[test]
fn unframe_gives_back_id_and_body() {
    let body = br#"{"a":1}"#;
    let f = unframe(&frame(258, body)).ok().unwrap();
    assert_eq!(f.schema_id, 258);
    assert_eq!(f.body, body.to_vec());
}

#[test]
fn unframe_rejects_malformed_envelopes() {
    assert_eq!(unframe(&[]).err(), Some(EnvelopeError::Empty));
    assert_eq!(unframe(&[0, 0, 1]).err(), Some(EnvelopeError::TooShort { len: 3 }));
    assert_eq!(unframe(&[1, 0, 0, 0, 1, 5]).err(), Some(EnvelopeError::BadMagic { found: 1 }));
    assert!(unframe(&[0, 0, 0, 0, 1]).is_ok());
}

#[test]
fn absent_payload_decodes_to_none_for_every_codec() {
    let client = client();
    for kind in ALL {
        assert!(matches!(client.decode(kind, None), Ok(Decoded::Done(None))));
    }
}

#[test]
fn raw_json_payload_decodes_to_json() {
    let client = client();
    match client.decode(CodecKind::Raw, Some(br#"{"a":1}"#)) {
        Ok(Decoded::Done(Some(v))) => assert_eq!(v, serde_json::from_str::<serde_json::Value>(r#"{"a":1}"#).unwrap()),
        _ => panic!("expected a JSON value"),
    }
}

#[test]
fn raw_payload_that_is_not_json_decodes_to_none() {
    let client = client();
    assert!(matches!(client.decode(CodecKind::Raw, Some(b"hello")), Ok(Decoded::Done(None))));
}

#[test]
fn enveloped_payload_names_its_schema() {
    let client = client();
    let bytes = frame(42, br#"{"a":1}"#);
    for kind in [CodecKind::Json, CodecKind::Avro, CodecKind::Proto] {
        match client.decode(kind, Some(&bytes)) {
            Ok(Decoded::Registry { codec, schema_id }) => {
                assert_eq!(codec, kind);
                assert_eq!(schema_id, 42);
            }
            _ => panic!("expected a registry step"),
        }
    }
}

#[test]
fn malformed_envelope_is_a_decode_error() {
    let client = client();
    assert!(matches!(
        client.decode(CodecKind::Avro, Some(br#"{"a":1}"#)),
        Err(DecodeError::Envelope(EnvelopeError::BadMagic { found: b'{' }))
    ));
    assert!(matches!(
        client.decode(CodecKind::Json, Some(&[0, 0])),
        Err(DecodeError::Envelope(EnvelopeError::TooShort { len: 2 }))
    ));
}

#[test]
fn raw_payload_encodes_unchanged() {
    let client = client();
    match client.encode(CodecKind::Raw, "t", b"\x01not json") {
        Ok(Encoded::Ready(bytes)) => assert_eq!(bytes, b"\x01not json".to_vec()),
        _ => panic!("expected bytes"),
    }
}

#[test]
fn json_and_avro_payloads_must_be_json() {
    let client = client();
    assert!(matches!(client.encode(CodecKind::Json, "t", b"{"), Err(EncodeError::InvalidJson)));
    assert!(matches!(client.encode(CodecKind::Avro, "t", b"nope"), Err(EncodeError::InvalidJson)));
}

#[test]
fn json_payload_goes_to_the_structured_encoder() {
    let client = client();
    match client.encode(CodecKind::Json, "orders", br#"{"a":1}"#) {
        Ok(Encoded::Structured { codec, topic, value }) => {
            assert_eq!(codec, CodecKind::Json);
            assert_eq!(topic, "orders");
            assert_eq!(value["a"], 1);
        }
        _ => panic!("expected a structured step"),
    }
}

#[test]
fn proto_payload_goes_to_the_raw_encoder() {
    let client = client();
    match client.encode(CodecKind::Proto, "orders", &[8, 1]) {
        Ok(Encoded::ProtoRaw { topic, bytes }) => {
            assert_eq!(topic, "orders");
            assert_eq!(bytes, vec![8, 1]);
        }
        _ => panic!("expected a raw protobuf step"),
    }
}

#[test]
fn json_envelope_round_trip_keeps_the_payload() {
    let payload = br#"{"name":"x","n":[1,2]}"#;
    let bytes = frame(7, payload);
    let f = unframe(&bytes).ok().unwrap();
    assert_eq!(f.schema_id, 7);
    assert_eq!(f.body, payload.to_vec());
    let client = client();
    assert!(matches!(
        client.decode(CodecKind::Json, Some(&bytes)),
        Ok(Decoded::Registry { codec: CodecKind::Json, schema_id: 7 })
    ));
}
