//! The message codec: what each wire format does with a payload before the
//! registry-backed encoder or decoder takes over.
//!
//! Raw payloads are handled here completely. For Json, Avro and Proto the
//! envelope is checked (decode) or the payload's shape is checked (encode),
//! and the step that needs the registry's schema is named in the result.

use vstd::prelude::*;
use serde_json::Value;
use crate::cli::CodecKind;
use crate::envelope::{framed, lemma_unframe_frame, unframe, unframed, EnvelopeError};
use crate::json::{is_json_bytes, parse_json_bytes};
use crate::registry::SchemaRegistryClient;

verus! {

/// Why a payload could not be decoded.
#[derive(Debug)]
pub enum DecodeError {
    /// The payload is not a registry envelope.
    Envelope(EnvelopeError),
}

/// Why a payload could not be encoded.
#[derive(Debug)]
pub enum EncodeError {
    /// The payload is not a JSON document, which Json and Avro encoding start from.
    InvalidJson,
}

/// The outcome of decoding, as far as it goes without the registry.
pub enum Decoded {
    /// The decoded value; none for an absent payload, or a raw payload that is not JSON.
    Done(Option<Value>),
    /// A well-formed envelope whose body the registry decoder for `codec` reads
    /// with schema `schema_id`.
    Registry { codec: CodecKind, schema_id: u32 },
}

/// The outcome of encoding, as far as it goes without the registry.
pub enum Encoded {
    /// The bytes to send.
    Ready(Vec<u8>),
    /// A JSON value for the Json or Avro encoder, under the topic's value subject.
    Structured { codec: CodecKind, topic: String, value: Value },
    /// Protobuf bytes for the raw Protobuf encoder, under the topic's value subject.
    ProtoRaw { topic: String, bytes: Vec<u8> },
}

/// What decoding `payload` with `codec` gives, as far as it goes without the registry.
pub open spec fn decodes_to(codec: CodecKind, payload: Option<&[u8]>, r: Result<Decoded, DecodeError>) -> bool {
    match payload {
        None => r matches Ok(Decoded::Done(None)),
        Some(b) => if codec is Raw {
            r matches Ok(Decoded::Done(v)) && (v is Some <==> is_json_bytes(b@))
        } else {
            match unframed(b@) {
                Ok((id, _)) => r matches Ok(Decoded::Registry { codec: c, schema_id }) && c
                    == codec && schema_id == id,
                Err(e) => r matches Err(DecodeError::Envelope(found)) && found == e,
            }
        },
    }
}

/// A payload enveloped under schema `id` decodes, for every codec that uses the
/// registry, to a registry step for that same schema id.
pub proof fn lemma_framed_payload_names_its_schema(
    codec: CodecKind,
    id: u32,
    body: Seq<u8>,
    payload: &[u8],
    r: Result<Decoded, DecodeError>,
)
    requires
        codec.uses_registry(),
        payload@ == framed(id, body),
        decodes_to(codec, Some(payload), r),
    ensures
        r matches Ok(Decoded::Registry { codec: c, schema_id }) && c == codec && schema_id == id,
{
    lemma_unframe_frame(id, body);
}

impl SchemaRegistryClient {
    /// Decodes a message payload. An absent payload decodes to none for every
    /// codec. A raw payload is shown as JSON when it is a JSON document and as
    /// none otherwise. Other codecs need a well-formed envelope, whose schema id
    /// is handed on to the registry decoder.
    pub fn decode(&self, codec: CodecKind, payload: Option<&[u8]>) -> (r: Result<Decoded, DecodeError>)
        ensures
            decodes_to(codec, payload, r),
    {
        let bytes = match payload {
            Some(bytes) => bytes,
            None => { return Ok(Decoded::Done(None)); },
        };
        match codec {
            CodecKind::Raw => Ok(Decoded::Done(parse_json_bytes(bytes))),
            _ => match unframe(bytes) {
                Ok(frame) => Ok(Decoded::Registry { codec, schema_id: frame.schema_id }),
                Err(e) => Err(DecodeError::Envelope(e)),
            },
        }
    }

    /// Encodes a message payload for `topic`. Raw payloads pass through
    /// unchanged; Json and Avro payloads must be JSON documents; Proto payloads
    /// go to the raw Protobuf encoder as they are.
    pub fn encode(&self, codec: CodecKind, topic: &str, payload: &[u8]) -> (r: Result<Encoded, EncodeError>)
        ensures
            codec is Raw ==> (r matches Ok(Encoded::Ready(b)) && b@ == payload@),
            codec is Proto ==> (r matches Ok(Encoded::ProtoRaw { topic: t, bytes })
                && t@ == topic@ && bytes@ == payload@),
            (codec is Json || codec is Avro) ==> if is_json_bytes(payload@) {
                r matches Ok(Encoded::Structured { codec: c, topic: t, value: _ })
                    && c == codec && t@ == topic@
            } else {
                r matches Err(EncodeError::InvalidJson)
            },
    {
        match codec {
            CodecKind::Raw => Ok(Encoded::Ready(vstd::slice::slice_to_vec(payload))),
            CodecKind::Proto => Ok(Encoded::ProtoRaw { topic: topic.to_owned(), bytes: vstd::slice::slice_to_vec(payload) }),
            _ => match parse_json_bytes(payload) {
                Some(value) => Ok(Encoded::Structured { codec, topic: topic.to_owned(), value }),
                None => Err(EncodeError::InvalidJson),
            },
        }
    }
}

} // verus!
