//! The commands and options that the tool accepts, as plain data.

use vstd::prelude::*;

verus! {

/// The wire format used to encode or decode a message payload.
#[derive(Debug, Clone, Copy, PartialEq, Eq, Structural)]
pub enum CodecKind {
    Proto,
    Avro,
    Json,
    Raw,
}

impl CodecKind {
    /// Whether payloads of this kind travel inside the registry wire envelope.
    pub open spec fn spec_uses_registry(self) -> bool {
        !(self is Raw)
    }

    /// Whether payloads of this kind travel inside the registry wire envelope.
    #[verifier::when_used_as_spec(spec_uses_registry)]
    pub fn uses_registry(self) -> (r: bool)
        ensures
            r == self.spec_uses_registry(),
    {
        match self {
            CodecKind::Raw => false,
            _ => true,
        }
    }
}

impl Default for CodecKind {
    fn default() -> (r: CodecKind)
        ensures
            r == CodecKind::Raw,
    {
        CodecKind::Raw
    }
}

/// Global options shared by every command.
pub struct Options {
    /// The configuration context to run the command against.
    pub context: Option<String>,
}

/// The parsed command line.
pub struct KToolsCliArgs {
    pub options: Options,
    pub command: Command,
}

/// The top-level commands.
pub enum Command {
    Config(ConfigCommand),
    Kafka(KafkaCommand),
    SchemaRegistry(SchemaRegistryCommand),
}

/// Commands on the configuration file.
pub enum ConfigCommand {
    Edit,
}

/// Commands on the schema registry.
pub enum SchemaRegistryCommand {
    /// Fetch a schema, the latest version when none is given.
    Download { subject: String, version: Option<u32>, output: Option<String> },
    /// Register the schema held in a file; its extension gives the schema type.
    Register { subject: String, schema: String },
    /// Compare a local schema file with a registered version.
    Diff { subject: String, version: Option<u32>, schema: String },
}

/// Commands on Kafka topics.
pub enum KafkaCommand {
    /// Read a topic and show each message decoded.
    Consume { topic: String, decode: CodecKind },
    /// Send one message, given inline or read from a file, to a topic.
    Produce {
        topic: String,
        message: Option<String>,
        encode: CodecKind,
        payload: Option<String>,
        key: Option<String>,
    },
}

} // verus!
