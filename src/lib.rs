//! Schema-aware Kafka tooling: schema registry version resolution, the
//! registry wire envelope, the per-format message codec, the consume/produce
//! record plumbing and a line diff for comparing schema texts.

pub mod cli;
pub mod codec;
pub mod config;
pub mod diff;
pub mod envelope;
pub mod json;
pub mod pipeline;
pub mod registry;
pub mod text;
