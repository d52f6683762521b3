//! Codec for the NDEF binary tag-data exchange format: typed, named payloads
//! framed as records and concatenated into a single message buffer.

pub mod error;
pub mod message;
pub mod payload;
pub mod record;
pub mod tnf;
