//! The binary record framing protocol: record types and codec, incremental
//! stream reassembly, record serialization, and request multiplexing.

pub mod decode;
pub mod decoder;
pub mod defs;
pub mod encode;
pub mod input_stream;
pub mod record_output;
pub mod request;
pub mod records;
