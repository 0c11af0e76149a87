//! Gateway library bridging a binary record framing protocol (as spoken by a
//! web server) to a line-oriented lighting-controller protocol, with an
//! in-memory device-state cache refreshed by a background poller.
//!
//! All protocol logic here is pure: records and commands are built and parsed
//! as byte vectors, and the stream readers are incremental state machines fed
//! with chunks.  Sockets, timers and JSON rendering live outside the library.

pub mod ascii;
pub mod dali_state;
pub mod fast_cgi;
pub mod handler;
pub mod helvar_client;
pub mod helvar_defs;
pub mod helvar_device_type;
pub mod helvar_error;
pub mod poller;
pub mod text;
pub mod wrapper_error;
