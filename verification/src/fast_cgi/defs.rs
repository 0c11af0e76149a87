//! Protocol constants for the record framing protocol.

use vstd::prelude::*;

verus! {

/// Listening socket file number
pub const FCGI_LISTENSOCK_FILENO: u32 = 0;

/// Number of bytes in a record header.  Future versions of the protocol
/// will not reduce this number.
pub const FCGI_HEADER_LEN: u16 = 8;

/// Value for the version component of a record header
pub const FCGI_VERSION_1: u8 = 1;

/// Values for the type component of a record header
pub const FCGI_BEGIN_REQUEST: u8 = 1;

pub const FCGI_ABORT_REQUEST: u8 = 2;

pub const FCGI_END_REQUEST: u8 = 3;

pub const FCGI_PARAMS: u8 = 4;

pub const FCGI_STDIN: u8 = 5;

pub const FCGI_STDOUT: u8 = 6;

pub const FCGI_STDERR: u8 = 7;

pub const FCGI_DATA: u8 = 8;

pub const FCGI_GET_VALUES: u8 = 9;

pub const FCGI_GET_VALUES_RESULT: u8 = 10;

pub const FCGI_UNKNOWN_TYPE: u8 = 11;

/// Value for the requestId component of a record header
pub const FCGI_NULL_REQUEST_ID: u16 = 0;

/// Mask for the flags component of a begin-request body
pub const FCGI_KEEP_CONN: u8 = 1;

/// Values for the role component of a begin-request body
pub const FCGI_RESPONDER: u16 = 1;

pub const FCGI_AUTHORIZER: u16 = 2;

pub const FCGI_FILTER: u16 = 3;

/// Values for the protocolStatus component of an end-request body
pub const FCGI_REQUEST_COMPLETE: u8 = 0;

pub const FCGI_CANT_MPX_CONN: u8 = 1;

pub const FCGI_OVERLOADED: u8 = 2;

pub const FCGI_UNKNOWN_ROLE: u8 = 3;

} // verus!
