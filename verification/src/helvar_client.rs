//! The line-protocol client logic for the remote controller: ASCII command
//! formatting, reply framing with resynchronization, correlation by echoed
//! command text, and error-code mapping.
//!
//! A command is `?V:<version>,C:<command>[,<key>:<value>]*,@<node>#`.  A
//! reply is a `?` (success) or `!` (error) line terminated by `#`; it is
//! accepted only if it echoes the command between the marker and the `=`
//! that introduces the payload.  The socket itself lives outside the
//! library: the caller writes the command bytes and feeds whatever it reads
//! into a [`ReplyMatcher`].

use vstd::prelude::*;
use vstd::slice::{slice_subrange, slice_to_vec};
use crate::ascii::{
    all_digits_bytes,
    dec_digits,
    dec_val_bytes,
    parse_u32_bytes,
    push_dec_u32,
    strip_plus_bytes,
};
use crate::helvar_defs;
use crate::helvar_error::{spec_from_code, HelvarError};

verus! {

// ASCII codes used by the wire protocol.
pub const B_QUERY: u8 = 63;

pub const B_ERROR: u8 = 33;

pub const B_HASH: u8 = 35;

pub const B_EQUALS: u8 = 61;

pub const B_AT: u8 = 64;

pub const B_DOT: u8 = 46;

pub const B_COMMA: u8 = 44;

pub const B_COLON: u8 = 58;

pub const B_UPPER_V: u8 = 86;

pub const B_UPPER_C: u8 = 67;

pub const B_UPPER_L: u8 = 76;

pub const B_UPPER_F: u8 = 70;


/// The `@a.b.c.d.subnet.device` token naming a remote node.
pub open spec fn device_arg_bytes(addr: Seq<u8>, subnet: u8, dev: u8) -> Seq<u8> {
    seq![B_AT] + dec_digits(addr[0] as int) + seq![B_DOT] + dec_digits(addr[1] as int) + seq![B_DOT]
        + dec_digits(addr[2] as int) + seq![B_DOT] + dec_digits(addr[3] as int) + seq![B_DOT]
        + dec_digits(subnet as int) + seq![B_DOT] + dec_digits(dev as int)
}

/// A query command: `?V:<version>,C:<command>,@<node>#`.
pub open spec fn query_cmd_bytes(
    version: u32,
    command: u32,
    addr: Seq<u8>,
    subnet: u8,
    dev: u8,
) -> Seq<u8> {
    seq![B_QUERY, B_UPPER_V, B_COLON] + dec_digits(version as int) + seq![B_COMMA, B_UPPER_C, B_COLON] + dec_digits(
        command as int,
    ) + seq![B_COMMA] + device_arg_bytes(addr, subnet, dev) + seq![B_HASH]
}

/// A set-level command: `?V:<version>,C:<command>,L:<level>,F:<fade>,@<node>#`.
pub open spec fn level_cmd_bytes(
    version: u32,
    command: u32,
    level: u32,
    fade: u32,
    addr: Seq<u8>,
    subnet: u8,
    dev: u8,
) -> Seq<u8> {
    seq![B_QUERY, B_UPPER_V, B_COLON] + dec_digits(version as int) + seq![B_COMMA, B_UPPER_C, B_COLON] + dec_digits(
        command as int,
    ) + seq![B_COMMA, B_UPPER_L, B_COLON] + dec_digits(level as int) + seq![B_COMMA, B_UPPER_F, B_COLON] + dec_digits(
        fade as int,
    ) + seq![B_COMMA] + device_arg_bytes(addr, subnet, dev) + seq![B_HASH]
}

/// The protocol side of the controller connection: the controller's IPv4
/// address (used in node tokens) and the protocol version to announce.
pub struct Router {
    pub addr: [u8; 4],
    pub helvarnet_version: u32,
}

impl Router {
    /// A client for the controller at `addr`, announcing protocol version 3.
    pub fn new(addr: [u8; 4]) -> (r: Router)
        ensures
            r.addr@ == addr@,
            r.helvarnet_version == 3,
    {
        Router { addr, helvarnet_version: 3 }
    }

    /// The `@a.b.c.d.subnet.device` token for a device of this controller.
    pub fn device_arg(&self, subnet: u8, dev: u8) -> (a: Vec<u8>)
        ensures
            a@ == device_arg_bytes(self.addr@, subnet, dev),
    {
        let mut a: Vec<u8> = Vec::new();
        a.push(B_AT);
        push_dec_u32(&mut a, self.addr[0] as u32);
        a.push(B_DOT);
        push_dec_u32(&mut a, self.addr[1] as u32);
        a.push(B_DOT);
        push_dec_u32(&mut a, self.addr[2] as u32);
        a.push(B_DOT);
        push_dec_u32(&mut a, self.addr[3] as u32);
        a.push(B_DOT);
        push_dec_u32(&mut a, subnet as u32);
        a.push(B_DOT);
        push_dec_u32(&mut a, dev as u32);
        assert(a@ =~= device_arg_bytes(self.addr@, subnet, dev));
        a
    }

    /// The bytes of a query command with the given command identifier.
    pub fn query_cmd(&self, command: u32, subnet: u8, dev: u8) -> (c: Vec<u8>)
        ensures
            c@ == query_cmd_bytes(self.helvarnet_version, command, self.addr@, subnet, dev),
            c@.len() >= 2,
            c@[0] == B_QUERY,
            c@[c@.len() - 1] == B_HASH,
    {
        let mut c: Vec<u8> = Vec::new();
        c.push(B_QUERY);
        c.push(B_UPPER_V);
        c.push(B_COLON);
        push_dec_u32(&mut c, self.helvarnet_version);
        c.push(B_COMMA);
        c.push(B_UPPER_C);
        c.push(B_COLON);
        push_dec_u32(&mut c, command);
        c.push(B_COMMA);
        let mut arg = self.device_arg(subnet, dev);
        c.append(&mut arg);
        c.push(B_HASH);
        assert(c@ =~= query_cmd_bytes(self.helvarnet_version, command, self.addr@, subnet, dev));
        c
    }

    /// The command asking for a device's type code.
    pub fn query_device_type_cmd(&self, subnet: u8, dev: u8) -> (c: Vec<u8>)
        ensures
            c@ == query_cmd_bytes(
                self.helvarnet_version,
                helvar_defs::CMD_QUERY_DEVICE_TYPE as u32,
                self.addr@,
                subnet,
                dev,
            ),
            c@.len() >= 2,
    {
        self.query_cmd(helvar_defs::CMD_QUERY_DEVICE_TYPE, subnet, dev)
    }

    /// The command asking for a device's description text.
    pub fn query_device_description_cmd(&self, subnet: u8, dev: u8) -> (c: Vec<u8>)
        ensures
            c@ == query_cmd_bytes(
                self.helvarnet_version,
                helvar_defs::CMD_QUERY_DESCRIPTION_DEVICE as u32,
                self.addr@,
                subnet,
                dev,
            ),
            c@.len() >= 2,
    {
        self.query_cmd(helvar_defs::CMD_QUERY_DESCRIPTION_DEVICE, subnet, dev)
    }

    /// The command asking for a load's current level.
    pub fn query_load_level_cmd(&self, subnet: u8, dev: u8) -> (c: Vec<u8>)
        ensures
            c@ == query_cmd_bytes(
                self.helvarnet_version,
                helvar_defs::CMD_QUERY_LOAD_LEVEL as u32,
                self.addr@,
                subnet,
                dev,
            ),
            c@.len() >= 2,
    {
        self.query_cmd(helvar_defs::CMD_QUERY_LOAD_LEVEL, subnet, dev)
    }

    /// The fire-and-forget command setting a device's level directly.
    pub fn set_direct_level_device_cmd(&self, subnet: u8, dev: u8, level: u32, fade: u32) -> (c:
        Vec<u8>)
        ensures
            c@ == level_cmd_bytes(
                self.helvarnet_version,
                helvar_defs::CMD_DIRECT_LEVEL_DEVICE as u32,
                level,
                fade,
                self.addr@,
                subnet,
                dev,
            ),
    {
        let mut c: Vec<u8> = Vec::new();
        c.push(B_QUERY);
        c.push(B_UPPER_V);
        c.push(B_COLON);
        push_dec_u32(&mut c, self.helvarnet_version);
        c.push(B_COMMA);
        c.push(B_UPPER_C);
        c.push(B_COLON);
        push_dec_u32(&mut c, helvar_defs::CMD_DIRECT_LEVEL_DEVICE);
        c.push(B_COMMA);
        c.push(B_UPPER_L);
        c.push(B_COLON);
        push_dec_u32(&mut c, level);
        c.push(B_COMMA);
        c.push(B_UPPER_F);
        c.push(B_COLON);
        push_dec_u32(&mut c, fade);
        c.push(B_COMMA);
        let mut arg = self.device_arg(subnet, dev);
        c.append(&mut arg);
        c.push(B_HASH);
        assert(c@ =~= level_cmd_bytes(
            self.helvarnet_version,
            helvar_defs::CMD_DIRECT_LEVEL_DEVICE as u32,
            level,
            fade,
            self.addr@,
            subnet,
            dev,
        ));
        c
    }
}

/// A matched reply: the payload of a success (`?`) or error (`!`) line.
pub ghost enum SpecReply {
    Success(Seq<u8>),
    Failure(Seq<u8>),
}

/// The reply a completed line carries, if the line echoes the command
/// between its marker and the `=` introducing the payload.
pub open spec fn line_reply(cmd: Seq<u8>, line: Seq<u8>) -> Option<SpecReply> {
    let cmd_end = cmd.len() - 1;
    if cmd_end < line.len() && 1 <= cmd_end && line.subrange(1, cmd_end) == cmd.subrange(1, cmd_end)
        && line[cmd_end] == B_EQUALS {
        let payload = line.subrange(cmd_end + 1, line.len() - 1);
        if line[0] == B_QUERY {
            Some(SpecReply::Success(payload))
        } else if line[0] == B_ERROR {
            Some(SpecReply::Failure(payload))
        } else {
            None
        }
    } else {
        None
    }
}

/// One byte of reply scanning: outside a line, bytes before a `?`/`!`
/// marker are discarded; inside a line, bytes accumulate until `#` completes
/// it, at which point a matching line yields its reply and any other line is
/// discarded.
pub open spec fn scan_step(cmd: Seq<u8>, line: Seq<u8>, b: u8) -> (Seq<u8>, Option<SpecReply>) {
    if line.len() == 0 && b != B_QUERY && b != B_ERROR {
        (line, None)
    } else {
        let line2 = line.push(b);
        if b == B_HASH {
            (Seq::<u8>::empty(), line_reply(cmd, line2))
        } else {
            (line2, None)
        }
    }
}

/// Reply scanning over a byte sequence, stopping at the first reply.
pub open spec fn scan_reply(cmd: Seq<u8>, line: Seq<u8>, bytes: Seq<u8>) -> (
    Seq<u8>,
    Option<SpecReply>,
)
    decreases bytes.len(),
{
    if bytes.len() == 0 {
        (line, None)
    } else {
        let step = scan_step(cmd, line, bytes[0]);
        if step.1 is Some {
            step
        } else {
            scan_reply(cmd, step.0, bytes.drop_first())
        }
    }
}

/// Resynchronization: with no line in progress, bytes holding no `?`/`!`
/// marker are ignored, wherever the chunk boundaries fall.
pub proof fn lemma_noise_before_marker_ignored(cmd: Seq<u8>, noise: Seq<u8>, rest: Seq<u8>)
    requires
        forall|i: int| 0 <= i < noise.len() ==> noise[i] != B_QUERY && noise[i] != B_ERROR,
    ensures
        scan_reply(cmd, Seq::<u8>::empty(), noise + rest) == scan_reply(
            cmd,
            Seq::<u8>::empty(),
            rest,
        ),
    decreases noise.len(),
{
    if noise.len() == 0 {
        assert(noise + rest =~= rest);
    } else {
        let whole = noise + rest;
        assert(whole[0] == noise[0]);
        assert(whole.drop_first() =~= noise.drop_first() + rest);
        lemma_noise_before_marker_ignored(cmd, noise.drop_first(), rest);
    }
}

/// What feeding a chunk produced.
pub enum ReplyEvent {
    /// No matching reply yet; feed more bytes.
    Pending,
    /// A matching success line arrived; here is its payload.
    Success(Vec<u8>),
    /// A matching error line arrived; here is its payload.
    Failure(Vec<u8>),
}

/// Incremental scanner correlating controller reply lines with the command
/// that was sent.
pub struct ReplyMatcher {
    /// The command whose echo is awaited, marker and final `#` included.
    pub cmd: Vec<u8>,
    /// The line being accumulated, from its marker.
    pub line: Vec<u8>,
}

impl ReplyMatcher {
    /// The command has at least its marker and terminator.
    pub open spec fn wf(self) -> bool {
        self.cmd@.len() >= 2
    }

    /// A matcher for the reply to `cmd`.
    pub fn new(cmd: Vec<u8>) -> (m: ReplyMatcher)
        requires
            cmd@.len() >= 2,
        ensures
            m.wf(),
            m.cmd@ == cmd@,
            m.line@ == Seq::<u8>::empty(),
    {
        ReplyMatcher { cmd, line: Vec::new() }
    }

    /// Feeds bytes read from the connection.  Returns the first reply the
    /// bytes complete, or pending; bytes after a reply are discarded, as the
    /// exchange is over.
    pub fn feed(&mut self, chunk: &[u8]) -> (r: ReplyEvent)
        requires
            old(self).wf(),
        ensures
            final(self).wf(),
            final(self).cmd@ == old(self).cmd@,
            ({
                let s = scan_reply(old(self).cmd@, old(self).line@, chunk@);
                match r {
                    ReplyEvent::Pending => s.1 is None && final(self).line@ == s.0,
                    ReplyEvent::Success(p) => s.1 == Some(SpecReply::Success(p@))
                        && final(self).line@ == Seq::<u8>::empty(),
                    ReplyEvent::Failure(p) => s.1 == Some(SpecReply::Failure(p@))
                        && final(self).line@ == Seq::<u8>::empty(),
                }
            }),
    {
        let ghost cmd0 = self.cmd@;
        let ghost line0 = self.line@;
        proof {
            assert(chunk@.skip(0) =~= chunk@);
        }
        let mut i: usize = 0;
        while i < chunk.len()
            invariant
                i <= chunk@.len(),
                self.cmd@ == cmd0,
                cmd0 == old(self).cmd@,
                line0 == old(self).line@,
                self.wf(),
                scan_reply(cmd0, line0, chunk@) == scan_reply(
                    cmd0,
                    self.line@,
                    chunk@.skip(i as int),
                ),
            decreases chunk@.len() - i,
        {
            let b = chunk[i];
            let ghost line_prev = self.line@;
            proof {
                assert(chunk@.skip(i as int)[0] == b);
                assert(chunk@.skip(i as int).drop_first() =~= chunk@.skip(i + 1));
            }
            if self.line.len() == 0 && b != B_QUERY && b != B_ERROR {
                // noise before a marker: drop it
            } else {
                self.line.push(b);
                if b == B_HASH {
                    let cmd_end = self.cmd.len() - 1;
                    let line_len = self.line.len();
                    let matched: bool = if cmd_end < line_len {
                        let mut eq = true;
                        let mut j: usize = 1;
                        while j < cmd_end
                            invariant
                                1 <= j <= cmd_end,
                                cmd_end < self.line@.len(),
                                cmd_end == self.cmd@.len() - 1,
                                eq <==> forall|k: int| 1 <= k < j ==> self.line@[k] == self.cmd@[k],
                            decreases cmd_end - j,
                        {
                            if self.line[j] != self.cmd[j] {
                                eq = false;
                            }
                            j = j + 1;
                        }
                        proof {
                            if eq {
                                assert(self.line@.subrange(1, cmd_end as int) =~= self.cmd@.subrange(
                                    1,
                                    cmd_end as int,
                                ));
                            } else {
                                let k = choose|k: int|
                                    1 <= k < cmd_end && self.line@[k] != self.cmd@[k];
                                assert(self.line@.subrange(1, cmd_end as int)[k - 1]
                                    != self.cmd@.subrange(1, cmd_end as int)[k - 1]);
                                assert(self.line@.subrange(1, cmd_end as int) != self.cmd@.subrange(
                                    1,
                                    cmd_end as int,
                                ));
                            }
                        }
                        eq && self.line[cmd_end] == B_EQUALS
                    } else {
                        false
                    };
                    if matched {
                        let marker = self.line[0];
                        let payload = slice_to_vec(
                            slice_subrange(self.line.as_slice(), cmd_end + 1, line_len - 1),
                        );
                        proof {
                            assert(payload@ =~= self.line@.subrange(
                                cmd_end + 1,
                                self.line@.len() - 1,
                            ));
                        }
                        if marker == B_QUERY {
                            proof {
                                assert(line_reply(cmd0, self.line@) == Some(
                                    SpecReply::Success(payload@),
                                ));
                                assert(scan_step(cmd0, line_prev, b).1 == Some(
                                    SpecReply::Success(payload@),
                                ));
                            }
                            self.line = Vec::new();
                            return ReplyEvent::Success(payload);
                        } else if marker == B_ERROR {
                            proof {
                                assert(line_reply(cmd0, self.line@) == Some(
                                    SpecReply::Failure(payload@),
                                ));
                                assert(scan_step(cmd0, line_prev, b).1 == Some(
                                    SpecReply::Failure(payload@),
                                ));
                            }
                            self.line = Vec::new();
                            return ReplyEvent::Failure(payload);
                        } else {
                            proof {
                                assert(line_reply(cmd0, self.line@) is None);
                            }
                            self.line = Vec::new();
                        }
                    } else {
                        proof {
                            assert(line_reply(cmd0, self.line@) is None);
                        }
                        self.line = Vec::new();
                    }
                }
            }
            i = i + 1;
        }
        proof {
            assert(chunk@.skip(chunk@.len() as int) =~= Seq::<u8>::empty());
        }
        ReplyEvent::Pending
    }
}

/// The controller error an error reply's payload denotes: its numeric code
/// mapped through the error table, or a wrapped parse failure for a payload
/// that is not a number.
pub fn error_from_reply(payload: &[u8]) -> (e: HelvarError)
    ensures
        ({
            let d = strip_plus_bytes(payload@);
            &&& (d.len() > 0 && all_digits_bytes(d) && dec_val_bytes(d) <= u32::MAX ==> e
                == spec_from_code(dec_val_bytes(d) as u32))
            &&& (!(d.len() > 0 && all_digits_bytes(d) && dec_val_bytes(d) <= u32::MAX) ==> (e
                matches HelvarError::Other(m) && m@ == "Failed to parse error code"@))
        }),
{
    match parse_u32_bytes(payload) {
        Some(code) => HelvarError::from_code(code),
        None => HelvarError::from_error(String::from_str("Failed to parse error code")),
    }
}

/// The number a success reply's payload denotes, for queries whose reply is
/// numeric; a payload that is not a number is a wrapped parse failure.
pub fn parse_u32_reply(payload: &[u8]) -> (r: Result<u32, HelvarError>)
    ensures
        ({
            let d = strip_plus_bytes(payload@);
            &&& (r is Ok <==> d.len() > 0 && all_digits_bytes(d) && dec_val_bytes(d) <= u32::MAX)
            &&& (r matches Ok(v) ==> v == dec_val_bytes(d))
            &&& (r matches Err(e) ==> e matches HelvarError::Other(m) && m@
                == "Failed to parse reply"@)
        }),
{
    match parse_u32_bytes(payload) {
        Some(v) => Ok(v),
        None => Err(HelvarError::from_error(String::from_str("Failed to parse reply"))),
    }
}

} // verus!
