//! Request assembly: multiplexes decoded records by request id, builds up
//! each request's parameters and body, and says when a request is complete
//! and which reply records must be written.
//!
//! The caller (the connection loop) feeds records in, writes out the reply
//! records this module hands back, runs the request handler on every
//! completed request, and writes the handler's reply built by
//! [`success_records`] or [`error_records`].

use vstd::prelude::*;
use std::collections::HashMap;
use super::defs;
use super::records::{
    end_request_content,
    params_pairs,
    params_wf,
    unknown_type_content,
    AppRecord,
    EndRequest,
    Error,
    NameValuePair,
    PairView,
    Record,
    RecordView,
    ServerRecord,
};
use super::request::{Request, RequestView};

verus! {

/// The record a reply consists of: fixed version, given type, id and content.
pub open spec fn reply_record(id: u16, t: u8, content: Seq<u8>) -> RecordView {
    RecordView { version: defs::FCGI_VERSION_1, rec_type: t, request_id: id, content }
}

/// The parameter mapping after binding each pair of `ps` in order (later
/// pairs win).
pub open spec fn merge_pairs(m: Map<Seq<char>, Seq<char>>, ps: Seq<PairView>) -> Map<
    Seq<char>,
    Seq<char>,
>
    decreases ps.len(),
{
    if ps.len() == 0 {
        m
    } else {
        merge_pairs(m, ps.drop_last()).insert(ps.last().name, ps.last().value)
    }
}

/// The body length a request's parameters announce: the value of a
/// `CONTENT_LENGTH` parameter that parses as a positive integer, and 0
/// otherwise (absent, malformed, zero, or out of range).
pub open spec fn spec_content_length(params: Map<Seq<char>, Seq<char>>) -> int {
    let key = "CONTENT_LENGTH"@;
    if params.contains_key(key) {
        let d = crate::ascii::strip_plus_chars(params[key]);
        if d.len() > 0 && crate::ascii::all_digits_chars(d) && crate::ascii::dec_val_chars(d)
            <= usize::MAX {
            crate::ascii::dec_val_chars(d)
        } else {
            0
        }
    } else {
        0
    }
}

/// Whether a record's content cannot be decoded for its type.
pub open spec fn record_malformed(r: RecordView) -> bool {
    ||| (r.rec_type == defs::FCGI_BEGIN_REQUEST && r.content.len() < 3)
    ||| (r.rec_type == defs::FCGI_PARAMS && !params_wf(r.content))
    ||| (r.rec_type == defs::FCGI_GET_VALUES && !params_wf(r.content))
    ||| !(r.rec_type == defs::FCGI_BEGIN_REQUEST || r.rec_type == defs::FCGI_ABORT_REQUEST
        || r.rec_type == defs::FCGI_PARAMS || r.rec_type == defs::FCGI_STDIN || r.rec_type
        == defs::FCGI_DATA || r.rec_type == defs::FCGI_GET_VALUES)
}

/// What processing one record asks the caller to do.
pub enum ProcessOutcome {
    /// Per-request state may have changed; nothing else to do.
    Continue,
    /// The record was dropped as undecodable; the connection goes on.
    Malformed(Error),
    /// Write this record back to the peer.
    Reply(Record),
    /// This request is complete: run the handler, then reply.
    Complete(Request),
}

/// Multiplexes incoming records into per-request state by request id.
pub struct Decoder {
    /// The in-flight requests, by request id.
    pub requests: HashMap<u16, Request>,
}

/// All maps other than the binding of `id` agree between `m1` and `m2`.
pub open spec fn same_except(m1: Map<u16, Request>, m2: Map<u16, Request>, id: u16) -> bool {
    forall|k: u16|
        k != id ==> ((m1.contains_key(k) <==> m2.contains_key(k)) && (m1.contains_key(k)
            ==> m1[k] == #[trigger] m2[k]))
}

impl Decoder {
    /// Every stored request has unique parameter names.
    pub open spec fn wf(self) -> bool {
        forall|k: u16|
            self.requests@.contains_key(k) ==> (#[trigger] self.requests@[k]).wf()
    }

    /// A fresh decoder with no requests in flight.
    pub fn new() -> (d: Decoder)
        ensures
            d.wf(),
            d.requests@ == Map::<u16, Request>::empty(),
    {
        Decoder { requests: HashMap::new() }
    }

    /// Processes one incoming record.
    ///
    /// Out-of-band records (id 0) and unknown-but-decodable types draw an
    /// unknown-type reply; abort-request discards the request and draws an
    /// end-request reply; begin-request, params and stdin update per-request
    /// state, and the two latter can complete the request, which is then
    /// removed and handed back.
    pub fn process_record(&mut self, rec: &Record) -> (out: ProcessOutcome)
        requires
            old(self).wf(),
        ensures
            final(self).wf(),
            ({
                let id = rec.request_id;
                let m = old(self).requests@;
                let m2 = final(self).requests@;
                &&& (id == 0 ==> m2 == m && (out matches ProcessOutcome::Reply(r) && r@
                    == reply_record(0, defs::FCGI_UNKNOWN_TYPE, unknown_type_content(
                    rec.rec_type,
                ))))
                &&& (id != 0 && record_malformed(rec@) ==> m2 == m && out
                    is Malformed)
                &&& (id != 0 && rec.rec_type == defs::FCGI_BEGIN_REQUEST
                    && rec.content_data@.len() >= 3 ==> out is Continue && same_except(m, m2, id)
                    && m2.contains_key(id) && m2[id]@ == (RequestView {
                    params: Map::<Seq<char>, Seq<char>>::empty(),
                    stdin: None,
                    input_left: 0,
                    request_done: false,
                }))
                &&& (id != 0 && rec.rec_type == defs::FCGI_ABORT_REQUEST ==> m2 == m.remove(id)
                    && (out matches ProcessOutcome::Reply(r) && r@ == reply_record(
                    id,
                    defs::FCGI_END_REQUEST,
                    end_request_content(
                        EndRequest { app_status: 0, protocol_status: defs::FCGI_REQUEST_COMPLETE },
                    ),
                )))
                &&& (id != 0 && (rec.rec_type == defs::FCGI_PARAMS || rec.rec_type
                    == defs::FCGI_STDIN) && !record_malformed(rec@) && !m.contains_key(id) ==> m2
                    == m && out is Continue)
                &&& (id != 0 && rec.rec_type == defs::FCGI_PARAMS && params_wf(rec.content_data@)
                    && params_pairs(rec.content_data@).len() > 0 && m.contains_key(id) ==> out
                    is Continue && same_except(m, m2, id) && m2.contains_key(id) && m2[id]@ == (
                RequestView {
                    params: merge_pairs(m[id]@.params, params_pairs(rec.content_data@)),
                    stdin: m[id]@.stdin,
                    input_left: m[id]@.input_left,
                    request_done: m[id]@.request_done,
                }))
                &&& (id != 0 && rec.rec_type == defs::FCGI_PARAMS && params_wf(rec.content_data@)
                    && params_pairs(rec.content_data@).len() == 0 && m.contains_key(id) ==> ({
                    let cl = spec_content_length(m[id]@.params);
                    &&& (cl > 0 ==> out is Continue && same_except(m, m2, id) && m2.contains_key(
                        id,
                    ) && m2[id]@ == (RequestView {
                        params: m[id]@.params,
                        stdin: Some(Seq::<u8>::empty()),
                        input_left: cl,
                        request_done: m[id]@.request_done,
                    }))
                    &&& (cl == 0 ==> m2 == m.remove(id) && (out matches ProcessOutcome::Complete(
                        q,
                    ) && q@ == (RequestView {
                        params: m[id]@.params,
                        stdin: m[id]@.stdin,
                        input_left: m[id]@.input_left,
                        request_done: true,
                    })))
                }))
                &&& (id != 0 && rec.rec_type == defs::FCGI_STDIN && m.contains_key(id) ==> ({
                    let data = rec.content_data@;
                    let appended = match m[id]@.stdin {
                        Some(b) => Some(b + data),
                        None => None,
                    };
                    &&& (data.len() > 0 && m[id]@.input_left > data.len() ==> out is Continue
                        && same_except(m, m2, id) && m2.contains_key(id) && m2[id]@ == (
                    RequestView {
                        params: m[id]@.params,
                        stdin: appended,
                        input_left: m[id]@.input_left - data.len(),
                        request_done: m[id]@.request_done,
                    }))
                    &&& (data.len() > 0 && m[id]@.input_left <= data.len() ==> m2 == m.remove(id)
                        && (out matches ProcessOutcome::Complete(q) && q@ == (RequestView {
                        params: m[id]@.params,
                        stdin: appended,
                        input_left: 0,
                        request_done: true,
                    })))
                    &&& (data.len() == 0 ==> m2 == m.remove(id) && (out
                        matches ProcessOutcome::Complete(q) && q@ == (RequestView {
                        params: m[id]@.params,
                        stdin: m[id]@.stdin,
                        input_left: m[id]@.input_left,
                        request_done: true,
                    })))
                }))
                &&& (id != 0 && (rec.rec_type == defs::FCGI_DATA || (rec.rec_type
                    == defs::FCGI_GET_VALUES && params_wf(rec.content_data@))) ==> m2 == m && (
                out matches ProcessOutcome::Reply(r) && r@ == reply_record(
                    id,
                    defs::FCGI_UNKNOWN_TYPE,
                    unknown_type_content(rec.rec_type),
                )))
            }),
    {
        let id = rec.request_id;
        if id == 0 {
            let unknown = AppRecord::UnknownType(rec.rec_type);
            let out = match unknown.encode(id) {
                Ok(r) => r,
                Err(_) => vstd::pervasive::unreached(),
            };
            return ProcessOutcome::Reply(out);
        }
        match ServerRecord::decode(rec) {
            Err(e) => ProcessOutcome::Malformed(e),
            Ok(ServerRecord::BeginRequest(_begin)) => {
                let fresh = Request::new();
                self.requests.insert(id, fresh);
                ProcessOutcome::Continue
            },
            Ok(ServerRecord::Params(pairs)) => {
                match self.requests.remove(&id) {
                    None => ProcessOutcome::Continue,
                    Some(mut req) => {
                        proof {
                            assert(old(self).requests@.contains_key(id));
                            assert(req.wf());
                        }
                        if pairs.len() == 0 {
                            let content_length = Self::body_length(&req);
                            if content_length > 0 {
                                req.input_left = content_length;
                                req.stdin = Some(Vec::new());
                                self.requests.insert(id, req);
                                ProcessOutcome::Continue
                            } else {
                                req.request_done = true;
                                ProcessOutcome::Complete(req)
                            }
                        } else {
                            let ghost views = pairs@.map_values(|p: NameValuePair| p@);
                            let ghost m0 = req@.params;
                            let mut i: usize = 0;
                            while i < pairs.len()
                                invariant
                                    i <= pairs@.len(),
                                    views == pairs@.map_values(|p: NameValuePair| p@),
                                    req.wf(),
                                    req@.params == merge_pairs(m0, views.take(i as int)),
                                    req@.stdin == old(self).requests@[id]@.stdin,
                                    req@.input_left == old(self).requests@[id]@.input_left,
                                    req@.request_done == old(self).requests@[id]@.request_done,
                                decreases pairs@.len() - i,
                            {
                                let name = pairs[i].name.clone();
                                let value = pairs[i].value.clone();
                                proof {
                                    assert(views.take(i + 1).drop_last() =~= views.take(i as int));
                                    assert(views.take(i + 1).last() == views[i as int]);
                                    assert(pairs@[i as int]@ == views[i as int]);
                                }
                                req.set_param(name, value);
                                i = i + 1;
                            }
                            proof {
                                assert(views.take(views.len() as int) =~= views);
                            }
                            self.requests.insert(id, req);
                            ProcessOutcome::Continue
                        }
                    },
                }
            },
            Ok(ServerRecord::StdIn(data)) => {
                match self.requests.remove(&id) {
                    None => ProcessOutcome::Continue,
                    Some(mut req) => {
                        proof {
                            assert(old(self).requests@.contains_key(id));
                            assert(req.wf());
                        }
                        let len = data.len();
                        if len > 0 {
                            match &mut req.stdin {
                                Some(body) => {
                                    let mut copy = vstd::slice::slice_to_vec(data.as_slice());
                                    body.append(&mut copy);
                                },
                                None => {},
                            }
                            if req.input_left > len {
                                req.input_left = req.input_left - len;
                                self.requests.insert(id, req);
                                ProcessOutcome::Continue
                            } else {
                                req.input_left = 0;
                                req.request_done = true;
                                ProcessOutcome::Complete(req)
                            }
                        } else {
                            req.request_done = true;
                            ProcessOutcome::Complete(req)
                        }
                    },
                }
            },
            Ok(ServerRecord::Abort) => {
                self.requests.remove(&id);
                let reply = AppRecord::EndRequest(
                    EndRequest { app_status: 0, protocol_status: defs::FCGI_REQUEST_COMPLETE },
                );
                let out = match reply.encode(id) {
                    Ok(r) => r,
                    Err(_) => vstd::pervasive::unreached(),
                };
                ProcessOutcome::Reply(out)
            },
            Ok(_) => {
                let unknown = AppRecord::UnknownType(rec.rec_type);
                let out = match unknown.encode(id) {
                    Ok(r) => r,
                    Err(_) => vstd::pervasive::unreached(),
                };
                ProcessOutcome::Reply(out)
            },
        }
    }

    /// The body length the request's parameters announce, per
    /// [`spec_content_length`].
    fn body_length(req: &Request) -> (r: usize)
        requires
            req.wf(),
        ensures
            r == spec_content_length(req@.params),
    {
        let key: String = String::from_str("CONTENT_LENGTH");
        match req.get_param(&key) {
            None => 0,
            Some(s) => {
                let sl = s.as_str();
                let n = sl.unicode_len();
                match crate::ascii::parse_uint_str(sl, 0, n, usize::MAX as u64) {
                    Some(v) => {
                        proof {
                            assert(s@.subrange(0, s@.len() as int) =~= s@);
                        }
                        v as usize
                    },
                    None => {
                        proof {
                            assert(s@.subrange(0, s@.len() as int) =~= s@);
                        }
                        0
                    },
                }
            },
        }
    }
}

/// Aborting a request id that is not in flight changes no per-request
/// state: processing the abort record leaves the request table as it was,
/// and its only effect is the end-request reply for that id.
pub proof fn lemma_abort_unknown_id_no_op(m: Map<u16, Request>, id: u16)
    requires
        !m.contains_key(id),
    ensures
        m.remove(id) == m,
{
    assert(m.remove(id) =~= m);
}

/// The records answering a successfully handled request: one stdout record
/// carrying the handler's reply, then end-request (request complete).
pub fn success_records(request_id: u16, body: Vec<u8>) -> (out: Vec<Record>)
    ensures
        out@.len() == 2,
        out@[0]@ == reply_record(request_id, defs::FCGI_STDOUT, body@),
        out@[1]@ == reply_record(
            request_id,
            defs::FCGI_END_REQUEST,
            end_request_content(
                EndRequest { app_status: 0, protocol_status: defs::FCGI_REQUEST_COMPLETE },
            ),
        ),
{
    let stdout = AppRecord::StdOut(body);
    let r1 = match stdout.encode(request_id) {
        Ok(r) => r,
        Err(_) => vstd::pervasive::unreached(),
    };
    let end = AppRecord::EndRequest(
        EndRequest { app_status: 0, protocol_status: defs::FCGI_REQUEST_COMPLETE },
    );
    let r2 = match end.encode(request_id) {
        Ok(r) => r,
        Err(_) => vstd::pervasive::unreached(),
    };
    let mut out: Vec<Record> = Vec::new();
    out.push(r1);
    out.push(r2);
    out
}

/// The records answering a failed request: a stdout record with a fixed
/// internal-error status block, a stderr record describing the failure
/// (out of band, id 0), then end-request (request complete).
pub fn error_records(request_id: u16, err_msg: &str) -> (out: Vec<Record>)
    ensures
        out@.len() == 3,
        out@[0]@ == reply_record(
            request_id,
            defs::FCGI_STDOUT,
            "Status: 500 Internal error\r\n\r\n"@.map_values(|c: char| c as u8),
        ),
        out@[1]@ == reply_record(
            0,
            defs::FCGI_STDERR,
            "App failed with error: "@.map_values(|c: char| c as u8) + err_msg@.map_values(
                |c: char| c as u8,
            ),
        ),
        out@[2]@ == reply_record(
            request_id,
            defs::FCGI_END_REQUEST,
            end_request_content(
                EndRequest { app_status: 0, protocol_status: defs::FCGI_REQUEST_COMPLETE },
            ),
        ),
{
    let status = str_to_ascii_bytes("Status: 500 Internal error\r\n\r\n");
    let stdout = AppRecord::StdOut(status);
    let r1 = match stdout.encode(request_id) {
        Ok(r) => r,
        Err(_) => vstd::pervasive::unreached(),
    };
    let mut msg = str_to_ascii_bytes("App failed with error: ");
    let mut tail = str_to_ascii_bytes(err_msg);
    msg.append(&mut tail);
    let stderr = AppRecord::StdErr(msg);
    let r2 = match stderr.encode(0) {
        Ok(r) => r,
        Err(_) => vstd::pervasive::unreached(),
    };
    let end = AppRecord::EndRequest(
        EndRequest { app_status: 0, protocol_status: defs::FCGI_REQUEST_COMPLETE },
    );
    let r3 = match end.encode(request_id) {
        Ok(r) => r,
        Err(_) => vstd::pervasive::unreached(),
    };
    let mut out: Vec<Record> = Vec::new();
    out.push(r1);
    out.push(r2);
    out.push(r3);
    out
}

/// The bytes of a string, character by character.  For strings that may hold
/// characters beyond ASCII, the UTF-8 encoding differs; replies built here
/// are ASCII.
fn str_to_ascii_bytes(s: &str) -> (out: Vec<u8>)
    ensures
        out@ == s@.map_values(|c: char| c as u8),
{
    let n = s.unicode_len();
    let mut out: Vec<u8> = Vec::new();
    let mut i: usize = 0;
    while i < n
        invariant
            i <= n,
            n == s@.len(),
            out@ == s@.subrange(0, i as int).map_values(|c: char| c as u8),
        decreases n - i,
    {
        let c = s.get_char(i);
        out.push(c as u8);
        proof {
            assert(out@ =~= s@.subrange(0, i + 1).map_values(|c: char| c as u8));
        }
        i = i + 1;
    }
    proof {
        assert(s@.subrange(0, s@.len() as int) =~= s@);
    }
    out
}

} // verus!
