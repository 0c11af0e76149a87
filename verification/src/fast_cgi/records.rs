//! Record types of the framing protocol and their decoded forms.

use vstd::prelude::*;
use vstd::utf8::{decode_utf8, encode_utf8, valid_utf8};
use crate::text::vec_to_string;
use super::decode::{decode_name_value_pair, nv_name, nv_rest, nv_value, nv_wf};
use super::defs;
use super::encode::{encode_name_value_pair, nv_encoding};

verus! {

/// Error raised when a record cannot be decoded.
#[derive(Debug)]
pub struct Error {
    pub description: String,
}

impl Error {
    pub fn new(description: &str) -> (e: Error)
        ensures
            e.description@ == description@,
    {
        Error { description: description.to_owned() }
    }

    /// Human-readable description of the failure.
    pub fn message(&self) -> (m: &String)
        ensures
            m@ == self.description@,
    {
        &self.description
    }
}

/// Mathematical model of a framed record: header fields plus content bytes.
pub ghost struct RecordView {
    pub version: u8,
    pub rec_type: u8,
    pub request_id: u16,
    pub content: Seq<u8>,
}

/// One framed unit of the protocol: an 8-byte header followed by
/// `content_data` and (on the wire) padding.
#[derive(Debug)]
pub struct Record {
    pub version: u8,
    pub rec_type: u8,
    pub request_id: u16,
    pub content_data: Vec<u8>,
}

impl View for Record {
    type V = RecordView;

    open spec fn view(&self) -> RecordView {
        RecordView {
            version: self.version,
            rec_type: self.rec_type,
            request_id: self.request_id,
            content: self.content_data@,
        }
    }
}

/// Body of a begin-request record.
#[derive(Debug)]
pub struct BeginRequest {
    pub role: u16,
    pub flags: u8,
}

/// Body of an end-request record.
#[derive(Debug)]
pub struct EndRequest {
    pub app_status: u32,
    pub protocol_status: u8,
}

/// A name/value pair carried by params and get-values records.
#[derive(Debug)]
pub struct NameValuePair {
    pub name: String,
    pub value: String,
}

/// Mathematical model of a name/value pair: both texts as character
/// sequences.
pub ghost struct PairView {
    pub name: Seq<char>,
    pub value: Seq<char>,
}

impl View for NameValuePair {
    type V = PairView;

    open spec fn view(&self) -> PairView {
        PairView { name: self.name@, value: self.value@ }
    }
}

impl NameValuePair {
    pub fn new(name: String, value: String) -> (p: NameValuePair)
        ensures
            p.name@ == name@,
            p.value@ == value@,
    {
        NameValuePair { name, value }
    }
}

/// A params or get-values content block is well formed when it consists of
/// complete name/value pairs whose texts are valid UTF-8, with at most one
/// trailing byte ignored.
pub open spec fn params_wf(b: Seq<u8>) -> bool
    decreases b.len(),
{
    if b.len() < 2 {
        true
    } else if !nv_wf(b) {
        false
    } else {
        &&& valid_utf8(nv_name(b))
        &&& valid_utf8(nv_value(b))
        &&& params_wf(nv_rest(b))
    }
}

/// The decoded pairs of a well-formed params content block, in order.
pub open spec fn params_pairs(b: Seq<u8>) -> Seq<PairView>
    decreases b.len(),
{
    if b.len() < 2 || !nv_wf(b) {
        seq![]
    } else {
        seq![
            PairView { name: decode_utf8(nv_name(b)), value: decode_utf8(nv_value(b)) },
        ] + params_pairs(nv_rest(b))
    }
}

/// One record as sent by the web server, decoded by type.
pub enum ServerRecord {
    GetValues(Vec<NameValuePair>),
    BeginRequest(BeginRequest),
    Params(Vec<NameValuePair>),
    StdIn(Vec<u8>),
    Data(Vec<u8>),
    Abort,
}

/// Parses the pairs of a params or get-values content block.
fn decode_pairs(content: &[u8]) -> (r: Result<Vec<NameValuePair>, Error>)
    ensures
        r is Ok <==> params_wf(content@),
        r matches Ok(ps) ==> ps@.map_values(|p: NameValuePair| p@) == params_pairs(content@),
{
    let mut block = vstd::slice::slice_to_vec(content);
    let mut params: Vec<NameValuePair> = Vec::new();
    proof {
        assert(params@.map_values(|p: NameValuePair| p@) =~= Seq::<PairView>::empty());
    }
    while block.len() >= 2
        invariant
            params_wf(content@) <==> params_wf(block@),
            params_wf(content@) ==> params_pairs(content@) =~= params@.map_values(
                |p: NameValuePair| p@,
            ) + params_pairs(block@),
        decreases block@.len(),
    {
        if !super::decode::check_nv_wf(block.as_slice()) {
            return Err(Error::new("Malformed name/value pair"));
        }
        proof {
            assert(nv_rest(block@).len() < block@.len());
        }
        let (name_b, value_b, rest) = decode_name_value_pair(block.as_slice());
        let ghost old_views = params@.map_values(|p: NameValuePair| p@);
        let ghost bprev = block@;
        let name = match vec_to_string(name_b) {
            Some(n) => n,
            None => {
                return Err(Error::new("Parameter name is not valid UTF-8"));
            },
        };
        let value = match vec_to_string(value_b) {
            Some(v) => v,
            None => {
                return Err(Error::new("Parameter value is not valid UTF-8"));
            },
        };
        params.push(NameValuePair::new(name, value));
        block = rest;
        proof {
            assert(params@.map_values(|p: NameValuePair| p@) =~= old_views + seq![
                PairView { name: decode_utf8(nv_name(bprev)), value: decode_utf8(nv_value(bprev)) },
            ]);
            if params_wf(content@) {
                assert(params_pairs(content@) =~= params@.map_values(|p: NameValuePair| p@)
                    + params_pairs(block@));
            }
        }
    }
    Ok(params)
}

impl ServerRecord {
    /// Decodes a record's content according to its type.  Recognized types
    /// are begin-request, abort-request, params, stdin, data and get-values;
    /// anything else, and any malformed content, is an error.
    pub fn decode(rec: &Record) -> (r: Result<ServerRecord, Error>)
        ensures
            rec.rec_type == defs::FCGI_BEGIN_REQUEST && rec.content_data@.len() >= 3 ==> (
            r matches Ok(sr) && sr matches ServerRecord::BeginRequest(b) && b.role == (((
            rec.content_data@[0] as u16) << 8) | (rec.content_data@[1] as u16)) && b.flags
                == rec.content_data@[2]),
            rec.rec_type == defs::FCGI_BEGIN_REQUEST && rec.content_data@.len() < 3 ==> r is Err,
            rec.rec_type == defs::FCGI_ABORT_REQUEST ==> (r matches Ok(sr) && sr
                is Abort),
            rec.rec_type == defs::FCGI_PARAMS ==> (params_wf(rec.content_data@) <==> r is Ok),
            rec.rec_type == defs::FCGI_PARAMS && params_wf(rec.content_data@) ==> (r matches Ok(
            sr) && sr matches ServerRecord::Params(ps) && ps@.map_values(|p: NameValuePair| p@)
                == params_pairs(rec.content_data@)),
            rec.rec_type == defs::FCGI_STDIN ==> (r matches Ok(sr) && sr matches ServerRecord::StdIn(
            d) && d@ == rec.content_data@),
            rec.rec_type == defs::FCGI_DATA ==> (r matches Ok(sr) && sr matches ServerRecord::Data(
            d) && d@ == rec.content_data@),
            rec.rec_type == defs::FCGI_GET_VALUES ==> (params_wf(rec.content_data@) <==> r
                is Ok),
            rec.rec_type == defs::FCGI_GET_VALUES && params_wf(rec.content_data@) ==> (
            r matches Ok(sr) && sr matches ServerRecord::GetValues(ps) && ps@.map_values(
                |p: NameValuePair| p@,
            ) == params_pairs(rec.content_data@)),
            !(rec.rec_type == defs::FCGI_BEGIN_REQUEST || rec.rec_type == defs::FCGI_ABORT_REQUEST
                || rec.rec_type == defs::FCGI_PARAMS || rec.rec_type == defs::FCGI_STDIN
                || rec.rec_type == defs::FCGI_DATA || rec.rec_type == defs::FCGI_GET_VALUES)
                ==> r is Err,
    {
        if rec.rec_type == defs::FCGI_BEGIN_REQUEST {
            if rec.content_data.len() < 3 {
                return Err(Error::new("Begin request record too short"));
            }
            let role = ((rec.content_data[0] as u16) << 8) | (rec.content_data[1] as u16);
            let flags = rec.content_data[2];
            Ok(ServerRecord::BeginRequest(BeginRequest { role, flags }))
        } else if rec.rec_type == defs::FCGI_ABORT_REQUEST {
            Ok(ServerRecord::Abort)
        } else if rec.rec_type == defs::FCGI_PARAMS {
            let params = decode_pairs(rec.content_data.as_slice())?;
            Ok(ServerRecord::Params(params))
        } else if rec.rec_type == defs::FCGI_STDIN {
            Ok(ServerRecord::StdIn(vstd::slice::slice_to_vec(rec.content_data.as_slice())))
        } else if rec.rec_type == defs::FCGI_DATA {
            Ok(ServerRecord::Data(vstd::slice::slice_to_vec(rec.content_data.as_slice())))
        } else if rec.rec_type == defs::FCGI_GET_VALUES {
            let params = decode_pairs(rec.content_data.as_slice())?;
            Ok(ServerRecord::GetValues(params))
        } else {
            Err(Error::new("Unrecognized record type"))
        }
    }
}

/// One record to be sent back to the web server.
pub enum AppRecord {
    GetValuesResult(Vec<NameValuePair>),
    UnknownType(u8),
    EndRequest(EndRequest),
    StdOut(Vec<u8>),
    StdErr(Vec<u8>),
}

/// Content bytes of an end-request record: the application status
/// (big-endian), the protocol status, and three reserved zero bytes.
pub open spec fn end_request_content(e: EndRequest) -> Seq<u8> {
    seq![
        (e.app_status >> 24) as u8,
        (e.app_status >> 16) as u8,
        (e.app_status >> 8) as u8,
        e.app_status as u8,
        e.protocol_status,
        0u8,
        0u8,
        0u8,
    ]
}

/// Content bytes of an unknown-type record: the unrecognized type code and
/// seven reserved zero bytes.
pub open spec fn unknown_type_content(t: u8) -> Seq<u8> {
    seq![t, 0u8, 0u8, 0u8, 0u8, 0u8, 0u8, 0u8]
}

/// Content bytes of a get-values-result record: the pairs encoded in order.
pub open spec fn pairs_encoding(ps: Seq<PairView>) -> Seq<u8>
    decreases ps.len(),
{
    if ps.len() == 0 {
        seq![]
    } else {
        nv_encoding(encode_utf8(ps[0].name), encode_utf8(ps[0].value)) + pairs_encoding(
            ps.drop_first(),
        )
    }
}

/// The content an encoded app record carries.
pub open spec fn app_record_content(r: &AppRecord) -> Seq<u8> {
    match r {
        AppRecord::EndRequest(e) => end_request_content(*e),
        AppRecord::StdOut(d) => d@,
        AppRecord::StdErr(d) => d@,
        AppRecord::GetValuesResult(vs) => pairs_encoding(vs@.map_values(|p: NameValuePair| p@)),
        AppRecord::UnknownType(t) => unknown_type_content(*t),
    }
}

/// The record type code an encoded app record carries.
pub open spec fn app_record_type(r: &AppRecord) -> u8 {
    match r {
        AppRecord::EndRequest(_) => defs::FCGI_END_REQUEST,
        AppRecord::StdOut(_) => defs::FCGI_STDOUT,
        AppRecord::StdErr(_) => defs::FCGI_STDERR,
        AppRecord::GetValuesResult(_) => defs::FCGI_GET_VALUES_RESULT,
        AppRecord::UnknownType(_) => defs::FCGI_UNKNOWN_TYPE,
    }
}

impl AppRecord {
    /// Builds the outgoing record for this reply, addressed to `request_id`.
    pub fn encode(self: &AppRecord, request_id: u16) -> (r: Result<Record, Error>)
        requires
            self matches AppRecord::GetValuesResult(vs) ==> forall|i: int|
                0 <= i < vs@.len() ==> encode_utf8(#[trigger] vs@[i]@.name).len() <= 0x7fff_ffff
                    && encode_utf8(vs@[i]@.value).len() <= 0x7fff_ffff,
        ensures
            r matches Ok(rec) && rec.version == defs::FCGI_VERSION_1 && rec.request_id
                == request_id && rec.rec_type == app_record_type(self) && rec.content_data@
                == app_record_content(self),
    {
        let mut content: Vec<u8> = Vec::new();
        let rec_type: u8;
        match self {
            AppRecord::EndRequest(end) => {
                rec_type = defs::FCGI_END_REQUEST;
                content.push((end.app_status >> 24) as u8);
                content.push((end.app_status >> 16) as u8);
                content.push((end.app_status >> 8) as u8);
                content.push(end.app_status as u8);
                content.push(end.protocol_status);
                content.push(0);
                content.push(0);
                content.push(0);
                assert(content@ =~= end_request_content(*end));
            },
            AppRecord::StdOut(data) => {
                rec_type = defs::FCGI_STDOUT;
                let mut copy = vstd::slice::slice_to_vec(data.as_slice());
                content.append(&mut copy);
                assert(content@ =~= data@);
            },
            AppRecord::StdErr(data) => {
                rec_type = defs::FCGI_STDERR;
                let mut copy = vstd::slice::slice_to_vec(data.as_slice());
                content.append(&mut copy);
                assert(content@ =~= data@);
            },
            AppRecord::GetValuesResult(values) => {
                rec_type = defs::FCGI_GET_VALUES_RESULT;
                let ghost views = values@.map_values(|p: NameValuePair| p@);
                let mut i: usize = 0;
                while i < values.len()
                    invariant
                        i <= values@.len(),
                        views == values@.map_values(|p: NameValuePair| p@),
                        forall|j: int|
                            0 <= j < views.len() ==> encode_utf8(#[trigger] views[j].name).len()
                                <= 0x7fff_ffff && encode_utf8(views[j].value).len()
                                <= 0x7fff_ffff,
                        content@ == pairs_encoding(views.take(i as int)),
                    decreases values@.len() - i,
                {
                    let p = &values[i];
                    proof {
                        assert(values@[i as int]@ == views[i as int]);
                        assert(encode_utf8(views[i as int].name).len() <= 0x7fff_ffff
                            && encode_utf8(views[i as int].value).len() <= 0x7fff_ffff);
                    }
                    encode_name_value_pair(
                        &mut content,
                        p.name.as_str().as_bytes(),
                        p.value.as_str().as_bytes(),
                    );
                    proof {
                        lemma_pairs_encoding_snoc(views, i as int);
                    }
                    i = i + 1;
                }
                proof {
                    assert(views.take(views.len() as int) =~= views);
                }
            },
            AppRecord::UnknownType(t) => {
                rec_type = defs::FCGI_UNKNOWN_TYPE;
                content.push(*t);
                let mut j: usize = 0;
                while j < 7
                    invariant
                        j <= 7,
                        content@.len() == 1 + j,
                        content@[0] == *t,
                        forall|m: int| 1 <= m < content@.len() ==> content@[m] == 0u8,
                    decreases 7 - j,
                {
                    content.push(0);
                    j = j + 1;
                }
                assert(content@ =~= unknown_type_content(*t));
            },
        }
        Ok(
            Record {
                request_id,
                version: defs::FCGI_VERSION_1,
                rec_type,
                content_data: content,
            },
        )
    }
}

/// Encoding pairs one more step: the first `i + 1` pairs are the first `i`
/// followed by the encoding of pair `i`.
proof fn lemma_pairs_encoding_snoc(ps: Seq<PairView>, i: int)
    requires
        0 <= i < ps.len(),
    ensures
        pairs_encoding(ps.take(i + 1)) == pairs_encoding(ps.take(i)) + nv_encoding(
            encode_utf8(ps[i].name),
            encode_utf8(ps[i].value),
        ),
    decreases i,
{
    if i == 0 {
        reveal_with_fuel(pairs_encoding, 2);
        assert(ps.take(1).len() == 1);
        assert(ps.take(1).drop_first() =~= Seq::<PairView>::empty());
        assert(pairs_encoding(Seq::<PairView>::empty()) == Seq::<u8>::empty());
        assert(pairs_encoding(ps.take(0)) =~= Seq::<u8>::empty());
        assert(ps.take(1)[0] == ps[0]);
        assert(pairs_encoding(ps.take(1)) == nv_encoding(
            encode_utf8(ps.take(1)[0].name),
            encode_utf8(ps.take(1)[0].value),
        ) + pairs_encoding(ps.take(1).drop_first()));
        assert(pairs_encoding(ps.take(1)) =~= pairs_encoding(ps.take(0)) + nv_encoding(
            encode_utf8(ps[0].name),
            encode_utf8(ps[0].value),
        ));
    } else {
        lemma_pairs_encoding_snoc(ps.drop_first(), i - 1);
        assert(ps.take(i + 1).drop_first() =~= ps.drop_first().take(i));
        assert(ps.take(i).drop_first() =~= ps.drop_first().take(i - 1));
        assert(ps.drop_first()[i - 1] == ps[i]);
        assert(ps.take(i + 1)[0] == ps[0] && ps.take(i)[0] == ps[0]);
        assert(pairs_encoding(ps.take(i + 1)) =~= pairs_encoding(ps.take(i)) + nv_encoding(
            encode_utf8(ps[i].name),
            encode_utf8(ps[i].value),
        ));
    }
}

} // verus!
