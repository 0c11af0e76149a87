//! Serialization of outgoing records: an 8-byte header, the content bytes,
//! and zero padding sized so that content plus padding is a multiple of 8.

use vstd::prelude::*;
use vstd::slice::slice_to_vec;
use super::input_stream::{hdr_content_len, hdr_padding_len, hdr_record, hdr_request_id, scan};
use super::records::{Record, RecordView};

verus! {

/// The minimal non-negative padding such that `content_len + padding` is a
/// multiple of 8.
pub open spec fn record_padding_len(content_len: int) -> int {
    (8 - content_len % 8) % 8
}

/// The 8-byte header of a record on the wire:
/// version, type, request id (big-endian), content length (big-endian),
/// padding length, and one reserved zero byte.
pub open spec fn record_header_bytes(r: RecordView) -> Seq<u8> {
    seq![
        r.version,
        r.rec_type,
        (r.request_id >> 8) as u8,
        r.request_id as u8,
        ((r.content.len() as u16) >> 8) as u8,
        (r.content.len() as u16) as u8,
        record_padding_len(r.content.len() as int) as u8,
        0u8,
    ]
}

/// The full wire form of a record: header, content, zero padding.
pub open spec fn record_wire_bytes(r: RecordView) -> Seq<u8> {
    record_header_bytes(r) + r.content + Seq::new(
        record_padding_len(r.content.len() as int) as nat,
        |i: int| 0u8,
    )
}

/// Serializes one record, padding included.  The content must fit the
/// 16-bit length field of the header.
pub fn encode_record(rec: &Record) -> (out: Vec<u8>)
    requires
        rec.content_data@.len() <= 65535,
    ensures
        out@ == record_wire_bytes(rec@),
{
    let content_len = rec.content_data.len();
    let rem = content_len % 8;
    let padding_len: usize = if rem == 0 {
        0
    } else {
        8 - rem
    };
    assert(padding_len == record_padding_len(rec.content_data@.len() as int));
    let cl16 = content_len as u16;
    let mut out: Vec<u8> = Vec::new();
    out.push(rec.version);
    out.push(rec.rec_type);
    out.push((rec.request_id >> 8) as u8);
    out.push(rec.request_id as u8);
    out.push((cl16 >> 8) as u8);
    out.push(cl16 as u8);
    out.push(padding_len as u8);
    out.push(0);
    assert(out@ =~= record_header_bytes(rec@));
    let mut content_copy = slice_to_vec(rec.content_data.as_slice());
    out.append(&mut content_copy);
    let mut i: usize = 0;
    while i < padding_len
        invariant
            i <= padding_len,
            out@ == record_header_bytes(rec@) + rec.content_data@ + Seq::new(
                i as nat,
                |j: int| 0u8,
            ),
        decreases padding_len - i,
    {
        out.push(0);
        assert(out@ =~= record_header_bytes(rec@) + rec.content_data@ + Seq::new(
            (i + 1) as nat,
            |j: int| 0u8,
        ));
        i = i + 1;
    }
    assert(out@ =~= record_wire_bytes(rec@));
    out
}

/// Round trip through the framing layer: the wire form of a record parses
/// back as exactly that record, consuming every byte, padding included.
pub proof fn lemma_record_round_trip(r: RecordView)
    requires
        r.content.len() <= 65535,
    ensures
        ({
            let b = record_wire_bytes(r);
            &&& scan(b).records == seq![r]
            &&& scan(b).consumed == b.len()
            &&& scan(b).pad_owed == 0
        }),
{
    let b = record_wire_bytes(r);
    let cl = r.content.len() as int;
    let pl = record_padding_len(cl);
    assert(b.len() == 8 + cl + pl);
    let cl16 = r.content.len() as u16;
    assert(b[4] == (cl16 >> 8) as u8 && b[5] == cl16 as u8);
    assert((((((cl16 >> 8) as u8) as u16) << 8) | ((cl16 as u8) as u16)) == cl16) by (bit_vector);
    assert(hdr_content_len(b) == cl);
    assert(hdr_padding_len(b) == pl);
    let id = r.request_id;
    assert((((((id >> 8) as u8) as u16) << 8) | ((id as u8) as u16)) == id) by (bit_vector);
    assert(hdr_request_id(b) == id);
    assert(b.subrange(8, 8 + cl) =~= r.content);
    assert(hdr_record(b) == r);
    assert(b.subrange(8 + cl + pl, b.len() as int) =~= Seq::<u8>::empty());
    reveal_with_fuel(scan, 3);
    assert(scan(b).records =~= seq![r]);
}

} // verus!
