//! Encoding of variable-length name/value pairs: the exact inverse of
//! [`crate::fast_cgi::decode`].  Lengths up to 127 use the one-byte form,
//! longer ones the four-byte form with the top bit set.

use vstd::prelude::*;
use vstd::slice::slice_to_vec;
use super::decode::{
    len_field_size,
    len_field_value,
    nv_data_offset,
    nv_name,
    nv_rest,
    nv_value,
    nv_wf,
};

verus! {

/// The wire form of one length field.
pub open spec fn len_field_bytes(n: u32) -> Seq<u8> {
    if n <= 127 {
        seq![n as u8]
    } else {
        seq![
            ((n >> 24) | 0x80) as u8,
            (n >> 16) as u8,
            (n >> 8) as u8,
            n as u8,
        ]
    }
}

/// The wire form of one name/value pair.
pub open spec fn nv_encoding(name: Seq<u8>, value: Seq<u8>) -> Seq<u8> {
    len_field_bytes(name.len() as u32) + len_field_bytes(value.len() as u32) + name + value
}

/// Appends one length field to `buf`.
fn write_len_field(buf: &mut Vec<u8>, n: u32)
    requires
        n <= 0x7fff_ffff,
    ensures
        final(buf)@ == old(buf)@ + len_field_bytes(n),
{
    if n <= 127 {
        buf.push(n as u8);
    } else {
        buf.push(((n >> 24) | 0x80) as u8);
        buf.push((n >> 16) as u8);
        buf.push((n >> 8) as u8);
        buf.push(n as u8);
        assert(final(buf)@ =~= old(buf)@ + len_field_bytes(n));
    }
}

/// Appends the wire form of the pair (`name`, `value`) to `buf`.
pub fn encode_name_value_pair(buf: &mut Vec<u8>, name: &[u8], value: &[u8])
    requires
        name@.len() <= 0x7fff_ffff,
        value@.len() <= 0x7fff_ffff,
    ensures
        final(buf)@ == old(buf)@ + nv_encoding(name@, value@),
{
    write_len_field(buf, name.len() as u32);
    write_len_field(buf, value.len() as u32);
    let mut name_copy = slice_to_vec(name);
    buf.append(&mut name_copy);
    let mut value_copy = slice_to_vec(value);
    buf.append(&mut value_copy);
    assert(final(buf)@ =~= old(buf)@ + nv_encoding(name@, value@));
}

/// Round trip: decoding an encoded pair followed by arbitrary further bytes
/// yields back the name, the value and those bytes.
pub proof fn lemma_name_value_round_trip(name: Seq<u8>, value: Seq<u8>, rest: Seq<u8>)
    requires
        name.len() <= 0x7fff_ffff,
        value.len() <= 0x7fff_ffff,
    ensures
        ({
            let b = nv_encoding(name, value) + rest;
            &&& nv_wf(b)
            &&& nv_name(b) == name
            &&& nv_value(b) == value
            &&& nv_rest(b) == rest
        }),
{
    let b = nv_encoding(name, value) + rest;
    let nl = name.len() as u32;
    let vl = value.len() as u32;
    lemma_len_field_bytes_decode(nl);
    lemma_len_field_bytes_decode(vl);
    let s1 = len_field_bytes(nl).len() as int;
    let s2 = len_field_bytes(vl).len() as int;
    assert(b.subrange(0, s1) =~= len_field_bytes(nl));
    assert(b.subrange(s1, s1 + s2) =~= len_field_bytes(vl));
    assert(b[0] == len_field_bytes(nl)[0]);
    assert(len_field_size(b, 0) == s1 && len_field_value(b, 0) == nl) by {
        lemma_len_field_agree(b, 0, nl);
    }
    assert(len_field_size(b, s1) == s2 && len_field_value(b, s1) == vl) by {
        lemma_len_field_agree(b, s1, vl);
    }
    assert(nv_data_offset(b) == s1 + s2);
    assert(nv_wf(b));
    assert(nv_name(b) =~= name);
    assert(nv_value(b) =~= value);
    assert(nv_rest(b) =~= rest);
}

/// A length field laid down by `len_field_bytes` reads back as its input:
/// size and value agree wherever the buffer holds those bytes at `off`.
proof fn lemma_len_field_agree(b: Seq<u8>, off: int, n: u32)
    requires
        n <= 0x7fff_ffff,
        0 <= off,
        off + len_field_bytes(n).len() <= b.len(),
        b.subrange(off, off + len_field_bytes(n).len() as int) == len_field_bytes(n),
    ensures
        len_field_size(b, off) == len_field_bytes(n).len(),
        len_field_value(b, off) == n,
{
    lemma_len_field_bytes_decode(n);
    let f = len_field_bytes(n);
    assert(b[off] == f[0]);
    if n > 127 {
        assert(b[off + 1] == f[1] && b[off + 2] == f[2] && b[off + 3] == f[3]);
    }
}

/// The bytes of a length field determine its size and decode to its value.
proof fn lemma_len_field_bytes_decode(n: u32)
    requires
        n <= 0x7fff_ffff,
    ensures
        n <= 127 ==> {
            let f = len_field_bytes(n);
            f.len() == 1 && f[0] < 128 && f[0] as u32 == n
        },
        n > 127 ==> {
            let f = len_field_bytes(n);
            &&& f.len() == 4
            &&& f[0] >= 128
            &&& ((((f[0] as u32) & 0x7f) << 24) | ((f[1] as u32) << 16) | ((f[2] as u32) << 8) | (
            f[3] as u32)) == n
        },
{
    if n > 127 {
        let b0 = ((n >> 24) | 0x80) as u8;
        let b1 = (n >> 16) as u8;
        let b2 = (n >> 8) as u8;
        let b3 = n as u8;
        assert(b0 >= 128 && ((((b0 as u32) & 0x7f) << 24) | ((b1 as u32) << 16) | ((b2 as u32)
            << 8) | (b3 as u32)) == n) by (bit_vector)
            requires
                n <= 0x7fff_ffffu32,
                b0 == ((n >> 24) | 0x80) as u8,
                b1 == (n >> 16) as u8,
                b2 == (n >> 8) as u8,
                b3 == n as u8,
        ;
    }
}

} // verus!
