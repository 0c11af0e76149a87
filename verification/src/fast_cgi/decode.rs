//! Decoding of variable-length name/value pairs.
//!
//! Each of the name length and the value length is encoded either as a single
//! byte (top bit clear, values 0–127) or as four big-endian bytes with the top
//! bit of the first byte set (the bit is masked off on read, so values go up
//! to 2^31 − 1).

use vstd::prelude::*;
use vstd::slice::{slice_subrange, slice_to_vec};

verus! {

/// Number of bytes the length field starting at `off` occupies.
pub open spec fn len_field_size(b: Seq<u8>, off: int) -> int {
    if b[off] < 128 {
        1
    } else {
        4
    }
}

/// The length encoded by the length field starting at `off`.
pub open spec fn len_field_value(b: Seq<u8>, off: int) -> u32 {
    if b[off] < 128 {
        b[off] as u32
    } else {
        (((b[off] as u32) & 0x7f) << 24) | ((b[off + 1] as u32) << 16) | ((b[off + 2] as u32)
            << 8) | (b[off + 3] as u32)
    }
}

/// Offset of the name bytes: both length fields precede them.
pub open spec fn nv_data_offset(b: Seq<u8>) -> int {
    len_field_size(b, 0) + len_field_size(b, len_field_size(b, 0))
}

/// The buffer holds two complete length fields and as many name and value
/// bytes as they announce.
pub open spec fn nv_wf(b: Seq<u8>) -> bool {
    let s1 = len_field_size(b, 0);
    &&& b.len() >= 1
    &&& b.len() >= s1 + 1
    &&& b.len() >= s1 + len_field_size(b, s1)
    &&& b.len() >= nv_data_offset(b) + len_field_value(b, 0) + len_field_value(
        b,
        len_field_size(b, 0),
    )
}

/// The name bytes of the encoded pair.
pub open spec fn nv_name(b: Seq<u8>) -> Seq<u8> {
    let off = nv_data_offset(b);
    b.subrange(off, off + len_field_value(b, 0))
}

/// The value bytes of the encoded pair.
pub open spec fn nv_value(b: Seq<u8>) -> Seq<u8> {
    let off = nv_data_offset(b) + len_field_value(b, 0);
    b.subrange(off, off + len_field_value(b, len_field_size(b, 0)))
}

/// The bytes that follow the encoded pair.
pub open spec fn nv_rest(b: Seq<u8>) -> Seq<u8> {
    let off = nv_data_offset(b) + len_field_value(b, 0) + len_field_value(
        b,
        len_field_size(b, 0),
    );
    b.subrange(off, b.len() as int)
}

/// Reads the length field starting at `off`, returning the encoded length and
/// the number of bytes consumed.
fn read_len_field(block: &[u8], off: usize) -> (r: (u32, usize))
    requires
        off < block@.len(),
        block@[off as int] >= 128 ==> off + 4 <= block@.len(),
    ensures
        r.0 == len_field_value(block@, off as int),
        r.1 == len_field_size(block@, off as int),
{
    let b0 = block[off];
    if b0 < 128 {
        (b0 as u32, 1)
    } else {
        let v = (((b0 as u32) & 0x7f) << 24) | ((block[off + 1] as u32) << 16) | ((block[off
            + 2] as u32) << 8) | (block[off + 3] as u32);
        (v, 4)
    }
}

/// Reads one name/value pair from the front of `block`.
/// Returns the name bytes, the value bytes and the remaining bytes.
pub fn decode_name_value_pair(block: &[u8]) -> (r: (Vec<u8>, Vec<u8>, Vec<u8>))
    requires
        nv_wf(block@),
    ensures
        r.0@ == nv_name(block@),
        r.1@ == nv_value(block@),
        r.2@ == nv_rest(block@),
{
    let (name_length, s1) = read_len_field(block, 0);
    let (value_length, s2) = read_len_field(block, s1);
    let total = block.len();
    proof {
        assert(nv_data_offset(block@) + len_field_value(block@, 0) + len_field_value(
            block@,
            len_field_size(block@, 0),
        ) <= total);
    }
    let name_start = s1 + s2;
    let value_start = name_start + (name_length as usize);
    let rest_start = value_start + (value_length as usize);
    let name = slice_to_vec(slice_subrange(block, name_start, value_start));
    let value = slice_to_vec(slice_subrange(block, value_start, rest_start));
    let rest = slice_to_vec(slice_subrange(block, rest_start, block.len()));
    (name, value, rest)
}

/// Checks whether `block` begins with a complete name/value pair: two whole
/// length fields and as many name and value bytes as they announce.
pub fn check_nv_wf(block: &[u8]) -> (r: bool)
    ensures
        r == nv_wf(block@),
{
    let total = block.len();
    if total == 0 {
        return false;
    }
    let s1: usize = if block[0] < 128 {
        1
    } else {
        4
    };
    if total < s1 + 1 {
        return false;
    }
    let (nl, _) = read_len_field(block, 0);
    let s2: usize = if block[s1] < 128 {
        1
    } else {
        4
    };
    if total < s1 + s2 {
        return false;
    }
    let (vl, _) = read_len_field(block, s1);
    if (nl as u64) + (vl as u64) > ((total - s1) - s2) as u64 {
        return false;
    }
    true
}

/// A length field with the top bit clear occupies one byte and encodes its
/// own value; one with the top bit set occupies four bytes and encodes the
/// big-endian value of those bytes with the top bit masked off.
pub proof fn lemma_length_field_forms(b: Seq<u8>, off: int)
    requires
        0 <= off,
        off + 4 <= b.len(),
    ensures
        b[off] < 128 ==> len_field_size(b, off) == 1 && len_field_value(b, off) == b[off],
        b[off] >= 128 ==> len_field_size(b, off) == 4 && len_field_value(b, off) == (((
        b[off] as u32) << 24) | ((b[off + 1] as u32) << 16) | ((b[off + 2] as u32) << 8) | (b[off
            + 3] as u32)) & 0x7fff_ffff,
{
    let b0 = b[off];
    let b1 = b[off + 1];
    let b2 = b[off + 2];
    let b3 = b[off + 3];
    if b0 >= 128 {
        assert((((b0 as u32) & 0x7f) << 24) | ((b1 as u32) << 16) | ((b2 as u32) << 8) | (
        b3 as u32) == (((b0 as u32) << 24) | ((b1 as u32) << 16) | ((b2 as u32) << 8) | (
        b3 as u32)) & 0x7fff_ffff) by (bit_vector);
    }
}

} // verus!
