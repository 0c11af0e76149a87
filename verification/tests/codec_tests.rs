//! Tests of the name/value pair codec and record serialization.

use helvar_cgi::fast_cgi::decode::decode_name_value_pair;
use helvar_cgi::fast_cgi::encode::encode_name_value_pair;
use helvar_cgi::fast_cgi::record_output::encode_record;
use helvar_cgi::fast_cgi::records::Record;

#[test]
fn test_decode_name_value_pair_11() {
    let block = [2u8, 3, 1, 2, 6, 5, 4];
    let (name, value, _rest) = decode_name_value_pair(&block);
    assert_eq!(name, vec![1u8, 2]);
    assert_eq!(value, vec![6u8, 5, 4]);
}

#[test]
fn test_decode_name_value_pair_41() {
    let block = [0x80u8, 0, 0, 3, 3, 1, 2, 3, 6, 5, 4];
    let (name, value, _rest) = decode_name_value_pair(&block);
    assert_eq!(name, vec![1u8, 2, 3]);
    assert_eq!(value, vec![6u8, 5, 4]);
}

#[test]
fn test_decode_name_value_pair_14() {
    let block = [3u8, 0x80, 0, 0, 3, 1, 2, 3, 6, 5, 4];
    let (name, value, _rest) = decode_name_value_pair(&block);
    assert_eq!(name, vec![1u8, 2, 3]);
    assert_eq!(value, vec![6u8, 5, 4]);
}

#[test]
fn test_decode_name_value_pair_44() {
    let block = [0x80u8, 0, 0, 3, 0x80, 0, 0, 3, 1, 2, 3, 6, 5, 4];
    let (name, value, _rest) = decode_name_value_pair(&block);
    assert_eq!(name, vec![1u8, 2, 3]);
    assert_eq!(value, vec![6u8, 5, 4]);
}

#[test]
fn test_name_value_round_trip_boundary_lengths() {
    // Covers the one-byte/four-byte boundary exactly at 127/128 and a large
    // length.
    for &len in &[0usize, 127, 128, 1 << 20] {
        let name: Vec<u8> = (0..len).map(|i| (i % 251) as u8).collect();
        let value = vec![7u8, 8, 9];
        let mut buf = Vec::new();
        encode_name_value_pair(&mut buf, &name, &value);
        buf.push(0xAA);
        buf.push(0xBB);
        let (n2, v2, rest) = decode_name_value_pair(&buf);
        assert_eq!(n2, name);
        assert_eq!(v2, value);
        assert_eq!(rest, vec![0xAAu8, 0xBB]);
    }
}

#[test]
fn test_length_field_forms() {
    // A length of 127 takes one byte with the top bit clear.
    let mut buf = Vec::new();
    encode_name_value_pair(&mut buf, &[1u8; 127], &[]);
    assert_eq!(buf[0], 127);
    assert_eq!(buf[1], 0);
    assert_eq!(buf.len(), 2 + 127);
    // A length of 128 takes four bytes with the top bit set, masked on read.
    let mut buf2 = Vec::new();
    encode_name_value_pair(&mut buf2, &[1u8; 128], &[]);
    assert_eq!(&buf2[0..4], &[0x80, 0, 0, 128]);
    assert_eq!(buf2[4], 0);
    assert_eq!(buf2.len(), 5 + 128);
    let (n, v, rest) = decode_name_value_pair(&buf2);
    assert_eq!(n.len(), 128);
    assert_eq!(v.len(), 0);
    assert!(rest.is_empty());
}

#[test]
fn test_output_stream() {
    let content_data = vec![9u8, 7, 8];
    let rec = Record { version: 1, rec_type: 3, request_id: 0x1733, content_data };
    let out = encode_record(&rec);
    assert_eq!(out, vec![1u8, 3, 0x17, 0x33, 0, 3, 5, 0, 9, 7, 8, 0, 0, 0, 0, 0]);
}

#[test]
fn test_record_padding_multiple_of_eight() {
    for len in 0usize..17 {
        let rec = Record {
            version: 1,
            rec_type: 6,
            request_id: 1,
            content_data: vec![0x55u8; len],
        };
        let out = encode_record(&rec);
        assert_eq!((out.len() - 8) % 8, 0);
        let padding = out.len() - 8 - len;
        assert!(padding < 8);
        assert!(out[8 + len..].iter().all(|&b| b == 0));
    }
}
