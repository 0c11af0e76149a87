//! Tests of the incremental record stream reader.

use helvar_cgi::fast_cgi::input_stream::RecordInputStream;
use helvar_cgi::fast_cgi::record_output::encode_record;
use helvar_cgi::fast_cgi::records::Record;

fn example_chunks() -> Vec<Vec<u8>> {
    vec![
        vec![1u8, 0x02, 0x00, 0x03, 0x00],
        vec![0x05, 0x01, 0x00, 0x01, 0x02],
        vec![0x03, 0x04, 0x05, 0x00],
        vec![
            1u8, 0x02, 0x00, 0x03, 0x00, 0x05, 0x01, 0x00, 0x01, 0x02, 0x03, 0x04, 0x05, 0x00,
        ],
    ]
}

fn check_example_records(records: &[Record]) {
    assert_eq!(records.len(), 2);
    for r in records {
        assert_eq!(r.version, 1);
        assert_eq!(r.rec_type, 2);
        assert_eq!(r.request_id, 3);
        assert_eq!(r.content_data, vec![1u8, 2, 3, 4, 5]);
    }
}

#[test]
fn test_input_stream() {
    let mut reader = RecordInputStream::new();
    let mut records = Vec::new();
    for c in &example_chunks() {
        records.extend(reader.push_bytes(c));
    }
    check_example_records(&records);
}

#[test]
fn test_input_stream_blocked() {
    // A reader that sat idle while the source was busy parses the whole
    // stream once the bytes arrive in a single batch.
    let mut whole = Vec::new();
    for c in &example_chunks() {
        whole.extend_from_slice(c);
    }
    let mut reader = RecordInputStream::new();
    let records = reader.push_bytes(&whole);
    check_example_records(&records);
}

#[test]
fn test_chunking_is_irrelevant() {
    // The same stream fed whole and fed one byte at a time yields the
    // identical record sequence.
    let rec_a = Record {
        version: 1,
        rec_type: 6,
        request_id: 9,
        content_data: (0u8..13).collect(),
    };
    let rec_b = Record { version: 1, rec_type: 7, request_id: 10, content_data: Vec::new() };
    let mut stream = encode_record(&rec_a);
    stream.extend(encode_record(&rec_b));

    let mut whole_reader = RecordInputStream::new();
    let whole = whole_reader.push_bytes(&stream);

    let mut byte_reader = RecordInputStream::new();
    let mut single = Vec::new();
    for b in &stream {
        single.extend(byte_reader.push_bytes(&[*b]));
    }

    assert_eq!(whole.len(), 2);
    assert_eq!(single.len(), 2);
    for (x, y) in whole.iter().zip(single.iter()) {
        assert_eq!(x.version, y.version);
        assert_eq!(x.rec_type, y.rec_type);
        assert_eq!(x.request_id, y.request_id);
        assert_eq!(x.content_data, y.content_data);
    }
    assert_eq!(whole[0].content_data, (0u8..13).collect::<Vec<u8>>());
    assert_eq!(whole[1].content_data, Vec::<u8>::new());
}

#[test]
fn test_record_round_trip_with_padding() {
    // Content length 5 forces 3 bytes of padding; the wire form parses back
    // to the same record with the padding discarded.
    let rec = Record {
        version: 1,
        rec_type: 6,
        request_id: 77,
        content_data: vec![10u8, 20, 30, 40, 50],
    };
    let wire = encode_record(&rec);
    assert_eq!(wire.len(), 8 + 5 + 3);
    let mut reader = RecordInputStream::new();
    let records = reader.push_bytes(&wire);
    assert_eq!(records.len(), 1);
    assert_eq!(records[0].version, 1);
    assert_eq!(records[0].rec_type, 6);
    assert_eq!(records[0].request_id, 77);
    assert_eq!(records[0].content_data, vec![10u8, 20, 30, 40, 50]);
    // Nothing of the padding leaks into a following record.
    let rec2 = Record { version: 1, rec_type: 5, request_id: 78, content_data: vec![1u8] };
    let records2 = reader.push_bytes(&encode_record(&rec2));
    assert_eq!(records2.len(), 1);
    assert_eq!(records2[0].request_id, 78);
    assert_eq!(records2[0].content_data, vec![1u8]);
}

#[test]
fn test_largest_content_length() {
    let rec = Record {
        version: 1,
        rec_type: 5,
        request_id: 1,
        content_data: vec![0xA5u8; 65535],
    };
    let wire = encode_record(&rec);
    assert_eq!(wire.len(), 8 + 65535 + 1);
    let mut reader = RecordInputStream::new();
    let records = reader.push_bytes(&wire);
    assert_eq!(records.len(), 1);
    assert_eq!(records[0].content_data.len(), 65535);
    assert!(records[0].content_data.iter().all(|&b| b == 0xA5));
}
