//! Tests of request assembly: multiplexing, parameter merging, body
//! accumulation, abort handling and reply building.

use helvar_cgi::fast_cgi::decoder::{error_records, success_records, Decoder, ProcessOutcome};
use helvar_cgi::fast_cgi::encode::encode_name_value_pair;
use helvar_cgi::fast_cgi::records::{AppRecord, BeginRequest, NameValuePair, Record, ServerRecord};

fn begin_record(id: u16) -> Record {
    Record { version: 1, rec_type: 1, request_id: id, content_data: vec![0u8, 1, 0] }
}

fn params_record(id: u16, pairs: &[(&str, &str)]) -> Record {
    let mut content = Vec::new();
    for (n, v) in pairs {
        encode_name_value_pair(&mut content, n.as_bytes(), v.as_bytes());
    }
    Record { version: 1, rec_type: 4, request_id: id, content_data: content }
}

fn stdin_record(id: u16, data: &[u8]) -> Record {
    Record { version: 1, rec_type: 5, request_id: id, content_data: data.to_vec() }
}

#[test]
fn test_assembler_params_only_request() {
    let mut d = Decoder::new();
    assert!(matches!(d.process_record(&begin_record(7)), ProcessOutcome::Continue));
    assert!(matches!(
        d.process_record(&params_record(7, &[("A", "1")])),
        ProcessOutcome::Continue
    ));
    assert!(matches!(
        d.process_record(&params_record(7, &[("B", "2")])),
        ProcessOutcome::Continue
    ));
    match d.process_record(&params_record(7, &[])) {
        ProcessOutcome::Complete(req) => {
            assert!(req.request_done);
            assert!(req.stdin.is_none());
            assert_eq!(req.params.len(), 2);
            assert_eq!(req.get_param(&"A".to_string()).unwrap().as_str(), "1");
            assert_eq!(req.get_param(&"B".to_string()).unwrap().as_str(), "2");
            assert!(req.get_param(&"C".to_string()).is_none());
        },
        _ => panic!("request should be complete"),
    }
    assert!(d.requests.is_empty());
}

#[test]
fn test_assembler_body_request() {
    let mut d = Decoder::new();
    d.process_record(&begin_record(9));
    d.process_record(&params_record(9, &[("CONTENT_LENGTH", "3")]));
    assert!(matches!(d.process_record(&params_record(9, &[])), ProcessOutcome::Continue));
    match d.process_record(&stdin_record(9, &[1, 2, 3])) {
        ProcessOutcome::Complete(req) => {
            assert!(req.request_done);
            assert_eq!(req.stdin, Some(vec![1u8, 2, 3]));
            assert_eq!(req.input_left, 0);
        },
        _ => panic!("request should be complete"),
    }
}

#[test]
fn test_assembler_body_in_pieces() {
    let mut d = Decoder::new();
    d.process_record(&begin_record(4));
    d.process_record(&params_record(4, &[("CONTENT_LENGTH", "4")]));
    d.process_record(&params_record(4, &[]));
    assert!(matches!(d.process_record(&stdin_record(4, &[1, 2])), ProcessOutcome::Continue));
    match d.process_record(&stdin_record(4, &[3, 4])) {
        ProcessOutcome::Complete(req) => {
            assert_eq!(req.stdin, Some(vec![1u8, 2, 3, 4]));
        },
        _ => panic!("request should be complete"),
    }
}

#[test]
fn test_assembler_empty_stdin_completes() {
    let mut d = Decoder::new();
    d.process_record(&begin_record(2));
    d.process_record(&params_record(2, &[("CONTENT_LENGTH", "100")]));
    d.process_record(&params_record(2, &[]));
    match d.process_record(&stdin_record(2, &[])) {
        ProcessOutcome::Complete(req) => {
            assert!(req.request_done);
            assert_eq!(req.stdin, Some(Vec::new()));
        },
        _ => panic!("request should be complete"),
    }
}

#[test]
fn test_abort_unknown_id_is_no_op() {
    let mut d = Decoder::new();
    let abort = Record { version: 1, rec_type: 2, request_id: 42, content_data: Vec::new() };
    match d.process_record(&abort) {
        ProcessOutcome::Reply(r) => {
            assert_eq!(r.rec_type, 3);
            assert_eq!(r.request_id, 42);
            assert_eq!(r.content_data, vec![0u8; 8]);
        },
        _ => panic!("abort should draw an end-request reply"),
    }
    assert!(d.requests.is_empty());
}

#[test]
fn test_abort_discards_pending_request() {
    let mut d = Decoder::new();
    d.process_record(&begin_record(6));
    d.process_record(&params_record(6, &[("A", "1")]));
    let abort = Record { version: 1, rec_type: 2, request_id: 6, content_data: Vec::new() };
    assert!(matches!(d.process_record(&abort), ProcessOutcome::Reply(_)));
    assert!(d.requests.is_empty());
}

#[test]
fn test_out_of_band_record() {
    let mut d = Decoder::new();
    let rec = Record { version: 1, rec_type: 9, request_id: 0, content_data: Vec::new() };
    match d.process_record(&rec) {
        ProcessOutcome::Reply(r) => {
            assert_eq!(r.request_id, 0);
            assert_eq!(r.rec_type, 11);
            assert_eq!(r.content_data, vec![9u8, 0, 0, 0, 0, 0, 0, 0]);
        },
        _ => panic!("out-of-band records draw an unknown-type reply"),
    }
}

#[test]
fn test_unrecognized_type_is_dropped() {
    let mut d = Decoder::new();
    let rec = Record { version: 1, rec_type: 99, request_id: 5, content_data: Vec::new() };
    match d.process_record(&rec) {
        ProcessOutcome::Malformed(e) => {
            assert_eq!(e.message().as_str(), "Unrecognized record type");
        },
        _ => panic!("unrecognized types are dropped"),
    }
    assert!(d.requests.is_empty());
}

#[test]
fn test_data_record_draws_unknown_type_reply() {
    let mut d = Decoder::new();
    let rec = Record { version: 1, rec_type: 8, request_id: 5, content_data: vec![1u8] };
    match d.process_record(&rec) {
        ProcessOutcome::Reply(r) => {
            assert_eq!(r.request_id, 5);
            assert_eq!(r.rec_type, 11);
            assert_eq!(r.content_data, vec![8u8, 0, 0, 0, 0, 0, 0, 0]);
        },
        _ => panic!("data records draw an unknown-type reply"),
    }
}

#[test]
fn test_non_utf8_params_record_is_dropped() {
    let mut d = Decoder::new();
    d.process_record(&begin_record(3));
    let mut content = Vec::new();
    encode_name_value_pair(&mut content, &[0xFFu8, 0xFE], b"v");
    let rec = Record { version: 1, rec_type: 4, request_id: 3, content_data: content };
    assert!(matches!(d.process_record(&rec), ProcessOutcome::Malformed(_)));
}

#[test]
fn test_utf8_params_decoded() {
    let mut d = Decoder::new();
    d.process_record(&begin_record(3));
    d.process_record(&params_record(3, &[("grüß", "søt")]));
    match d.process_record(&params_record(3, &[])) {
        ProcessOutcome::Complete(req) => {
            assert_eq!(req.get_param(&"grüß".to_string()).unwrap().as_str(), "søt");
        },
        _ => panic!("request should be complete"),
    }
}

#[test]
fn test_success_records() {
    let out = success_records(3, b"hello".to_vec());
    assert_eq!(out.len(), 2);
    assert_eq!(out[0].rec_type, 6);
    assert_eq!(out[0].request_id, 3);
    assert_eq!(out[0].content_data, b"hello".to_vec());
    assert_eq!(out[1].rec_type, 3);
    assert_eq!(out[1].request_id, 3);
    assert_eq!(out[1].content_data, vec![0u8; 8]);
}

#[test]
fn test_error_records() {
    let out = error_records(3, "boom");
    assert_eq!(out.len(), 3);
    assert_eq!(out[0].rec_type, 6);
    assert_eq!(out[0].request_id, 3);
    assert_eq!(
        out[0].content_data,
        b"Status: 500 Internal error\r\n\r\n".to_vec()
    );
    assert_eq!(out[1].rec_type, 7);
    assert_eq!(out[1].request_id, 0);
    assert_eq!(out[1].content_data, b"App failed with error: boom".to_vec());
    assert_eq!(out[2].rec_type, 3);
    assert_eq!(out[2].request_id, 3);
}

#[test]
fn test_get_values_result_round_trip() {
    let values = vec![
        NameValuePair::new("FCGI_MAX_CONNS".to_string(), "10".to_string()),
        NameValuePair::new("FCGI_MPXS_CONNS".to_string(), "1".to_string()),
    ];
    let rec = AppRecord::GetValuesResult(values).encode(0).unwrap();
    assert_eq!(rec.rec_type, 10);
    // The encoded pairs decode back as a get-values record with the same
    // names and values.
    let incoming = Record {
        version: 1,
        rec_type: 9,
        request_id: 0,
        content_data: rec.content_data,
    };
    match ServerRecord::decode(&incoming) {
        Ok(ServerRecord::GetValues(ps)) => {
            assert_eq!(ps.len(), 2);
            assert_eq!(ps[0].name, "FCGI_MAX_CONNS");
            assert_eq!(ps[0].value, "10");
            assert_eq!(ps[1].name, "FCGI_MPXS_CONNS");
            assert_eq!(ps[1].value, "1");
        },
        _ => panic!("encoded pairs should decode"),
    }
}

#[test]
fn test_begin_request_decode() {
    let rec = Record { version: 1, rec_type: 1, request_id: 1, content_data: vec![0u8, 1, 0] };
    match ServerRecord::decode(&rec) {
        Ok(ServerRecord::BeginRequest(BeginRequest { role, flags })) => {
            assert_eq!(role, 1);
            assert_eq!(flags, 0);
        },
        _ => panic!("begin request should decode"),
    }
    let short = Record { version: 1, rec_type: 1, request_id: 1, content_data: vec![0u8] };
    assert!(ServerRecord::decode(&short).is_err());
}

#[test]
fn test_duplicate_parameter_names_last_wins() {
    let mut d = Decoder::new();
    d.process_record(&begin_record(8));
    d.process_record(&params_record(8, &[("A", "1"), ("A", "2")]));
    d.process_record(&params_record(8, &[("A", "3")]));
    match d.process_record(&params_record(8, &[])) {
        ProcessOutcome::Complete(req) => {
            assert_eq!(req.params.len(), 1);
            assert_eq!(req.get_param(&"A".to_string()).unwrap().as_str(), "3");
        },
        _ => panic!("request should be complete"),
    }
}
