//! Tests of the controller client: command formatting, reply correlation
//! and resynchronization, and error-code mapping.

use helvar_cgi::helvar_client::{
    error_from_reply, parse_u32_reply, ReplyEvent, ReplyMatcher, Router,
};
use helvar_cgi::helvar_device_type::HelvarDeviceType;
use helvar_cgi::helvar_error::HelvarError;
use helvar_cgi::wrapper_error::WrapperError;

#[test]
fn test_helvar_error() {
    let e = HelvarError::from_code(8);
    println!("{}", e.message());
    assert_eq!(e.message().as_str(), "Invalid scene parameter");
    let e2 = HelvarError::from_error(e.message());
    println!("{}", e2.message());

    let e = HelvarError::from_code(18);
    println!("{}", e.message());
    assert_eq!(e.message().as_str(), "Unknown error code 18");
    let e2 = HelvarError::from_error(e.message());
    println!("{}", e2.message());
    println!("{}", e2.source().unwrap());
    assert_eq!(e2.source().unwrap().as_str(), "Unknown error code 18");
}

#[test]
fn test_error_code_mapping() {
    assert!(matches!(HelvarError::from_code(0), HelvarError::Success));
    assert!(matches!(HelvarError::from_code(1), HelvarError::InvalidGroupIndex));
    assert!(matches!(HelvarError::from_code(2), HelvarError::InvalidCluster));
    assert!(matches!(HelvarError::from_code(3), HelvarError::InvalidRouter));
    assert!(matches!(HelvarError::from_code(4), HelvarError::InvalidSubnet));
    assert!(matches!(HelvarError::from_code(5), HelvarError::InvalidDevice));
    assert!(matches!(HelvarError::from_code(6), HelvarError::InvalidSubdevice));
    assert!(matches!(HelvarError::from_code(7), HelvarError::InvalidBlock));
    assert!(matches!(HelvarError::from_code(8), HelvarError::InvalidScene));
    assert!(matches!(HelvarError::from_code(9), HelvarError::NoSuchCluster));
    assert!(matches!(HelvarError::from_code(10), HelvarError::NoSuchRouter));
    assert!(matches!(HelvarError::from_code(11), HelvarError::NoSuchDevice));
    assert!(matches!(HelvarError::from_code(12), HelvarError::NoSuchProperty));
    assert!(matches!(HelvarError::from_code(13), HelvarError::InvalidRawMessageSize));
    assert!(matches!(HelvarError::from_code(14), HelvarError::InvalidMessagesType));
    assert!(matches!(HelvarError::from_code(15), HelvarError::InvalidMessageCommand));
    assert!(matches!(HelvarError::from_code(16), HelvarError::UnknownErrorCode(16)));
}

#[test]
fn test_wrapper_error_keeps_cause() {
    let w = WrapperError::new("Failed to query device type", HelvarError::Timeout);
    assert!(matches!(w.source(), HelvarError::Timeout));
    assert_eq!(w.message().as_str(), "Failed to query device type: Timeout");
}

#[test]
fn test_command_format() {
    let r = Router::new([10, 0, 0, 1]);
    assert_eq!(
        r.query_device_type_cmd(1, 5).as_slice(),
        &b"?V:3,C:104,@10.0.0.1.1.5#"[..]
    );
    assert_eq!(
        r.query_load_level_cmd(2, 64).as_slice(),
        &b"?V:3,C:152,@10.0.0.1.2.64#"[..]
    );
    assert_eq!(
        r.query_device_description_cmd(1, 7).as_slice(),
        &b"?V:3,C:106,@10.0.0.1.1.7#"[..]
    );
    assert_eq!(
        r.set_direct_level_device_cmd(1, 5, 120, 70).as_slice(),
        &b"?V:3,C:14,L:120,F:70,@10.0.0.1.1.5#"[..]
    );
}

#[test]
fn test_query_reply_success() {
    // A success reply echoing the command yields its payload.
    let cmd = b"?V:1,C:104,@1.2.3.4.1.5#".to_vec();
    let mut m = ReplyMatcher::new(cmd);
    match m.feed(b"?V:1,C:104,@1.2.3.4.1.5=6#") {
        ReplyEvent::Success(payload) => {
            assert_eq!(payload, b"6".to_vec());
            match parse_u32_reply(&payload) {
                Ok(v) => assert_eq!(v, 6),
                Err(_) => panic!("payload should parse"),
            }
        },
        _ => panic!("reply should match"),
    }
}

#[test]
fn test_query_reply_error_code() {
    let cmd = b"?V:1,C:104,@1.2.3.4.1.5#".to_vec();
    let mut m = ReplyMatcher::new(cmd);
    match m.feed(b"!V:1,C:104,@1.2.3.4.1.5=11#") {
        ReplyEvent::Failure(payload) => {
            assert_eq!(payload, b"11".to_vec());
            assert!(matches!(error_from_reply(&payload), HelvarError::NoSuchDevice));
        },
        _ => panic!("error reply should match"),
    }
}

#[test]
fn test_reply_resynchronization() {
    // Noise before the marker is skipped, a non-matching line is discarded,
    // and scanning resumes at the next marker.
    let cmd = b"?V:1,C:104,@1.2.3.4.1.5#".to_vec();
    let mut m = ReplyMatcher::new(cmd);
    assert!(matches!(m.feed(b"garbage 123 "), ReplyEvent::Pending));
    assert!(matches!(m.feed(b"?V:1,C:999,@9.9.9.9.9.9=1#junk"), ReplyEvent::Pending));
    match m.feed(b"?V:1,C:104,@1.2.3.4.1.5=42#") {
        ReplyEvent::Success(payload) => assert_eq!(payload, b"42".to_vec()),
        _ => panic!("matching reply should be found after resync"),
    }
}

#[test]
fn test_reply_split_across_chunks() {
    let cmd = b"?V:1,C:104,@1.2.3.4.1.5#".to_vec();
    let mut m = ReplyMatcher::new(cmd);
    assert!(matches!(m.feed(b"?V:1,C:104,@1."), ReplyEvent::Pending));
    assert!(matches!(m.feed(b"2.3.4.1.5="), ReplyEvent::Pending));
    match m.feed(b"257#") {
        ReplyEvent::Success(payload) => assert_eq!(payload, b"257".to_vec()),
        _ => panic!("split reply should still match"),
    }
}

#[test]
fn test_parse_reply_forms() {
    match parse_u32_reply(b"+42") {
        Ok(v) => assert_eq!(v, 42),
        Err(_) => panic!("plus-prefixed number should parse"),
    }
    assert!(matches!(parse_u32_reply(b""), Err(HelvarError::Other(_))));
    assert!(matches!(parse_u32_reply(b"6x"), Err(HelvarError::Other(_))));
    assert!(matches!(parse_u32_reply(b"4294967296"), Err(HelvarError::Other(_))));
    match parse_u32_reply(b"4294967295") {
        Ok(v) => assert_eq!(v, u32::MAX),
        Err(_) => panic!("u32::MAX should parse"),
    }
    assert!(matches!(error_from_reply(b"notanumber"), HelvarError::Other(_)));
}

#[test]
fn test_is_load_classification() {
    assert!(HelvarDeviceType::from(0x0101).is_load());
    assert!(HelvarDeviceType::from(0x0801).is_load());
    assert!(!HelvarDeviceType::from(0x0901).is_load());
    assert!(HelvarDeviceType::from(0x0208).is_load());
    assert!(!HelvarDeviceType::from(0x0308).is_load());
    assert!(!HelvarDeviceType::from(0x0005).is_load());
}
