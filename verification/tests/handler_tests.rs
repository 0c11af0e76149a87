//! Tests of request-parameter interpretation.

use helvar_cgi::handler::{
    json_content_type_header, parse_level_query, parse_path_info, HandlerParseError, PathScope,
};

#[test]
fn test_path_scopes() {
    assert!(matches!(parse_path_info(""), Ok(PathScope::Root)));
    assert!(matches!(parse_path_info("5"), Ok(PathScope::Subnet(5))));
    assert!(matches!(parse_path_info("/5"), Ok(PathScope::Subnet(5))));
    assert!(matches!(parse_path_info("1/2"), Ok(PathScope::Device(1, 2))));
    assert!(matches!(parse_path_info("/1/2"), Ok(PathScope::Device(1, 2))));
    // Segments after the address are ignored.
    assert!(matches!(parse_path_info("/1/2/9"), Ok(PathScope::Device(1, 2))));
}

#[test]
fn test_path_errors() {
    assert!(matches!(parse_path_info("/"), Err(HandlerParseError::SubnetIndex)));
    assert!(matches!(parse_path_info("abc"), Err(HandlerParseError::SubnetIndex)));
    assert!(matches!(parse_path_info("/x/2"), Err(HandlerParseError::SubnetIndex)));
    assert!(matches!(parse_path_info("/1/x"), Err(HandlerParseError::Address)));
    assert!(matches!(parse_path_info("/1/"), Err(HandlerParseError::Address)));
}

#[test]
fn test_level_query() {
    match parse_level_query("level=128") {
        Ok(Some(v)) => assert_eq!(v, 128),
        _ => panic!("level=128 should parse"),
    }
    match parse_level_query("level=0") {
        Ok(Some(v)) => assert_eq!(v, 0),
        _ => panic!("level=0 should parse"),
    }
    assert!(matches!(parse_level_query("level=255"), Ok(Some(255))));
    assert!(matches!(parse_level_query("level=256"), Err(HandlerParseError::Level)));
    assert!(matches!(parse_level_query("level="), Err(HandlerParseError::Level)));
    assert!(matches!(parse_level_query("level=abc"), Err(HandlerParseError::Level)));
    assert!(matches!(parse_level_query("brightness=4"), Ok(None)));
    assert!(matches!(parse_level_query(""), Ok(None)));
}

#[test]
fn test_parse_error_messages() {
    assert_eq!(
        HandlerParseError::SubnetIndex.message().as_str(),
        "Failed to parse subnet index"
    );
    assert_eq!(HandlerParseError::Address.message().as_str(), "Failed to parse address");
    assert_eq!(HandlerParseError::Level.message().as_str(), "Failed to parse level");
}

#[test]
fn test_json_header() {
    assert_eq!(
        json_content_type_header().as_str(),
        "Content-type: application/json\r\n\r\n"
    );
}
