use callmeout::protocol::{parse_request, Request, RequestError};

#[test]
fn test_deserialize_ping() {
    let raw = r#"{"type":"ping","payload":null}"#;
    let req = parse_request(raw).unwrap();
    assert!(matches!(req, Request::Ping));
}

#[test]
fn test_deserialize_analyze_diff() {
    let raw = r#"{"type":"analyze_diff","payload":{"diff":"--- a/foo.ts\n+++ b/foo.ts","files_touched":["foo.ts"],"active_file":"foo.ts","trigger":"save"}}"#;
    let req = parse_request(raw).unwrap();
    assert!(matches!(req, Request::AnalyzeDiff(_)));
}

#[test]
fn test_deserialize_invalid_json_returns_error() {
    let bad = "not json at all";
    let result = parse_request(bad);
    assert!(result.is_err());
    assert_eq!(result.unwrap_err(), RequestError::InvalidJson);
}

#[test]
fn test_deserialize_unknown_type_returns_error() {
    // Valid JSON but type field is unrecognised.
    let bad = r#"{"type":"unknown_command","payload":{}}"#;
    let result = parse_request(bad);
    assert!(result.is_err());
    assert_eq!(result.unwrap_err(), RequestError::UnknownType);
}

#[test]
fn test_analyze_diff_payload_all_fields_accessible() {
    let raw = r#"{"type":"analyze_diff","payload":{"diff":"the diff","files_touched":["a.ts","b.ts"],"active_file":"a.ts","trigger":"save"}}"#;
    let req = parse_request(raw).unwrap();
    if let Request::AnalyzeDiff(payload) = req {
        assert_eq!(payload.diff, "the diff");
        assert_eq!(payload.files_touched, vec!["a.ts", "b.ts"]);
        assert_eq!(payload.active_file, "a.ts");
        assert_eq!(payload.trigger, "save");
    } else {
        panic!("expected AnalyzeDiff");
    }
}

#[test]
fn test_deserialize_ping_without_payload_field() {
    let raw = r#"{"type":"ping"}"#;
    let req = parse_request(raw).unwrap();
    assert!(matches!(req, Request::Ping));
}

#[test]
fn test_deserialize_ping_with_nonnull_payload_is_rejected() {
    let raw = r#"{"type":"ping","payload":{"extra":1}}"#;
    assert_eq!(parse_request(raw).unwrap_err(), RequestError::BadPayload);
}

#[test]
fn test_deserialize_analyze_diff_missing_field_is_rejected() {
    // No `trigger` in the payload.
    let raw = r#"{"type":"analyze_diff","payload":{"diff":"d","files_touched":[],"active_file":"a"}}"#;
    assert_eq!(parse_request(raw).unwrap_err(), RequestError::BadPayload);
}

#[test]
fn test_deserialize_analyze_diff_non_string_file_entry_is_rejected() {
    let raw = r#"{"type":"analyze_diff","payload":{"diff":"d","files_touched":["ok",3],"active_file":"a","trigger":"save"}}"#;
    assert_eq!(parse_request(raw).unwrap_err(), RequestError::BadPayload);
}

#[test]
fn test_deserialize_missing_type_field_is_rejected() {
    let raw = r#"{"payload":null}"#;
    assert_eq!(parse_request(raw).unwrap_err(), RequestError::UnknownType);
}

#[test]
fn test_request_error_messages_name_the_reason() {
    assert_eq!(RequestError::InvalidJson.message(), "request line is not valid JSON");
    assert_eq!(RequestError::UnknownType.message(), "unrecognized request type");
    assert_eq!(RequestError::BadPayload.message(), "invalid request payload");
}
