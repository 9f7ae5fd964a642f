use callmeout::backend::{build_inference_messages, json_escape, read_backend_envelope};

#[test]
fn test_envelope_success_yields_completion_text() {
    let raw = r#"{"success":true,"response":"looks fine"}"#;
    assert_eq!(read_backend_envelope(raw).unwrap(), "looks fine");
}

#[test]
fn test_envelope_invalid_json_is_an_error() {
    let raw = "garbage from the backend";
    let err = read_backend_envelope(raw).unwrap_err();
    assert_eq!(err, "failed to parse backend response JSON: garbage from the backend");
}

#[test]
fn test_envelope_failure_carries_embedded_error() {
    let raw = r#"{"success":false,"error":"model overloaded"}"#;
    let err = read_backend_envelope(raw).unwrap_err();
    assert_eq!(err, "backend returned failure: model overloaded");
}

#[test]
fn test_envelope_failure_without_error_field() {
    let raw = r#"{"success":false}"#;
    let err = read_backend_envelope(raw).unwrap_err();
    assert_eq!(err, "backend returned failure: unknown error");
}

#[test]
fn test_envelope_non_boolean_success_is_a_failure() {
    let raw = r#"{"success":"yes","response":"text"}"#;
    assert!(read_backend_envelope(raw).is_err());
}

#[test]
fn test_envelope_success_without_response_field() {
    let raw = r#"{"success":true}"#;
    let err = read_backend_envelope(raw).unwrap_err();
    assert_eq!(err, "backend response missing 'response' field: {\"success\":true}");
}

#[test]
fn test_json_escape_leaves_plain_text_alone() {
    assert_eq!(json_escape("plain words"), "plain words");
}

#[test]
fn test_json_escape_escapes_quotes_backslashes_and_controls() {
    assert_eq!(json_escape("say \"hi\"\\\n"), "say \\\"hi\\\"\\\\\\n");
    assert_eq!(json_escape("\t\r\u{8}\u{c}"), "\\t\\r\\b\\f");
    assert_eq!(json_escape("\u{1}\u{1f}"), "\\u0001\\u001f");
}

#[test]
fn test_messages_json_shape() {
    let m = build_inference_messages("be brief", "analyze \"this\"");
    assert_eq!(
        m,
        "[{\"content\":\"be brief\",\"role\":\"system\"},{\"content\":\"analyze \\\"this\\\"\",\"role\":\"user\"}]"
    );
}

#[test]
fn test_messages_json_matches_a_reference_serializer() {
    // The wire form must stay a valid JSON array of two messages.
    let m = build_inference_messages("a\nb", "c");
    let v: serde_json::Value = serde_json::from_str(&m).unwrap();
    assert_eq!(v[0]["role"], "system");
    assert_eq!(v[0]["content"], "a\nb");
    assert_eq!(v[1]["role"], "user");
    assert_eq!(v[1]["content"], "c");
}
