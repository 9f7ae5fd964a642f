use callmeout::protocol::{
    AnalysisResult, ImpactedFile, Response, SuggestedAction,
};
use callmeout::wire::{serialize_action, serialize_impacted_file, serialize_response};

#[test]
fn test_serialize_pong() {
    let resp = Response::Pong;
    let json = serialize_response(&resp);
    assert!(json.contains("pong"));
}

#[test]
fn test_serialize_error_response() {
    let resp = Response::Error { message: "something broke".to_string() };
    let json = serialize_response(&resp);
    let val: serde_json::Value = serde_json::from_str(&json).unwrap();
    assert_eq!(val["type"], "error");
    assert_eq!(val["payload"]["message"], "something broke");
}

#[test]
fn test_serialize_analysis_result() {
    let result = Response::AnalysisResult(AnalysisResult {
        summary: vec!["changed auth flow".to_string()],
        risk_level: "high".to_string(),
        risk_reasons: vec!["touches tokens".to_string()],
        impacted_files: vec![],
        impacted_symbols: vec![],
        suggested_actions: vec![],
        confidence: "0.9".to_string(),
    });
    let json = serialize_response(&result);
    let val: serde_json::Value = serde_json::from_str(&json).unwrap();
    assert_eq!(val["type"], "analysis_result");
    assert_eq!(val["payload"]["risk_level"], "high");
    assert_eq!(val["payload"]["confidence"], 0.9);
}

#[test]
fn test_impacted_file_serializes_correctly() {
    let f = ImpactedFile {
        path: "src/auth.rs".to_string(),
        score: 90,
        why: vec!["big change".to_string()],
    };
    let json = serialize_impacted_file(&f);
    let val: serde_json::Value = serde_json::from_str(&json).unwrap();
    assert_eq!(val["path"], "src/auth.rs");
    assert_eq!(val["score"], 0.9);
    assert_eq!(val["why"][0], "big change");
}

#[test]
fn test_suggested_action_serializes_correctly() {
    let action = SuggestedAction {
        label: "Add tests".to_string(),
        explanation: "This path has no coverage".to_string(),
    };
    let json = serialize_action(&action);
    let val: serde_json::Value = serde_json::from_str(&json).unwrap();
    assert_eq!(val["label"], "Add tests");
    assert_eq!(val["explanation"], "This path has no coverage");
}

#[test]
fn test_serialize_escapes_message_text() {
    let resp = Response::Error { message: "line\nbreak \"quoted\"".to_string() };
    let json = serialize_response(&resp);
    let val: serde_json::Value = serde_json::from_str(&json).unwrap();
    assert_eq!(val["payload"]["message"], "line\nbreak \"quoted\"");
}

#[test]
fn test_serialize_full_result_round_trips_through_a_parser() {
    let result = Response::AnalysisResult(AnalysisResult {
        summary: vec!["a".to_string(), "b".to_string()],
        risk_level: "med".to_string(),
        risk_reasons: vec![],
        impacted_files: vec![ImpactedFile {
            path: "x.ts".to_string(),
            score: 30,
            why: vec!["+1 -0 lines".to_string()],
        }],
        impacted_symbols: vec![],
        suggested_actions: vec![SuggestedAction {
            label: "Review".to_string(),
            explanation: "".to_string(),
        }],
        confidence: "0.75".to_string(),
    });
    let json = serialize_response(&result);
    let val: serde_json::Value = serde_json::from_str(&json).unwrap();
    let payload = &val["payload"];
    assert_eq!(payload["summary"].as_array().unwrap().len(), 2);
    assert_eq!(payload["summary"][0], "a");
    assert_eq!(payload["summary"][1], "b");
    assert_eq!(payload["impacted_files"][0]["score"], 0.3);
    assert_eq!(payload["impacted_files"][0]["why"][0], "+1 -0 lines");
    assert_eq!(payload["suggested_actions"][0]["label"], "Review");
    assert!(payload["impacted_symbols"].as_array().unwrap().is_empty());
    assert_eq!(payload["confidence"], 0.75);
}

#[test]
fn test_serialize_malformed_confidence_text_falls_back() {
    let result = Response::AnalysisResult(AnalysisResult {
        summary: vec![],
        risk_level: "low".to_string(),
        risk_reasons: vec![],
        impacted_files: vec![],
        impacted_symbols: vec![],
        suggested_actions: vec![],
        confidence: "not a number".to_string(),
    });
    let json = serialize_response(&result);
    let val: serde_json::Value = serde_json::from_str(&json).unwrap();
    assert_eq!(val["payload"]["confidence"], 0.75);
}
