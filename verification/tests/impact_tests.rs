use callmeout::diff::DiffFile;
use callmeout::impact::{build_prompt, extract_json, normalize_score, parse_analysis_json, SYSTEM_PROMPT};

fn file(path: &str, added: usize, removed: usize) -> DiffFile {
    DiffFile { path: path.to_string(), added_lines: added, removed_lines: removed, hunks: vec![] }
}

#[test]
fn test_build_prompt_includes_file_names() {
    let files = vec![file("src/foo.ts", 5, 2)];
    let prompt = build_prompt(&files, "diff content");
    assert!(prompt.contains("src/foo.ts"));
    assert!(prompt.contains("+5 -2"));
}

#[test]
fn test_build_prompt_truncates_large_diff() {
    let files: Vec<DiffFile> = vec![];
    let prompt = build_prompt(&files, &"x".repeat(5000));
    assert!(prompt.contains("[truncated]"));
}

#[test]
fn test_extract_json_strips_markdown() {
    let wrapped = "```json\n{\"key\": \"val\"}\n```";
    assert_eq!(extract_json(wrapped), "{\"key\": \"val\"}");
}

#[test]
fn test_normalize_score() {
    // Scores are held in hundredths: 30, 60 and 90 are the three bands.
    assert_eq!(normalize_score(5), 30);
    assert_eq!(normalize_score(25), 60);
    assert_eq!(normalize_score(100), 90);
}

// --- normalize_score boundary coverage ---

#[test]
fn test_normalize_score_zero() {
    assert_eq!(normalize_score(0), 30);
}

#[test]
fn test_normalize_score_boundary_ten() {
    // 10 is the last value in the low band.
    assert_eq!(normalize_score(10), 30);
}

#[test]
fn test_normalize_score_boundary_eleven() {
    // 11 is the first value in the mid band.
    assert_eq!(normalize_score(11), 60);
}

#[test]
fn test_normalize_score_boundary_fifty() {
    assert_eq!(normalize_score(50), 60);
}

#[test]
fn test_normalize_score_boundary_fifty_one() {
    assert_eq!(normalize_score(51), 90);
}

// --- extract_json ---

#[test]
fn test_extract_json_returns_raw_when_no_braces() {
    // No '{' → the function must return the full input unchanged.
    let raw = "no json here";
    assert_eq!(extract_json(raw), raw);
}

#[test]
fn test_extract_json_opening_brace_but_no_closing() {
    // Has '{' but no '}' → return full input.
    let raw = "{ oops no close";
    assert_eq!(extract_json(raw), raw);
}

#[test]
fn test_extract_json_with_nested_braces() {
    // Outermost braces should be selected, not inner ones.
    let raw = r#"prefix {"outer": {"inner": 1}} suffix"#;
    assert_eq!(extract_json(raw), r#"{"outer": {"inner": 1}}"#);
}

#[test]
fn test_extract_json_bare_object() {
    // No surrounding noise — should return as-is.
    let raw = r#"{"key":"val"}"#;
    assert_eq!(extract_json(raw), r#"{"key":"val"}"#);
}

// --- build_prompt ---

#[test]
fn test_build_prompt_with_no_files() {
    // Empty file list — prompt should still contain the diff.
    let files: Vec<DiffFile> = vec![];
    let prompt = build_prompt(&files, "diff content here");
    assert!(prompt.contains("diff content here"));
    assert!(prompt.contains("Files changed:"));
}

#[test]
fn test_build_prompt_with_multiple_files() {
    let files = vec![file("a.ts", 1, 0), file("b.rs", 5, 3)];
    let prompt = build_prompt(&files, "diff");
    assert!(prompt.contains("a.ts (+1 -0)"));
    assert!(prompt.contains("b.rs (+5 -3)"));
}

#[test]
fn test_build_prompt_exact_layout() {
    let files = vec![file("a.ts", 1, 0)];
    let prompt = build_prompt(&files, "body");
    assert_eq!(prompt, "Files changed:\na.ts (+1 -0)\n\nDiff:\n```\nbody\n```");
}

#[test]
fn test_build_prompt_truncation_boundary() {
    // Exactly 3000 characters pass through unchanged; 3001 are cut.
    let files: Vec<DiffFile> = vec![];
    let at = build_prompt(&files, &"y".repeat(3000));
    assert!(!at.contains("[truncated]"));
    let over = build_prompt(&files, &"y".repeat(3001));
    assert!(over.contains(&format!("{}...[truncated]", "y".repeat(3000))));
    assert!(!over.contains(&"y".repeat(3001)));
}

// --- parse_analysis_json ---

#[test]
fn test_parse_well_formed_json_extracts_all_fields() {
    let files = vec![file("auth.ts", 5, 2)];
    let json = r#"{"summary":["added input validation"],"risk_level":"med","risk_reasons":["no tests"],"suggested_actions":[{"label":"Add tests","explanation":"Cover new logic"}]}"#;
    let result = parse_analysis_json(json, &files);
    assert_eq!(result.summary, vec!["added input validation"]);
    assert_eq!(result.risk_level, "med");
    assert_eq!(result.risk_reasons, vec!["no tests"]);
    assert_eq!(result.suggested_actions.len(), 1);
    assert_eq!(result.suggested_actions[0].label, "Add tests");
    assert_eq!(result.suggested_actions[0].explanation, "Cover new logic");
}

#[test]
fn test_parse_markdown_fenced_json_is_extracted() {
    let json = "```json\n{\"summary\":[\"refactored auth\"],\"risk_level\":\"high\",\"risk_reasons\":[\"auth logic changed\"],\"suggested_actions\":[]}\n```";
    let result = parse_analysis_json(json, &vec![]);
    assert_eq!(result.risk_level, "high");
    assert_eq!(result.summary, vec!["refactored auth"]);
}

#[test]
fn test_parse_non_json_returns_llm_parse_error_summary() {
    let result = parse_analysis_json("I changed some things in the auth flow.", &vec![]);
    assert_eq!(result.summary, vec!["Changes analyzed (LLM parse error)"]);
    assert_eq!(result.risk_level, "low");
}

#[test]
fn test_parse_empty_text_returns_fallback() {
    let result = parse_analysis_json("", &vec![]);
    assert_eq!(result.summary, vec!["Changes analyzed (LLM parse error)"]);
    assert_eq!(result.risk_level, "low");
}

#[test]
fn test_parse_missing_risk_reasons_defaults_to_empty_vec() {
    let json = r#"{"summary":["fix typo"],"risk_level":"low","suggested_actions":[]}"#;
    let result = parse_analysis_json(json, &vec![]);
    assert!(result.risk_reasons.is_empty());
}

#[test]
fn test_parse_missing_suggested_actions_defaults_to_empty_vec() {
    let json = r#"{"summary":["fix typo"],"risk_level":"low","risk_reasons":[]}"#;
    let result = parse_analysis_json(json, &vec![]);
    assert!(result.suggested_actions.is_empty());
}

#[test]
fn test_parse_high_risk_level_preserved() {
    let json = r#"{"summary":["deleted prod table"],"risk_level":"high","risk_reasons":["data loss"],"suggested_actions":[]}"#;
    let result = parse_analysis_json(json, &vec![]);
    assert_eq!(result.risk_level, "high");
}

#[test]
fn test_parse_json_with_preamble_text_extracts_embedded_json() {
    // Model sometimes outputs prose before the JSON object.
    let raw = r#"Sure, here is my analysis: {"summary":["added logging"],"risk_level":"low","risk_reasons":[],"suggested_actions":[]}"#;
    let result = parse_analysis_json(raw, &vec![]);
    assert_eq!(result.risk_level, "low");
    assert_eq!(result.summary, vec!["added logging"]);
}

#[test]
fn test_parse_impacted_files_scored_by_line_count() {
    let files = vec![file("small.ts", 3, 0), file("mid.rs", 10, 10), file("large.go", 50, 30)];
    let json = r#"{"summary":[],"risk_level":"low","risk_reasons":[],"suggested_actions":[]}"#;
    let result = parse_analysis_json(json, &files);
    assert_eq!(result.impacted_files[0].score, 30); // 3 lines  → low band
    assert_eq!(result.impacted_files[1].score, 60); // 20 lines → mid band
    assert_eq!(result.impacted_files[2].score, 90); // 80 lines → high band
}

#[test]
fn test_parse_impacted_files_why_label_shows_added_and_removed() {
    let files = vec![file("x.ts", 7, 3)];
    let json = r#"{"summary":[],"risk_level":"low","risk_reasons":[],"suggested_actions":[]}"#;
    let result = parse_analysis_json(json, &files);
    assert_eq!(result.impacted_files[0].why, vec!["+7 -3 lines"]);
}

#[test]
fn test_parse_no_files_produces_empty_impacted_list() {
    let json = r#"{"summary":["minor fix"],"risk_level":"low","risk_reasons":[],"suggested_actions":[]}"#;
    let result = parse_analysis_json(json, &vec![]);
    assert!(result.impacted_files.is_empty());
}

#[test]
fn test_parse_confidence_number_is_kept_as_text() {
    let json = r#"{"summary":[],"risk_level":"low","risk_reasons":[],"suggested_actions":[],"confidence":0.9}"#;
    let result = parse_analysis_json(json, &vec![]);
    assert_eq!(result.confidence, "0.9");
}

#[test]
fn test_parse_confidence_defaults_when_missing_or_not_numeric() {
    let json = r#"{"summary":[],"risk_level":"low","risk_reasons":[],"suggested_actions":[]}"#;
    assert_eq!(parse_analysis_json(json, &vec![]).confidence, "0.75");
    let bad = r#"{"summary":[],"risk_level":"low","risk_reasons":[],"suggested_actions":[],"confidence":"high"}"#;
    assert_eq!(parse_analysis_json(bad, &vec![]).confidence, "0.75");
}

#[test]
fn test_parse_action_missing_label_is_dropped_missing_explanation_defaults() {
    let json = r#"{"summary":[],"risk_level":"low","risk_reasons":[],"suggested_actions":[{"explanation":"no label here"},{"label":"Review"}]}"#;
    let result = parse_analysis_json(json, &vec![]);
    assert_eq!(result.suggested_actions.len(), 1);
    assert_eq!(result.suggested_actions[0].label, "Review");
    assert_eq!(result.suggested_actions[0].explanation, "");
}

#[test]
fn test_parse_summary_drops_non_string_entries() {
    let json = r#"{"summary":["keep",7,"also keep"],"risk_level":"low","risk_reasons":[],"suggested_actions":[]}"#;
    let result = parse_analysis_json(json, &vec![]);
    assert_eq!(result.summary, vec!["keep", "also keep"]);
}

#[test]
fn test_parse_impacted_symbols_always_empty() {
    let json = r#"{"summary":[],"risk_level":"low","risk_reasons":[],"suggested_actions":[]}"#;
    let result = parse_analysis_json(json, &vec![file("a.ts", 1, 1)]);
    assert!(result.impacted_symbols.is_empty());
}

// --- SYSTEM_PROMPT structure ---

#[test]
fn test_system_prompt_contains_all_risk_level_values() {
    assert!(SYSTEM_PROMPT.contains("low"), "prompt must mention 'low'");
    assert!(SYSTEM_PROMPT.contains("med"), "prompt must mention 'med'");
    assert!(SYSTEM_PROMPT.contains("high"), "prompt must mention 'high'");
}

#[test]
fn test_system_prompt_contains_required_output_keys() {
    assert!(SYSTEM_PROMPT.contains("risk_level"), "prompt must include 'risk_level'");
    assert!(SYSTEM_PROMPT.contains("summary"), "prompt must include 'summary'");
    assert!(SYSTEM_PROMPT.contains("suggested_actions"), "prompt must include 'suggested_actions'");
}
