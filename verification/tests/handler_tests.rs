use callmeout::handler::{finish_inference, plan_line, stub_analysis, LinePlan, PlanStep};
use callmeout::diff::{parse_diff, DiffFile};
use callmeout::protocol::Response;

fn must_plan(line: &str, backend: bool) -> LinePlan {
    plan_line(line, backend).expect("expected a plan for a non-blank line")
}

#[test]
fn test_plan_ping_yields_pong_without_backend_work() {
    // A ping on a fresh connection answers pong at once: no audit record,
    // no inference step, whether or not a backend is configured.
    for backend in [false, true] {
        let plan = must_plan("{\"type\":\"ping\",\"payload\":null}\n", backend);
        assert!(plan.audit.is_none());
        assert!(matches!(plan.step, PlanStep::Respond(Response::Pong)));
    }
}

#[test]
fn test_plan_blank_line_is_skipped() {
    assert!(plan_line("", false).is_none());
    assert!(plan_line("   \n", false).is_none());
    assert!(plan_line("\t\n", true).is_none());
}

#[test]
fn test_plan_malformed_line_yields_error_and_connection_stays_usable() {
    // A malformed request line produces an error response naming the parse
    // failure; the next line is handled normally.
    let plan = must_plan("this is not json\n", false);
    assert!(plan.audit.is_none());
    match plan.step {
        PlanStep::Respond(Response::Error { message }) => {
            assert!(message.contains("parse error"));
        }
        _ => panic!("expected an error response"),
    }
    let next = must_plan("{\"type\":\"ping\",\"payload\":null}\n", false);
    assert!(matches!(next.step, PlanStep::Respond(Response::Pong)));
}

#[test]
fn test_plan_analyze_diff_without_backend_yields_stub_result() {
    // A single-file diff with 2 additions and 1 removal, no backend: the
    // deterministic stub result with one mid-band impact entry.
    let line = r#"{"type":"analyze_diff","payload":{"diff":"diff --git a/s.ts b/s.ts\n--- a/s.ts\n+++ b/s.ts\n@@ -1,2 +1,3 @@\n-gone\n+one\n+two\n","files_touched":["s.ts"],"active_file":"s.ts","trigger":"save"}}"#;
    let plan = must_plan(line, false);
    let audit = plan.audit.expect("analyze_diff must be audited");
    assert_eq!(audit.event_type, "analyze_diff");
    assert_eq!(audit.payload, "s.ts");
    match plan.step {
        PlanStep::Respond(Response::AnalysisResult(res)) => {
            assert_eq!(res.summary[0], "Stub: 1 file(s) changed");
            assert_eq!(res.summary[1], "Set CACTUS_MODEL_PATH to enable real analysis");
            assert_eq!(res.risk_level, "low");
            assert_eq!(res.risk_reasons, vec!["LLM not loaded"]);
            assert_eq!(res.confidence, "0.0");
            assert_eq!(res.impacted_files.len(), 1);
            assert_eq!(res.impacted_files[0].path, "s.ts");
            assert_eq!(res.impacted_files[0].score, 50);
            assert_eq!(res.impacted_files[0].why, vec!["+2 -1 lines"]);
            assert!(res.suggested_actions.is_empty());
            assert!(res.impacted_symbols.is_empty());
        }
        _ => panic!("expected a stub analysis response"),
    }
}

#[test]
fn test_plan_analyze_diff_with_backend_prepares_inference() {
    let line = r#"{"type":"analyze_diff","payload":{"diff":"diff --git a/s.ts b/s.ts\n@@ -1 +1 @@\n+x\n","files_touched":["s.ts"],"active_file":"s.ts","trigger":"save"}}"#;
    let plan = must_plan(line, true);
    assert!(plan.audit.is_some());
    match plan.step {
        PlanStep::Infer { system_prompt, user_prompt, files } => {
            assert!(system_prompt.contains("JSON object"));
            assert!(user_prompt.contains("s.ts (+1 -0)"));
            assert!(user_prompt.contains("diff --git a/s.ts b/s.ts"));
            assert_eq!(files.len(), 1);
            assert_eq!(files[0].path, "s.ts");
        }
        _ => panic!("expected an inference step"),
    }
}

#[test]
fn test_stub_analysis_counts_files() {
    let files = parse_diff(
        "diff --git a/a.ts b/a.ts\n@@ -1 +1 @@\n+x\ndiff --git a/b.ts b/b.ts\n@@ -1 +1 @@\n-y\n",
    );
    let res = stub_analysis(&files);
    assert_eq!(res.summary[0], "Stub: 2 file(s) changed");
    assert_eq!(res.impacted_files.len(), 2);
    assert_eq!(res.impacted_files[0].why, vec!["+1 -0 lines"]);
    assert_eq!(res.impacted_files[1].why, vec!["+0 -1 lines"]);
}

#[test]
fn test_finish_inference_extracts_completion_text() {
    let files: Vec<DiffFile> = vec![];
    let outcome = Ok(r#"{"summary":["tidied"],"risk_level":"med","risk_reasons":[],"suggested_actions":[]}"#.to_string());
    match finish_inference(outcome, &files) {
        Response::AnalysisResult(res) => {
            assert_eq!(res.summary, vec!["tidied"]);
            assert_eq!(res.risk_level, "med");
        }
        _ => panic!("expected an analysis response"),
    }
}

#[test]
fn test_finish_inference_passes_failure_through() {
    let files: Vec<DiffFile> = vec![];
    match finish_inference(Err("backend returned failure: overloaded".to_string()), &files) {
        Response::Error { message } => {
            assert_eq!(message, "backend returned failure: overloaded");
        }
        _ => panic!("expected an error response"),
    }
}
