//! The per-line decision logic of a connection: what one received line asks
//! for, what to log, and whether to answer at once or to run the one
//! blocking inference call first. The surrounding loop — reading lines,
//! writing responses, running the call off the connection's own control flow
//! — performs these decisions without adding any of its own.

use vstd::prelude::*;

verus! {

use vstd::string::*;
use crate::diff::{DiffFile, FileModel, parse_diff, spec_parse_diff};
use crate::impact::{
    SYSTEM_PROMPT, prompt_of, build_prompt, parse_analysis_json, spec_analysis, why_of,
};
use crate::protocol::{
    AnalysisResult, AnalysisModel, ImpactedFile, ImpactedFileModel, Request, RequestModel,
    Response, spec_parse_request, parse_request,
};
use crate::text::{spec_trim, trim_str, dec_str, dec_of};

/// One record for the audit collaborator, to be written before the request
/// is served.
pub struct AuditEvent {
    pub event_type: String,
    pub payload: String,
}

/// What to do for one received line: answer at once, or run the blocking
/// inference call on the prepared prompts and then finish with
/// `finish_inference`.
pub enum PlanStep {
    Respond(Response),
    Infer { system_prompt: String, user_prompt: String, files: Vec<DiffFile> },
}

/// The full plan for one received line.
pub struct LinePlan {
    pub audit: Option<AuditEvent>,
    pub step: PlanStep,
}

/// The deterministic result served when no inference backend is configured:
/// a stub summary naming the file count, low risk with the one reason, a
/// fixed mid band score per file, and zero confidence.
pub open spec fn stub_impacted(f: FileModel) -> ImpactedFileModel {
    ImpactedFileModel { path: f.path, score: 50, why: seq![why_of(f)] }
}

/// The whole stub analysis for a parsed diff.
pub open spec fn stub_model(files: Seq<FileModel>) -> AnalysisModel {
    AnalysisModel {
        summary: seq![
            "Stub: "@ + dec_str(files.len() as int) + " file(s) changed"@,
            "Set CACTUS_MODEL_PATH to enable real analysis"@,
        ],
        risk_level: "low"@,
        risk_reasons: seq!["LLM not loaded"@],
        impacted_files: files.map_values(|f: FileModel| stub_impacted(f)),
        impacted_symbols: Seq::empty(),
        suggested_actions: Seq::empty(),
        confidence: "0.0"@,
    }
}

fn stub_impacted_of(f: &DiffFile) -> (r: ImpactedFile)
    ensures
        r@ == stub_impacted(f@),
{
    let mut why_s = String::from_str("+");
    let a = dec_of(f.added_lines);
    why_s.append(a.as_str());
    why_s.append(" -");
    let b = dec_of(f.removed_lines);
    why_s.append(b.as_str());
    why_s.append(" lines");
    proof {
        assert(why_s@ =~= why_of(f@));
    }
    let mut why: Vec<String> = Vec::new();
    why.push(why_s);
    let r = ImpactedFile { path: f.path.clone(), score: 50, why };
    proof {
        assert(r@.why =~= seq![why_of(f@)]);
        assert(r@ =~~= stub_impacted(f@));
    }
    r
}

/// Builds the stub analysis for a parsed diff, proved against `stub_model`.
pub fn stub_analysis(files: &Vec<DiffFile>) -> (r: AnalysisResult)
    ensures
        r@ == stub_model(files.deep_view()),
{
    let ghost fv = files.deep_view();
    let mut impacted: Vec<ImpactedFile> = Vec::new();
    let mut i: usize = 0;
    while i < files.len()
        invariant
            0 <= i <= files.len(),
            fv == files.deep_view(),
            impacted.deep_view().len() == i,
            forall|k: int| 0 <= k < i ==> #[trigger] impacted.deep_view()[k] == stub_impacted(fv[k]),
        decreases files.len() - i,
    {
        proof {
            assert(fv[i as int] == files@[i as int].deep_view());
        }
        let e = stub_impacted_of(&files[i]);
        let ghost em = e@;
        let ghost prev = impacted@;
        let ghost prevdv = impacted.deep_view();
        impacted.push(e);
        proof {
            assert(em == stub_impacted(fv[i as int]));
            assert forall|k: int| 0 <= k <= i implies #[trigger] impacted.deep_view()[k]
                == stub_impacted(fv[k]) by {
                assert(impacted.deep_view()[k] == impacted@[k].deep_view());
                if k < i {
                    assert(prevdv[k] == stub_impacted(fv[k]));
                    assert(prevdv[k] == prev[k].deep_view());
                    assert(impacted@[k] == prev[k]);
                } else {
                    assert(impacted@[k].deep_view() == em);
                }
            }
        }
        i += 1;
    }
    proof {
        assert(impacted.deep_view() =~= fv.map_values(|f: FileModel| stub_impacted(f)));
    }
    let mut first = String::from_str("Stub: ");
    let cnt = dec_of(files.len());
    first.append(cnt.as_str());
    first.append(" file(s) changed");
    let mut summary: Vec<String> = Vec::new();
    summary.push(first);
    summary.push(String::from_str("Set CACTUS_MODEL_PATH to enable real analysis"));
    let mut risk_reasons: Vec<String> = Vec::new();
    risk_reasons.push(String::from_str("LLM not loaded"));
    let r = AnalysisResult {
        summary,
        risk_level: String::from_str("low"),
        risk_reasons,
        impacted_files: impacted,
        impacted_symbols: Vec::new(),
        suggested_actions: Vec::new(),
        confidence: String::from_str("0.0"),
    };
    proof {
        assert(r@ =~~= stub_model(fv));
    }
    r
}

/// What a correct plan for one non-blank line holds: a parse failure is
/// answered with an error naming the reason; `ping` with `pong` and no
/// blocking work and no audit record; `analyze_diff` records one audit event
/// naming the active file, parses the diff, and either prepares the prompts
/// for the inference call (backend configured) or answers with the stub
/// analysis at once.
pub open spec fn plan_ok(line: Seq<char>, backend_available: bool, p: LinePlan) -> bool {
    let t = spec_trim(line);
    match spec_parse_request(t) {
        Err(e) => {
            &&& p.audit is None
            &&& p.step matches PlanStep::Respond(Response::Error { message }) && message@
                == "parse error: "@ + e.spec_message()
        },
        Ok(RequestModel::Ping) => {
            &&& p.audit is None
            &&& p.step matches PlanStep::Respond(Response::Pong)
        },
        Ok(RequestModel::AnalyzeDiff(pl)) => {
            &&& p.audit matches Some(a) && a.event_type@ == "analyze_diff"@ && a.payload@
                == pl.active_file
            &&& ({
                let files = spec_parse_diff(pl.diff);
                if backend_available {
                    p.step matches PlanStep::Infer { system_prompt, user_prompt, files: fs }
                        && system_prompt@ == SYSTEM_PROMPT@ && user_prompt@ == prompt_of(
                        files,
                        pl.diff,
                    ) && fs.deep_view() == files
                } else {
                    p.step matches PlanStep::Respond(Response::AnalysisResult(res)) && res@
                        == stub_model(files)
                }
            })
        },
    }
}

/// Decides one received line: `None` skips a blank line without a response;
/// otherwise the returned plan satisfies `plan_ok`.
pub fn plan_line(line: &str, backend_available: bool) -> (r: Option<LinePlan>)
    ensures
        r is None <==> spec_trim(line@).len() == 0,
        r matches Some(p) ==> plan_ok(line@, backend_available, p),
{
    let trimmed = trim_str(line);
    if trimmed.as_str().is_empty() {
        return None;
    }
    match parse_request(trimmed.as_str()) {
        Err(e) => {
            let mut msg = String::from_str("parse error: ");
            let em = e.message();
            msg.append(em.as_str());
            Some(LinePlan { audit: None, step: PlanStep::Respond(Response::Error { message: msg }) })
        },
        Ok(Request::Ping) => Some(
            LinePlan { audit: None, step: PlanStep::Respond(Response::Pong) },
        ),
        Ok(Request::AnalyzeDiff(payload)) => {
            let audit = AuditEvent {
                event_type: String::from_str("analyze_diff"),
                payload: payload.active_file.clone(),
            };
            let files = parse_diff(payload.diff.as_str());
            if backend_available {
                let user_prompt = build_prompt(&files, payload.diff.as_str());
                Some(
                    LinePlan {
                        audit: Some(audit),
                        step: PlanStep::Infer {
                            system_prompt: String::from_str(SYSTEM_PROMPT),
                            user_prompt,
                            files,
                        },
                    },
                )
            } else {
                let res = stub_analysis(&files);
                Some(
                    LinePlan {
                        audit: Some(audit),
                        step: PlanStep::Respond(Response::AnalysisResult(res)),
                    },
                )
            }
        },
    }
}

/// Finishes an `analyze_diff` request once the blocking call has come back:
/// completion text is extracted into an analysis over the request's own
/// change records; a failure message is passed through as an error response.
pub fn finish_inference(outcome: Result<String, String>, files: &Vec<DiffFile>) -> (r: Response)
    ensures
        match outcome {
            Ok(text) => r matches Response::AnalysisResult(a) && a@ == spec_analysis(
                text@,
                files.deep_view(),
            ),
            Err(m) => r matches Response::Error { message } && message@ == m@,
        },
{
    match outcome {
        Ok(text) => Response::AnalysisResult(parse_analysis_json(text.as_str(), files)),
        Err(m) => Response::Error { message: m },
    }
}

} // verus!
