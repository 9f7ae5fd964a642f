//! The request and response shapes of the daemon's newline-delimited JSON
//! protocol, and the decoding of one request line.
//!
//! Scores and the confidence value travel as JSON numbers on the wire; the
//! verified core holds a score as an integer count of hundredths (so `30`
//! stands for three tenths) and the confidence as the JSON number text
//! itself, and the unverified rim converts when serializing.

use vstd::prelude::*;

verus! {

use vstd::string::*;
use crate::jsonio::{
    absent_or_null, doc_parses, str_field, arr_len, json_absent_or_null, json_doc_parses,
    json_str_field, json_arr_len,
};
use crate::impact::{str_items_upto, json_str_array};
use crate::text::str_eq;

/// One suggested follow-up action of an analysis.
#[derive(Debug, Clone)]
pub struct SuggestedAction {
    pub label: String,
    pub explanation: String,
}

/// Mathematical model of a `SuggestedAction`.
#[verifier::ext_equal]
pub struct ActionModel {
    pub label: Seq<char>,
    pub explanation: Seq<char>,
}

impl View for SuggestedAction {
    type V = ActionModel;

    open spec fn view(&self) -> ActionModel {
        ActionModel { label: self.label@, explanation: self.explanation@ }
    }
}

impl DeepView for SuggestedAction {
    type V = ActionModel;

    open spec fn deep_view(&self) -> ActionModel {
        self@
    }
}

/// One file of an analysis, with its deterministic risk band. The score is
/// held in hundredths: `30`, `60` and `90` are the three bands, `50` the
/// stub-mode value.
#[derive(Debug, Clone)]
pub struct ImpactedFile {
    pub path: String,
    pub score: u32,
    pub why: Vec<String>,
}

/// Mathematical model of an `ImpactedFile`.
#[verifier::ext_equal]
pub struct ImpactedFileModel {
    pub path: Seq<char>,
    pub score: int,
    pub why: Seq<Seq<char>>,
}

impl View for ImpactedFile {
    type V = ImpactedFileModel;

    open spec fn view(&self) -> ImpactedFileModel {
        ImpactedFileModel { path: self.path@, score: self.score as int, why: self.why.deep_view() }
    }
}

impl DeepView for ImpactedFile {
    type V = ImpactedFileModel;

    open spec fn deep_view(&self) -> ImpactedFileModel {
        self@
    }
}

/// One symbol of an analysis. Symbol-level analysis is out of the core's
/// scope, so the list of these stays empty; the shape exists for the wire
/// format. The score is held in hundredths.
#[derive(Debug, Clone)]
pub struct ImpactedSymbol {
    pub name: String,
    pub kind: String,
    pub file: String,
    pub score: u32,
}

/// Mathematical model of an `ImpactedSymbol`.
#[verifier::ext_equal]
pub struct SymbolModel {
    pub name: Seq<char>,
    pub kind: Seq<char>,
    pub file: Seq<char>,
    pub score: int,
}

impl View for ImpactedSymbol {
    type V = SymbolModel;

    open spec fn view(&self) -> SymbolModel {
        SymbolModel {
            name: self.name@,
            kind: self.kind@,
            file: self.file@,
            score: self.score as int,
        }
    }
}

impl DeepView for ImpactedSymbol {
    type V = SymbolModel;

    open spec fn deep_view(&self) -> SymbolModel {
        self@
    }
}

/// A structured change analysis. `confidence` holds the JSON number text of
/// the confidence value (`"0.75"` when the model reported none).
#[derive(Debug, Clone)]
pub struct AnalysisResult {
    pub summary: Vec<String>,
    pub risk_level: String,
    pub risk_reasons: Vec<String>,
    pub impacted_files: Vec<ImpactedFile>,
    pub impacted_symbols: Vec<ImpactedSymbol>,
    pub suggested_actions: Vec<SuggestedAction>,
    pub confidence: String,
}

/// Mathematical model of an `AnalysisResult`.
#[verifier::ext_equal]
pub struct AnalysisModel {
    pub summary: Seq<Seq<char>>,
    pub risk_level: Seq<char>,
    pub risk_reasons: Seq<Seq<char>>,
    pub impacted_files: Seq<ImpactedFileModel>,
    pub impacted_symbols: Seq<SymbolModel>,
    pub suggested_actions: Seq<ActionModel>,
    pub confidence: Seq<char>,
}

impl View for AnalysisResult {
    type V = AnalysisModel;

    open spec fn view(&self) -> AnalysisModel {
        AnalysisModel {
            summary: self.summary.deep_view(),
            risk_level: self.risk_level@,
            risk_reasons: self.risk_reasons.deep_view(),
            impacted_files: self.impacted_files.deep_view(),
            impacted_symbols: self.impacted_symbols.deep_view(),
            suggested_actions: self.suggested_actions.deep_view(),
            confidence: self.confidence@,
        }
    }
}

impl DeepView for AnalysisResult {
    type V = AnalysisModel;

    open spec fn deep_view(&self) -> AnalysisModel {
        self@
    }
}

/// The payload of an `analyze_diff` request.
#[derive(Debug)]
pub struct AnalyzeDiffPayload {
    pub diff: String,
    pub files_touched: Vec<String>,
    pub active_file: String,
    pub trigger: String,
}

/// Mathematical model of an `AnalyzeDiffPayload`.
#[verifier::ext_equal]
pub struct PayloadModel {
    pub diff: Seq<char>,
    pub files_touched: Seq<Seq<char>>,
    pub active_file: Seq<char>,
    pub trigger: Seq<char>,
}

impl View for AnalyzeDiffPayload {
    type V = PayloadModel;

    open spec fn view(&self) -> PayloadModel {
        PayloadModel {
            diff: self.diff@,
            files_touched: self.files_touched.deep_view(),
            active_file: self.active_file@,
            trigger: self.trigger@,
        }
    }
}

/// A decoded request.
#[derive(Debug)]
pub enum Request {
    Ping,
    AnalyzeDiff(AnalyzeDiffPayload),
}

/// Mathematical model of a `Request`.
pub enum RequestModel {
    Ping,
    AnalyzeDiff(PayloadModel),
}

impl View for Request {
    type V = RequestModel;

    open spec fn view(&self) -> RequestModel {
        match self {
            Request::Ping => RequestModel::Ping,
            Request::AnalyzeDiff(p) => RequestModel::AnalyzeDiff(p@),
        }
    }
}

/// A response, as the connection loop writes it back.
#[derive(Debug)]
pub enum Response {
    Pong,
    AnalysisResult(AnalysisResult),
    Error { message: String },
}

/// Mathematical model of a `Response`.
pub enum ResponseModel {
    Pong,
    AnalysisResult(AnalysisModel),
    Error { message: Seq<char> },
}

impl View for Response {
    type V = ResponseModel;

    open spec fn view(&self) -> ResponseModel {
        match self {
            Response::Pong => ResponseModel::Pong,
            Response::AnalysisResult(a) => ResponseModel::AnalysisResult(a@),
            Response::Error { message } => ResponseModel::Error { message: message@ },
        }
    }
}

/// Why a request line was rejected.
#[derive(Clone, Copy, Debug, PartialEq, Eq)]
pub enum RequestError {
    InvalidJson,
    UnknownType,
    BadPayload,
}

impl RequestError {
    /// The words of this rejection, as they appear in the error response.
    pub open spec fn spec_message(self) -> Seq<char> {
        match self {
            RequestError::InvalidJson => "request line is not valid JSON"@,
            RequestError::UnknownType => "unrecognized request type"@,
            RequestError::BadPayload => "invalid request payload"@,
        }
    }

    /// Renders the rejection, proved against `spec_message`.
    pub fn message(&self) -> (r: String)
        ensures
            r@ == self.spec_message(),
    {
        match self {
            RequestError::InvalidJson => String::from_str("request line is not valid JSON"),
            RequestError::UnknownType => String::from_str("unrecognized request type"),
            RequestError::BadPayload => String::from_str("invalid request payload"),
        }
    }
}

/// What decoding a request line yields: a `ping` must carry no payload (or
/// `null`); an `analyze_diff` needs its four payload fields, with every
/// touched file a string; anything else is rejected with the reason.
pub open spec fn spec_parse_request(s: Seq<char>) -> Result<RequestModel, RequestError> {
    if !doc_parses(s) {
        Err(RequestError::InvalidJson)
    } else {
        match str_field(s, "/type"@) {
            None => Err(RequestError::UnknownType),
            Some(ty) => {
                if ty == "ping"@ {
                    if absent_or_null(s, "/payload"@) {
                        Ok(RequestModel::Ping)
                    } else {
                        Err(RequestError::BadPayload)
                    }
                } else if ty == "analyze_diff"@ {
                    spec_parse_payload(s)
                } else {
                    Err(RequestError::UnknownType)
                }
            },
        }
    }
}

/// The payload fields of an `analyze_diff` request, each required.
pub open spec fn spec_parse_payload(s: Seq<char>) -> Result<RequestModel, RequestError> {
    let d = str_field(s, "/payload/diff"@);
    let n = arr_len(s, "/payload/files_touched"@);
    let af = str_field(s, "/payload/active_file"@);
    let tr = str_field(s, "/payload/trigger"@);
    if d is Some && n is Some && af is Some && tr is Some {
        let items = str_items_upto(s, "/payload/files_touched"@, n->0);
        if items.len() == n->0 {
            Ok(
                RequestModel::AnalyzeDiff(
                    PayloadModel {
                        diff: d->0,
                        files_touched: items,
                        active_file: af->0,
                        trigger: tr->0,
                    },
                ),
            )
        } else {
            Err(RequestError::BadPayload)
        }
    } else {
        Err(RequestError::BadPayload)
    }
}

/// Decodes one request line, proved against `spec_parse_request`.
pub fn parse_request(line: &str) -> (r: Result<Request, RequestError>)
    ensures
        match r {
            Ok(req) => spec_parse_request(line@) == Ok::<RequestModel, RequestError>(req@),
            Err(e) => spec_parse_request(line@) == Err::<RequestModel, RequestError>(e),
        },
{
    if !json_doc_parses(line) {
        return Err(RequestError::InvalidJson);
    }
    let ty = match json_str_field(line, "/type") {
        None => {
            return Err(RequestError::UnknownType);
        },
        Some(t) => t,
    };
    if str_eq(ty.as_str(), "ping") {
        if json_absent_or_null(line, "/payload") {
            Ok(Request::Ping)
        } else {
            Err(RequestError::BadPayload)
        }
    } else if str_eq(ty.as_str(), "analyze_diff") {
        let d = json_str_field(line, "/payload/diff");
        let n = json_arr_len(line, "/payload/files_touched");
        let af = json_str_field(line, "/payload/active_file");
        let tr = json_str_field(line, "/payload/trigger");
        match (d, n, af, tr) {
            (Some(diff), Some(len), Some(active_file), Some(trigger)) => {
                let items = match json_str_array(line, "/payload/files_touched") {
                    Some(v) => v,
                    None => {
                        proof {
                            assert(false);
                        }
                        Vec::new()
                    },
                };
                if items.len() == len {
                    let req = Request::AnalyzeDiff(
                        AnalyzeDiffPayload { diff, files_touched: items, active_file, trigger },
                    );
                    proof {
                        assert(spec_parse_request(line@) == Ok::<RequestModel, RequestError>(
                            req@,
                        ));
                    }
                    Ok(req)
                } else {
                    Err(RequestError::BadPayload)
                }
            },
            _ => Err(RequestError::BadPayload),
        }
    } else {
        Err(RequestError::UnknownType)
    }
}

} // verus!
