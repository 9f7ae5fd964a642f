//! Turning change records and model text into an analysis: the bounded
//! prompt builder, the risk-band scorer, and the resilient extractor that
//! reads free-form model output into a typed result with per-field defaults
//! and a fixed fallback when the text holds no JSON document at all.

use vstd::prelude::*;

verus! {

use vstd::string::*;
use crate::diff::{DiffFile, FileModel};
use crate::jsonio::{
    doc_parses, str_field, num_field, arr_len, json_doc_parses, json_str_field, json_num_field,
    json_arr_len,
};
use crate::protocol::{
    AnalysisResult, AnalysisModel, ImpactedFile, ImpactedFileModel, SuggestedAction, ActionModel,
};
use crate::text::{
    dec_str, dec_of, is_first_char_at, is_last_char_at, has_char, first_char_at, last_char_at,
    lemma_first_char_at, lemma_last_char_at, find_char, rfind_char,
};

/// The instruction handed to the inference backend ahead of every analysis
/// request.
pub const SYSTEM_PROMPT: &'static str = "You are a code analyst. Output ONLY a JSON object. No markdown. No explanation. Example output:\n{\"summary\":[\"added input validation\"],\"risk_level\":\"low\",\"risk_reasons\":[],\"suggested_actions\":[{\"label\":\"Add tests\",\"explanation\":\"Cover new validation logic\"}]}\nRules: risk_level is low, med, or high. summary max 3 items. suggested_actions max 3 items.";

/// The risk band for a total line-change volume, in hundredths: up to 10
/// changed lines score 30, up to 50 score 60, anything larger scores 90.
pub open spec fn spec_score(total: int) -> int {
    if total <= 10 {
        30int
    } else if total <= 50 {
        60int
    } else {
        90int
    }
}

/// Maps a total changed-line count to its risk band, in hundredths.
pub fn normalize_score(lines: usize) -> (r: u32)
    ensures
        r as int == spec_score(lines as int),
{
    if lines <= 10 {
        30
    } else if lines <= 50 {
        60
    } else {
        90
    }
}

/// The JSON candidate inside free-form model text: the inclusive span from
/// the first `{` to the last `}` when both exist in that order, otherwise
/// the text unchanged.
pub open spec fn candidate_of(s: Seq<char>) -> Seq<char> {
    if has_char(s, '{') && has_char(s, '}') && first_char_at(s, '{') <= last_char_at(s, '}') {
        s.subrange(first_char_at(s, '{'), last_char_at(s, '}') + 1)
    } else {
        s
    }
}

/// Isolates the JSON candidate in model text, proved against
/// `candidate_of`. Strips markdown fences and surrounding prose whenever
/// braces are present.
pub fn extract_json<'a>(raw: &'a str) -> (r: &'a str)
    ensures
        r@ == candidate_of(raw@),
{
    let n: usize = raw.unicode_len();
    match find_char(raw, '{') {
        None => raw,
        Some(i) => {
            match rfind_char(raw, '}') {
                None => raw,
                Some(j) => {
                    assert(j < n);
                    proof {
                        lemma_first_char_at(raw@, '{', i as int);
                        lemma_last_char_at(raw@, '}', j as int);
                    }
                    if i <= j {
                        raw.substring_char(i, j + 1)
                    } else {
                        raw
                    }
                },
            }
        },
    }
}

/// Prose before a JSON object, prose after it, or a markdown fence around
/// it never changes what is isolated: as long as the lead-in holds no `{`
/// and the tail no `}`, the candidate is the object itself, exactly as it
/// would be for the bare object.
pub proof fn lemma_extract_isolates(u: Seq<char>, obj: Seq<char>, v: Seq<char>)
    requires
        obj.len() > 0,
        obj.first() == '{',
        obj.last() == '}',
        forall|i: int| 0 <= i < u.len() ==> u[i] != '{',
        forall|i: int| 0 <= i < v.len() ==> v[i] != '}',
    ensures
        candidate_of(u + obj + v) == obj,
        candidate_of(obj) == obj,
{
    let s = u + obj + v;
    assert(obj.len() >= 2);
    let a = u.len() as int;
    let b = a + obj.len() - 1;
    assert(s[a] == obj.first());
    assert(s[b] == obj.last());
    assert(is_first_char_at(s, '{', a)) by {
        assert(forall|j: int| 0 <= j < a ==> s[j] == u[j]);
    }
    assert(is_last_char_at(s, '}', b)) by {
        assert(forall|j: int| b < j < s.len() ==> s[j] == v[j - a - obj.len()]);
    }
    lemma_first_char_at(s, '{', a);
    lemma_last_char_at(s, '}', b);
    assert(s.subrange(a, b + 1) =~= obj);
    assert(is_first_char_at(obj, '{', 0));
    assert(is_last_char_at(obj, '}', obj.len() - 1));
    lemma_first_char_at(obj, '{', 0);
    lemma_last_char_at(obj, '}', obj.len() - 1);
    assert(obj.subrange(0, obj.len() as int) =~= obj);
}

/// One line of the prompt's file summary.
pub open spec fn file_line(f: FileModel) -> Seq<char> {
    f.path + " (+"@ + dec_str(f.added_lines) + " -"@ + dec_str(f.removed_lines) + ")"@
}

/// The file-summary lines joined with newlines.
pub open spec fn files_joined(files: Seq<FileModel>) -> Seq<char>
    decreases files.len(),
{
    if files.len() == 0 {
        Seq::empty()
    } else if files.len() == 1 {
        file_line(files[0])
    } else {
        files_joined(files.drop_last()) + "\n"@ + file_line(files.last())
    }
}

/// The diff body bounded to 3000 characters, with a marker appended when it
/// was cut.
pub open spec fn excerpt_of(raw: Seq<char>) -> Seq<char> {
    if raw.len() > 3000 {
        raw.take(3000) + "...[truncated]"@
    } else {
        raw
    }
}

/// The full prompt: the file summary, then the bounded diff in a fenced
/// block.
pub open spec fn prompt_of(files: Seq<FileModel>, raw: Seq<char>) -> Seq<char> {
    "Files changed:\n"@ + files_joined(files) + "\n\nDiff:\n```\n"@ + excerpt_of(raw) + "\n```"@
}

fn file_line_of(f: &DiffFile) -> (r: String)
    ensures
        r@ == file_line(f@),
{
    let mut s = String::from_str(f.path.as_str());
    s.append(" (+");
    let a = dec_of(f.added_lines);
    s.append(a.as_str());
    s.append(" -");
    let b = dec_of(f.removed_lines);
    s.append(b.as_str());
    s.append(")");
    proof {
        assert(s@ =~= file_line(f@));
    }
    s
}

/// Builds the natural-language request for the backend, proved against
/// `prompt_of`. Deterministic; the diff body is bounded, the file list is
/// not.
pub fn build_prompt(files: &Vec<DiffFile>, raw_diff: &str) -> (r: String)
    ensures
        r@ == prompt_of(files.deep_view(), raw_diff@),
{
    let ghost fv = files.deep_view();
    let mut joined = String::new();
    let mut i: usize = 0;
    while i < files.len()
        invariant
            0 <= i <= files.len(),
            fv == files.deep_view(),
            joined@ == files_joined(fv.take(i as int)),
        decreases files.len() - i,
    {
        let fl = file_line_of(&files[i]);
        if i > 0 {
            joined.append("\n");
        }
        joined.append(fl.as_str());
        proof {
            assert(fv.take(i + 1).drop_last() =~= fv.take(i as int));
            assert(fv.take(i + 1).last() == fv[i as int]);
            assert(fv[i as int] == files@[i as int].deep_view());
            if i == 0 {
                assert(fv.take(1)[0] == fv[0]);
                assert(joined@ =~= files_joined(fv.take(1)));
            } else {
                assert(joined@ =~= files_joined(fv.take(i + 1)));
            }
        }
        i += 1;
    }
    proof {
        assert(fv.take(files@.len() as int) =~= fv);
    }
    let mut out = String::from_str("Files changed:\n");
    out.append(joined.as_str());
    out.append("\n\nDiff:\n```\n");
    let n = raw_diff.unicode_len();
    if n > 3000 {
        out.append(raw_diff.substring_char(0, 3000));
        out.append("...[truncated]");
        proof {
            assert(raw_diff@.take(3000) =~= raw_diff@.subrange(0, 3000));
        }
    } else {
        out.append(raw_diff);
    }
    out.append("\n```");
    proof {
        assert(out@ =~= prompt_of(fv, raw_diff@));
    }
    out
}

/// The JSON pointer to element `i` of the array at `base`.
pub open spec fn item_ptr(base: Seq<char>, i: int) -> Seq<char> {
    base + "/"@ + dec_str(i)
}

/// The string elements among the first `n` of the array at `base`,
/// non-strings dropped.
pub open spec fn str_items_upto(c: Seq<char>, base: Seq<char>, n: int) -> Seq<Seq<char>>
    decreases n,
{
    if n <= 0 {
        Seq::empty()
    } else {
        str_items_upto(c, base, n - 1) + match str_field(c, item_ptr(base, n - 1)) {
            None => Seq::<Seq<char>>::empty(),
            Some(x) => seq![x],
        }
    }
}

/// The action entries among the first `n` of the array at `base`: entries
/// without a string `label` are dropped, a missing `explanation` defaults to
/// the empty string.
pub open spec fn actions_upto(c: Seq<char>, base: Seq<char>, n: int) -> Seq<ActionModel>
    decreases n,
{
    if n <= 0 {
        Seq::empty()
    } else {
        actions_upto(c, base, n - 1) + match str_field(c, item_ptr(base, n - 1) + "/label"@) {
            None => Seq::<ActionModel>::empty(),
            Some(lab) => seq![
                ActionModel {
                    label: lab,
                    explanation: match str_field(c, item_ptr(base, n - 1) + "/explanation"@) {
                        None => Seq::<char>::empty(),
                        Some(e) => e,
                    },
                },
            ],
        }
    }
}

fn item_pointer(base: &str, i: usize) -> (r: String)
    ensures
        r@ == item_ptr(base@, i as int),
{
    let mut p = String::from_str(base);
    p.append("/");
    let d = dec_of(i);
    p.append(d.as_str());
    proof {
        assert(p@ =~= item_ptr(base@, i as int));
    }
    p
}

/// Reads the array of strings at `base`, dropping non-string elements;
/// `None` when the field is missing or not an array.
pub fn json_str_array(doc: &str, base: &str) -> (r: Option<Vec<String>>)
    ensures
        match arr_len(doc@, base@) {
            None => r is None,
            Some(n) => r matches Some(v) && v.deep_view() == str_items_upto(doc@, base@, n),
        },
{
    match json_arr_len(doc, base) {
        None => None,
        Some(n) => {
            let mut out: Vec<String> = Vec::new();
            let mut i: usize = 0;
            proof {
                assert(out.deep_view() =~= str_items_upto(doc@, base@, 0));
            }
            while i < n
                invariant
                    0 <= i <= n,
                    arr_len(doc@, base@) == Some(n as int),
                    out.deep_view() == str_items_upto(doc@, base@, i as int),
                decreases n - i,
            {
                let p = item_pointer(base, i);
                match json_str_field(doc, p.as_str()) {
                    Some(sv) => {
                        out.push(sv);
                    },
                    None => {},
                }
                proof {
                    assert(out.deep_view() =~= str_items_upto(doc@, base@, i as int + 1));
                }
                i += 1;
            }
            Some(out)
        },
    }
}

/// Reads the array of suggested actions at `base`; `None` when the field is
/// missing or not an array.
fn json_actions(doc: &str, base: &str) -> (r: Option<Vec<SuggestedAction>>)
    ensures
        match arr_len(doc@, base@) {
            None => r is None,
            Some(n) => r matches Some(v) && v.deep_view() == actions_upto(doc@, base@, n),
        },
{
    match json_arr_len(doc, base) {
        None => None,
        Some(n) => {
            let mut out: Vec<SuggestedAction> = Vec::new();
            let mut i: usize = 0;
            proof {
                assert(out.deep_view() =~= actions_upto(doc@, base@, 0));
            }
            while i < n
                invariant
                    0 <= i <= n,
                    arr_len(doc@, base@) == Some(n as int),
                    out.deep_view() == actions_upto(doc@, base@, i as int),
                decreases n - i,
            {
                let p = item_pointer(base, i);
                let mut lp = p.clone();
                lp.append("/label");
                proof {
                    assert(lp@ =~= item_ptr(base@, i as int) + "/label"@);
                }
                match json_str_field(doc, lp.as_str()) {
                    None => {},
                    Some(lab) => {
                        let mut ep = p;
                        ep.append("/explanation");
                        proof {
                            assert(ep@ =~= item_ptr(base@, i as int) + "/explanation"@);
                        }
                        let expl = match json_str_field(doc, ep.as_str()) {
                            Some(e) => e,
                            None => String::new(),
                        };
                        out.push(SuggestedAction { label: lab, explanation: expl });
                    },
                }
                proof {
                    assert(out.deep_view() =~= actions_upto(doc@, base@, i as int + 1));
                }
                i += 1;
            }
            Some(out)
        },
    }
}

/// The extracted summary lines: the fixed fallback line when the candidate
/// is no JSON document, the fixed completion line when `summary` is missing
/// or not an array, else its string elements.
pub open spec fn spec_summary(c: Seq<char>) -> Seq<Seq<char>> {
    if !doc_parses(c) {
        seq!["Changes analyzed (LLM parse error)"@]
    } else {
        match arr_len(c, "/summary"@) {
            None => seq!["Analysis complete"@],
            Some(n) => str_items_upto(c, "/summary"@, n),
        }
    }
}

/// The extracted risk level, defaulting to `low`.
pub open spec fn spec_risk_level(c: Seq<char>) -> Seq<char> {
    if !doc_parses(c) {
        "low"@
    } else {
        match str_field(c, "/risk_level"@) {
            None => "low"@,
            Some(s) => s,
        }
    }
}

/// The extracted risk reasons, defaulting to none.
pub open spec fn spec_risk_reasons(c: Seq<char>) -> Seq<Seq<char>> {
    if !doc_parses(c) {
        Seq::empty()
    } else {
        match arr_len(c, "/risk_reasons"@) {
            None => Seq::empty(),
            Some(n) => str_items_upto(c, "/risk_reasons"@, n),
        }
    }
}

/// The extracted suggested actions, defaulting to none.
pub open spec fn spec_actions(c: Seq<char>) -> Seq<ActionModel> {
    if !doc_parses(c) {
        Seq::empty()
    } else {
        match arr_len(c, "/suggested_actions"@) {
            None => Seq::empty(),
            Some(n) => actions_upto(c, "/suggested_actions"@, n),
        }
    }
}

/// The extracted confidence as JSON number text, defaulting to `0.75` when
/// absent or not a number.
pub open spec fn spec_confidence(c: Seq<char>) -> Seq<char> {
    if !doc_parses(c) {
        "0.75"@
    } else {
        match num_field(c, "/confidence"@) {
            None => "0.75"@,
            Some(x) => x,
        }
    }
}

/// The deterministic `why` note for a file's impact entry.
pub open spec fn why_of(f: FileModel) -> Seq<char> {
    "+"@ + dec_str(f.added_lines) + " -"@ + dec_str(f.removed_lines) + " lines"@
}

/// The impact entry derived from one change record — never from model
/// output.
pub open spec fn impacted_of(f: FileModel) -> ImpactedFileModel {
    ImpactedFileModel {
        path: f.path,
        score: spec_score(f.added_lines + f.removed_lines),
        why: seq![why_of(f)],
    }
}

/// The full extraction: every text field read from the candidate inside the
/// model text with per-field defaults, the impact entries computed from the
/// change records alone, symbols always empty.
pub open spec fn spec_analysis(t: Seq<char>, files: Seq<FileModel>) -> AnalysisModel {
    let c = candidate_of(t);
    AnalysisModel {
        summary: spec_summary(c),
        risk_level: spec_risk_level(c),
        risk_reasons: spec_risk_reasons(c),
        impacted_files: files.map_values(|f: FileModel| impacted_of(f)),
        impacted_symbols: Seq::empty(),
        suggested_actions: spec_actions(c),
        confidence: spec_confidence(c),
    }
}

fn impacted_file_of(f: &DiffFile) -> (r: ImpactedFile)
    ensures
        r@ == impacted_of(f@),
{
    let total = if f.added_lines <= usize::MAX - f.removed_lines {
        f.added_lines + f.removed_lines
    } else {
        usize::MAX
    };
    let sc = normalize_score(total);
    proof {
        assert(sc as int == spec_score(f@.added_lines + f@.removed_lines));
    }
    let mut why_s = String::from_str("+");
    let a = dec_of(f.added_lines);
    why_s.append(a.as_str());
    why_s.append(" -");
    let b = dec_of(f.removed_lines);
    why_s.append(b.as_str());
    why_s.append(" lines");
    proof {
        assert(why_s@ =~= why_of(f@));
    }
    let mut why: Vec<String> = Vec::new();
    why.push(why_s);
    let r = ImpactedFile { path: f.path.clone(), score: sc, why };
    proof {
        assert(r@.why =~= seq![why_of(f@)]);
        assert(r@ =~~= impacted_of(f@));
    }
    r
}

/// Turns model text into an analysis. Never fails: text without a JSON
/// document yields the fixed fallback fields, and each field of a parsed
/// document defaults independently. The impact entries come from `files`
/// alone, one per record, in order.
pub fn parse_analysis_json(text: &str, files: &Vec<DiffFile>) -> (r: AnalysisResult)
    ensures
        r@ == spec_analysis(text@, files.deep_view()),
{
    let candidate = extract_json(text);
    let ghost fv = files.deep_view();
    let mut impacted: Vec<ImpactedFile> = Vec::new();
    let mut i: usize = 0;
    proof {
        assert(impacted.deep_view() =~= fv.take(0).map_values(|f: FileModel| impacted_of(f)));
    }
    while i < files.len()
        invariant
            0 <= i <= files.len(),
            fv == files.deep_view(),
            impacted.deep_view().len() == i,
            forall|k: int| 0 <= k < i ==> #[trigger] impacted.deep_view()[k] == impacted_of(fv[k]),
        decreases files.len() - i,
    {
        proof {
            assert(fv[i as int] == files@[i as int].deep_view());
        }
        let e = impacted_file_of(&files[i]);
        let ghost em = e@;
        let ghost prev = impacted@;
        let ghost prevdv = impacted.deep_view();
        impacted.push(e);
        proof {
            assert(em == impacted_of(fv[i as int]));
            assert forall|k: int| 0 <= k <= i implies #[trigger] impacted.deep_view()[k]
                == impacted_of(fv[k]) by {
                assert(impacted.deep_view()[k] == impacted@[k].deep_view());
                if k < i {
                    assert(prevdv[k] == impacted_of(fv[k]));
                    assert(prevdv[k] == prev[k].deep_view());
                    assert(impacted@[k] == prev[k]);
                } else {
                    assert(impacted@[k].deep_view() == em);
                }
            }
        }
        i += 1;
    }
    proof {
        assert(impacted.deep_view() =~= fv.map_values(|f: FileModel| impacted_of(f)));
    }
    if !json_doc_parses(candidate) {
        let mut summary: Vec<String> = Vec::new();
        summary.push(String::from_str("Changes analyzed (LLM parse error)"));
        let r = AnalysisResult {
            summary,
            risk_level: String::from_str("low"),
            risk_reasons: Vec::new(),
            impacted_files: impacted,
            impacted_symbols: Vec::new(),
            suggested_actions: Vec::new(),
            confidence: String::from_str("0.75"),
        };
        proof {
            assert(r@ =~~= spec_analysis(text@, fv));
        }
        r
    } else {
        let summary = match json_str_array(candidate, "/summary") {
            Some(v) => v,
            None => {
                let mut v: Vec<String> = Vec::new();
                v.push(String::from_str("Analysis complete"));
                v
            },
        };
        let risk_level = match json_str_field(candidate, "/risk_level") {
            Some(s) => s,
            None => String::from_str("low"),
        };
        let risk_reasons = match json_str_array(candidate, "/risk_reasons") {
            Some(v) => v,
            None => Vec::new(),
        };
        let suggested_actions = match json_actions(candidate, "/suggested_actions") {
            Some(v) => v,
            None => Vec::new(),
        };
        let confidence = match json_num_field(candidate, "/confidence") {
            Some(s) => s,
            None => String::from_str("0.75"),
        };
        let r = AnalysisResult {
            summary,
            risk_level,
            risk_reasons,
            impacted_files: impacted,
            impacted_symbols: Vec::new(),
            suggested_actions,
            confidence,
        };
        proof {
            assert(r@ =~~= spec_analysis(text@, fv));
        }
        r
    }
}

/// The impact entries of an analysis always match the change records one to
/// one: same length, same order, same paths, the band score of each record's
/// own line counts — whatever the model text holds.
pub proof fn lemma_impacted_matches_files(t: Seq<char>, files: Seq<FileModel>)
    ensures
        spec_analysis(t, files).impacted_files.len() == files.len(),
        forall|i: int|
            0 <= i < files.len() ==> #[trigger] spec_analysis(t, files).impacted_files[i]
                == impacted_of(files[i]),
{
}

/// Text in which no JSON document can be found — prose, the empty text —
/// yields exactly the documented fallback fields, and still one impact
/// entry per change record.
pub proof fn lemma_extract_fallback(t: Seq<char>, files: Seq<FileModel>)
    requires
        !doc_parses(candidate_of(t)),
    ensures
        spec_analysis(t, files).summary == seq!["Changes analyzed (LLM parse error)"@],
        spec_analysis(t, files).risk_level == "low"@,
        spec_analysis(t, files).risk_reasons == Seq::<Seq<char>>::empty(),
        spec_analysis(t, files).suggested_actions == Seq::<ActionModel>::empty(),
        spec_analysis(t, files).confidence == "0.75"@,
        spec_analysis(t, files).impacted_files.len() == files.len(),
{
}

/// A candidate that parses with every field present reproduces each field
/// exactly: the string elements of `summary` and `risk_reasons`, the
/// `risk_level` string, each labelled action with its explanation, and the
/// confidence number's text.
pub proof fn lemma_extract_reproduces_fields(t: Seq<char>, files: Seq<FileModel>)
    requires
        doc_parses(candidate_of(t)),
    ensures
        ({
            let c = candidate_of(t);
            let r = spec_analysis(t, files);
            &&& (arr_len(c, "/summary"@) matches Some(n) ==> r.summary == str_items_upto(
                c,
                "/summary"@,
                n,
            ))
            &&& (str_field(c, "/risk_level"@) matches Some(s) ==> r.risk_level == s)
            &&& (arr_len(c, "/risk_reasons"@) matches Some(n) ==> r.risk_reasons
                == str_items_upto(c, "/risk_reasons"@, n))
            &&& (arr_len(c, "/suggested_actions"@) matches Some(n) ==> r.suggested_actions
                == actions_upto(c, "/suggested_actions"@, n))
            &&& (num_field(c, "/confidence"@) matches Some(x) ==> r.confidence == x)
        }),
{
}

} // verus!
