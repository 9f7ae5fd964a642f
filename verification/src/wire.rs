//! The serialized wire form of responses: one compact JSON object per
//! response, with the payload fields in their declared order. Scores held in
//! hundredths appear as decimal numbers; the confidence number text is
//! spliced in after a check that it really is one number, so the frame stays
//! well-formed whatever the result holds.

use vstd::prelude::*;

verus! {

use vstd::string::*;
use crate::backend::{json_escaped, json_escape};
use crate::jsonio::{num_field, json_num_field};
use crate::protocol::{
    ActionModel, AnalysisModel, AnalysisResult, ImpactedFile, ImpactedFileModel, ImpactedSymbol,
    Response, ResponseModel, SuggestedAction, SymbolModel,
};
use crate::text::{dec_str, dec_of, push_char};

/// The JSON string literal for `s`.
pub open spec fn str_lit(s: Seq<char>) -> Seq<char> {
    seq!['"'] + json_escaped(s) + seq!['"']
}

/// The decimal rendering of a score held in hundredths: an integer part, a
/// point, and the shortest fraction (`30` renders as `0.3`, `75` as `0.75`,
/// `100` as `1.0`).
pub open spec fn score_text(n: int) -> Seq<char> {
    let m = if n < 0 {
        0
    } else {
        n
    };
    let f = m % 100;
    dec_str(m / 100) + seq!['.'] + (if f % 10 == 0 {
        dec_str(f / 10)
    } else if f < 10 {
        seq!['0'] + dec_str(f)
    } else {
        dec_str(f)
    })
}

fn score_text_of(n: u32) -> (r: String)
    ensures
        r@ == score_text(n as int),
{
    let mut out = dec_of((n / 100) as usize);
    push_char(&mut out, '.');
    let f = n % 100;
    if f % 10 == 0 {
        let d = dec_of((f / 10) as usize);
        out.append(d.as_str());
    } else if f < 10 {
        push_char(&mut out, '0');
        let d = dec_of(f as usize);
        out.append(d.as_str());
    } else {
        let d = dec_of(f as usize);
        out.append(d.as_str());
    }
    proof {
        assert(out@ =~= score_text(n as int));
    }
    out
}

/// The confidence number emitted on the wire: the held text when it is one
/// JSON number, else the default.
pub open spec fn confidence_json(t: Seq<char>) -> Seq<char> {
    if num_field(t, ""@) is Some {
        t
    } else {
        "0.75"@
    }
}

/// One suggested action as a JSON object.
pub open spec fn action_json(a: ActionModel) -> Seq<char> {
    "{\"label\":"@ + str_lit(a.label) + ",\"explanation\":"@ + str_lit(a.explanation) + "}"@
}

/// One impact entry as a JSON object.
pub open spec fn impacted_json(f: ImpactedFileModel) -> Seq<char> {
    "{\"path\":"@ + str_lit(f.path) + ",\"score\":"@ + score_text(f.score) + ",\"why\":"@
        + str_array_json(f.why) + "}"@
}

/// One symbol entry as a JSON object.
pub open spec fn symbol_json(s: SymbolModel) -> Seq<char> {
    "{\"name\":"@ + str_lit(s.name) + ",\"kind\":"@ + str_lit(s.kind) + ",\"file\":"@
        + str_lit(s.file) + ",\"score\":"@ + score_text(s.score) + "}"@
}

/// The elements of a JSON array of strings, comma-joined.
pub open spec fn str_items_joined(xs: Seq<Seq<char>>) -> Seq<char>
    decreases xs.len(),
{
    if xs.len() == 0 {
        Seq::empty()
    } else if xs.len() == 1 {
        str_lit(xs[0])
    } else {
        str_items_joined(xs.drop_last()) + ","@ + str_lit(xs.last())
    }
}

/// A JSON array of strings.
pub open spec fn str_array_json(xs: Seq<Seq<char>>) -> Seq<char> {
    "["@ + str_items_joined(xs) + "]"@
}

/// The elements of the impact array, comma-joined.
pub open spec fn impacted_joined(xs: Seq<ImpactedFileModel>) -> Seq<char>
    decreases xs.len(),
{
    if xs.len() == 0 {
        Seq::empty()
    } else if xs.len() == 1 {
        impacted_json(xs[0])
    } else {
        impacted_joined(xs.drop_last()) + ","@ + impacted_json(xs.last())
    }
}

/// The elements of the symbol array, comma-joined.
pub open spec fn symbols_joined(xs: Seq<SymbolModel>) -> Seq<char>
    decreases xs.len(),
{
    if xs.len() == 0 {
        Seq::empty()
    } else if xs.len() == 1 {
        symbol_json(xs[0])
    } else {
        symbols_joined(xs.drop_last()) + ","@ + symbol_json(xs.last())
    }
}

/// The elements of the action array, comma-joined.
pub open spec fn actions_joined(xs: Seq<ActionModel>) -> Seq<char>
    decreases xs.len(),
{
    if xs.len() == 0 {
        Seq::empty()
    } else if xs.len() == 1 {
        action_json(xs[0])
    } else {
        actions_joined(xs.drop_last()) + ","@ + action_json(xs.last())
    }
}

/// A JSON array of impact entries.
pub open spec fn impacted_array_json(xs: Seq<ImpactedFileModel>) -> Seq<char> {
    "["@ + impacted_joined(xs) + "]"@
}

/// A JSON array of symbol entries.
pub open spec fn symbols_array_json(xs: Seq<SymbolModel>) -> Seq<char> {
    "["@ + symbols_joined(xs) + "]"@
}

/// A JSON array of suggested actions.
pub open spec fn actions_array_json(xs: Seq<ActionModel>) -> Seq<char> {
    "["@ + actions_joined(xs) + "]"@
}

/// The serialized analysis payload, fields in declared order.
pub open spec fn analysis_json(a: AnalysisModel) -> Seq<char> {
    "{\"summary\":"@ + str_array_json(a.summary) + ",\"risk_level\":"@ + str_lit(a.risk_level)
        + ",\"risk_reasons\":"@ + str_array_json(a.risk_reasons) + ",\"impacted_files\":"@
        + impacted_array_json(a.impacted_files) + ",\"impacted_symbols\":"@ + symbols_array_json(
        a.impacted_symbols,
    ) + ",\"suggested_actions\":"@ + actions_array_json(a.suggested_actions) + ",\"confidence\":"@
        + confidence_json(a.confidence) + "}"@
}

/// The serialized response frame: the type tag, and the payload for the
/// variants that carry one.
pub open spec fn response_json(r: ResponseModel) -> Seq<char> {
    match r {
        ResponseModel::Pong => "{\"type\":\"pong\"}"@,
        ResponseModel::AnalysisResult(a) => "{\"type\":\"analysis_result\",\"payload\":"@
            + analysis_json(a) + "}"@,
        ResponseModel::Error { message } => "{\"type\":\"error\",\"payload\":{\"message\":"@
            + str_lit(message) + "}}"@,
    }
}

fn append_str_lit(out: &mut String, s: &str)
    ensures
        final(out)@ == old(out)@ + str_lit(s@),
{
    push_char(out, '"');
    let e = json_escape(s);
    out.append(e.as_str());
    push_char(out, '"');
    proof {
        assert(out@ =~= old(out)@ + str_lit(s@));
    }
}

fn append_str_array(out: &mut String, xs: &Vec<String>)
    ensures
        final(out)@ == old(out)@ + str_array_json(xs.deep_view()),
{
    let ghost xv = xs.deep_view();
    out.append("[");
    let mut i: usize = 0;
    proof {
        assert(out@ =~= old(out)@ + "["@ + str_items_joined(xv.take(0)));
    }
    while i < xs.len()
        invariant
            0 <= i <= xs.len(),
            xv == xs.deep_view(),
            out@ == old(out)@ + "["@ + str_items_joined(xv.take(i as int)),
        decreases xs.len() - i,
    {
        if i > 0 {
            out.append(",");
        }
        append_str_lit(out, xs[i].as_str());
        proof {
            assert(xv[i as int] == xs@[i as int].deep_view());
            assert(xv.take(i + 1).drop_last() =~= xv.take(i as int));
            assert(xv.take(i + 1).last() == xv[i as int]);
            if i == 0 {
                assert(xv.take(1)[0] == xv[0]);
            }
            assert(out@ =~= old(out)@ + "["@ + str_items_joined(xv.take(i + 1)));
        }
        i += 1;
    }
    out.append("]");
    proof {
        assert(xv.take(xs@.len() as int) =~= xv);
        assert(out@ =~= old(out)@ + str_array_json(xv));
    }
}

fn append_action(out: &mut String, a: &SuggestedAction)
    ensures
        final(out)@ == old(out)@ + action_json(a@),
{
    out.append("{\"label\":");
    append_str_lit(out, a.label.as_str());
    out.append(",\"explanation\":");
    append_str_lit(out, a.explanation.as_str());
    out.append("}");
    proof {
        assert(out@ =~= old(out)@ + action_json(a@));
    }
}

fn append_impacted(out: &mut String, f: &ImpactedFile)
    ensures
        final(out)@ == old(out)@ + impacted_json(f@),
{
    out.append("{\"path\":");
    append_str_lit(out, f.path.as_str());
    out.append(",\"score\":");
    let sc = score_text_of(f.score);
    out.append(sc.as_str());
    out.append(",\"why\":");
    append_str_array(out, &f.why);
    out.append("}");
    proof {
        assert(out@ =~= old(out)@ + impacted_json(f@));
    }
}

fn append_symbol(out: &mut String, s: &ImpactedSymbol)
    ensures
        final(out)@ == old(out)@ + symbol_json(s@),
{
    out.append("{\"name\":");
    append_str_lit(out, s.name.as_str());
    out.append(",\"kind\":");
    append_str_lit(out, s.kind.as_str());
    out.append(",\"file\":");
    append_str_lit(out, s.file.as_str());
    out.append(",\"score\":");
    let sc = score_text_of(s.score);
    out.append(sc.as_str());
    out.append("}");
    proof {
        assert(out@ =~= old(out)@ + symbol_json(s@));
    }
}

/// Serializes one suggested action, proved against `action_json`.
pub fn serialize_action(a: &SuggestedAction) -> (r: String)
    ensures
        r@ == action_json(a@),
{
    let mut out = String::new();
    append_action(&mut out, a);
    proof {
        assert(out@ =~= action_json(a@));
    }
    out
}

/// Serializes one impact entry, proved against `impacted_json`.
pub fn serialize_impacted_file(f: &ImpactedFile) -> (r: String)
    ensures
        r@ == impacted_json(f@),
{
    let mut out = String::new();
    append_impacted(&mut out, f);
    proof {
        assert(out@ =~= impacted_json(f@));
    }
    out
}

fn append_impacted_array(out: &mut String, xs: &Vec<ImpactedFile>)
    ensures
        final(out)@ == old(out)@ + "["@ + impacted_joined(xs.deep_view()) + "]"@,
{
    let ghost xv = xs.deep_view();
    out.append("[");
    let mut i: usize = 0;
    proof {
        assert(out@ =~= old(out)@ + "["@ + impacted_joined(xv.take(0)));
    }
    while i < xs.len()
        invariant
            0 <= i <= xs.len(),
            xv == xs.deep_view(),
            out@ == old(out)@ + "["@ + impacted_joined(xv.take(i as int)),
        decreases xs.len() - i,
    {
        if i > 0 {
            out.append(",");
        }
        append_impacted(out, &xs[i]);
        proof {
            assert(xv[i as int] == xs@[i as int].deep_view());
            assert(xv.take(i + 1).drop_last() =~= xv.take(i as int));
            assert(xv.take(i + 1).last() == xv[i as int]);
            if i == 0 {
                assert(xv.take(1)[0] == xv[0]);
            }
            assert(out@ =~= old(out)@ + "["@ + impacted_joined(xv.take(i + 1)));
        }
        i += 1;
    }
    out.append("]");
    proof {
        assert(xv.take(xs@.len() as int) =~= xv);
        assert(out@ =~= old(out)@ + "["@ + impacted_joined(xv) + "]"@);
    }
}

fn append_symbol_array(out: &mut String, xs: &Vec<ImpactedSymbol>)
    ensures
        final(out)@ == old(out)@ + "["@ + symbols_joined(xs.deep_view()) + "]"@,
{
    let ghost xv = xs.deep_view();
    out.append("[");
    let mut i: usize = 0;
    proof {
        assert(out@ =~= old(out)@ + "["@ + symbols_joined(xv.take(0)));
    }
    while i < xs.len()
        invariant
            0 <= i <= xs.len(),
            xv == xs.deep_view(),
            out@ == old(out)@ + "["@ + symbols_joined(xv.take(i as int)),
        decreases xs.len() - i,
    {
        if i > 0 {
            out.append(",");
        }
        append_symbol(out, &xs[i]);
        proof {
            assert(xv[i as int] == xs@[i as int].deep_view());
            assert(xv.take(i + 1).drop_last() =~= xv.take(i as int));
            assert(xv.take(i + 1).last() == xv[i as int]);
            if i == 0 {
                assert(xv.take(1)[0] == xv[0]);
            }
            assert(out@ =~= old(out)@ + "["@ + symbols_joined(xv.take(i + 1)));
        }
        i += 1;
    }
    out.append("]");
    proof {
        assert(xv.take(xs@.len() as int) =~= xv);
        assert(out@ =~= old(out)@ + "["@ + symbols_joined(xv) + "]"@);
    }
}

fn append_action_array(out: &mut String, xs: &Vec<SuggestedAction>)
    ensures
        final(out)@ == old(out)@ + "["@ + actions_joined(xs.deep_view()) + "]"@,
{
    let ghost xv = xs.deep_view();
    out.append("[");
    let mut i: usize = 0;
    proof {
        assert(out@ =~= old(out)@ + "["@ + actions_joined(xv.take(0)));
    }
    while i < xs.len()
        invariant
            0 <= i <= xs.len(),
            xv == xs.deep_view(),
            out@ == old(out)@ + "["@ + actions_joined(xv.take(i as int)),
        decreases xs.len() - i,
    {
        if i > 0 {
            out.append(",");
        }
        append_action(out, &xs[i]);
        proof {
            assert(xv[i as int] == xs@[i as int].deep_view());
            assert(xv.take(i + 1).drop_last() =~= xv.take(i as int));
            assert(xv.take(i + 1).last() == xv[i as int]);
            if i == 0 {
                assert(xv.take(1)[0] == xv[0]);
            }
            assert(out@ =~= old(out)@ + "["@ + actions_joined(xv.take(i + 1)));
        }
        i += 1;
    }
    out.append("]");
    proof {
        assert(xv.take(xs@.len() as int) =~= xv);
        assert(out@ =~= old(out)@ + "["@ + actions_joined(xv) + "]"@);
    }
}

/// Serializes an analysis payload, proved against `analysis_json`.
pub fn serialize_analysis(a: &AnalysisResult) -> (r: String)
    ensures
        r@ == analysis_json(a@),
{
    let mut out = String::from_str("{\"summary\":");
    append_str_array(&mut out, &a.summary);
    let ghost e1 = "{\"summary\":"@ + str_array_json(a@.summary);
    proof {
        assert(out@ == e1);
    }
    out.append(",\"risk_level\":");
    append_str_lit(&mut out, a.risk_level.as_str());
    let ghost e2 = e1 + ",\"risk_level\":"@ + str_lit(a@.risk_level);
    proof {
        assert(out@ == e2);
    }
    out.append(",\"risk_reasons\":");
    append_str_array(&mut out, &a.risk_reasons);
    let ghost e3 = e2 + ",\"risk_reasons\":"@ + str_array_json(a@.risk_reasons);
    proof {
        assert(out@ == e3);
    }
    out.append(",\"impacted_files\":");
    append_impacted_array(&mut out, &a.impacted_files);
    let ghost e4 = e3 + ",\"impacted_files\":"@ + impacted_array_json(a@.impacted_files);
    proof {
        assert(out@ == e4);
    }
    out.append(",\"impacted_symbols\":");
    append_symbol_array(&mut out, &a.impacted_symbols);
    let ghost e5 = e4 + ",\"impacted_symbols\":"@ + symbols_array_json(a@.impacted_symbols);
    proof {
        assert(out@ == e5);
    }
    out.append(",\"suggested_actions\":");
    append_action_array(&mut out, &a.suggested_actions);
    let ghost e6 = e5 + ",\"suggested_actions\":"@ + actions_array_json(a@.suggested_actions);
    proof {
        assert(out@ == e6);
    }
    out.append(",\"confidence\":");
    match json_num_field(a.confidence.as_str(), "") {
        Some(_) => {
            out.append(a.confidence.as_str());
        },
        None => {
            out.append("0.75");
        },
    }
    let ghost e7 = e6 + ",\"confidence\":"@ + confidence_json(a@.confidence);
    proof {
        assert(out@ == e7);
    }
    out.append("}");
    proof {
        assert(out@ == e7 + "}"@);
        assert(analysis_json(a@) == e7 + "}"@);
    }
    out
}

/// Serializes one response frame, proved against `response_json`. The
/// surrounding loop appends the newline and writes the bytes.
pub fn serialize_response(r: &Response) -> (out: String)
    ensures
        out@ == response_json(r@),
{
    match r {
        Response::Pong => String::from_str("{\"type\":\"pong\"}"),
        Response::AnalysisResult(a) => {
            let mut out = String::from_str("{\"type\":\"analysis_result\",\"payload\":");
            let body = serialize_analysis(a);
            out.append(body.as_str());
            out.append("}");
            proof {
                assert(out@ =~= response_json(r@));
            }
            out
        },
        Response::Error { message } => {
            let mut out = String::from_str("{\"type\":\"error\",\"payload\":{\"message\":");
            append_str_lit(&mut out, message.as_str());
            out.append("}}");
            proof {
                assert(out@ =~= response_json(r@));
            }
            out
        },
    }
}

} // verus!
