//! The computed halves of the inference exchange: serializing the
//! two-message request the backend receives, and interpreting the envelope
//! it returns. The blocking call between the two owns an external handle and
//! lives outside the verified core.

use vstd::prelude::*;

verus! {

use vstd::string::*;
use crate::jsonio::{doc_parses, str_field, bool_field, json_doc_parses, json_str_field, json_bool_field};
use crate::text::push_char;

/// The lowercase hexadecimal digit for `d` (valid for `d < 16`).
pub open spec fn hex_digit(d: int) -> char {
    if d < 10 {
        (48 + d) as char
    } else {
        (87 + d) as char
    }
}

/// How one character appears inside a JSON string literal: quote and
/// backslash escaped, the named control escapes, other control characters as
/// `\u00..`, everything else as itself.
pub open spec fn escape_char(c: char) -> Seq<char> {
    if c == '"' {
        seq!['\\', '"']
    } else if c == '\\' {
        seq!['\\', '\\']
    } else if c == '\u{8}' {
        seq!['\\', 'b']
    } else if c == '\u{c}' {
        seq!['\\', 'f']
    } else if c == '\n' {
        seq!['\\', 'n']
    } else if c == '\r' {
        seq!['\\', 'r']
    } else if c == '\t' {
        seq!['\\', 't']
    } else if (c as u32) < 32 {
        seq!['\\', 'u', '0', '0', hex_digit((c as u32) as int / 16), hex_digit((c as u32) as int % 16)]
    } else {
        seq![c]
    }
}

/// The body of the JSON string literal for `s`.
pub open spec fn json_escaped(s: Seq<char>) -> Seq<char>
    decreases s.len(),
{
    if s.len() == 0 {
        Seq::empty()
    } else {
        json_escaped(s.drop_last()) + escape_char(s.last())
    }
}

fn hex_digit_of(d: u32) -> (r: char)
    requires
        d < 16,
    ensures
        r == hex_digit(d as int),
{
    if d < 10 {
        let c = (48 + d as u8) as char;
        assert(c == hex_digit(d as int));
        c
    } else {
        let c = (87 + d as u8) as char;
        assert(c == hex_digit(d as int));
        c
    }
}

fn push_escaped(out: &mut String, c: char)
    ensures
        final(out)@ == old(out)@ + escape_char(c),
{
    if c == '"' {
        out.append("\\\"");
        proof {
            reveal_strlit("\\\"");
            assert(out@ =~= old(out)@ + escape_char(c));
        }
    } else if c == '\\' {
        out.append("\\\\");
        proof {
            reveal_strlit("\\\\");
            assert(out@ =~= old(out)@ + escape_char(c));
        }
    } else if c == '\u{8}' {
        out.append("\\b");
        proof {
            reveal_strlit("\\b");
            assert(out@ =~= old(out)@ + escape_char(c));
        }
    } else if c == '\u{c}' {
        out.append("\\f");
        proof {
            reveal_strlit("\\f");
            assert(out@ =~= old(out)@ + escape_char(c));
        }
    } else if c == '\n' {
        out.append("\\n");
        proof {
            reveal_strlit("\\n");
            assert(out@ =~= old(out)@ + escape_char(c));
        }
    } else if c == '\r' {
        out.append("\\r");
        proof {
            reveal_strlit("\\r");
            assert(out@ =~= old(out)@ + escape_char(c));
        }
    } else if c == '\t' {
        out.append("\\t");
        proof {
            reveal_strlit("\\t");
            assert(out@ =~= old(out)@ + escape_char(c));
        }
    } else if (c as u32) < 32 {
        out.append("\\u00");
        let d = c as u32;
        push_char(out, hex_digit_of(d / 16));
        push_char(out, hex_digit_of(d % 16));
        proof {
            reveal_strlit("\\u00");
            assert(out@ =~= old(out)@ + escape_char(c));
        }
    } else {
        push_char(out, c);
        proof {
            assert(out@ =~= old(out)@ + escape_char(c));
        }
    }
}

/// Escapes `s` for embedding in a JSON string literal, proved against
/// `json_escaped`.
pub fn json_escape(s: &str) -> (r: String)
    ensures
        r@ == json_escaped(s@),
{
    let n = s.unicode_len();
    let mut out = String::new();
    let mut i: usize = 0;
    proof {
        assert(out@ =~= json_escaped(s@.take(0)));
    }
    while i < n
        invariant
            0 <= i <= n,
            n == s@.len(),
            out@ == json_escaped(s@.take(i as int)),
        decreases n - i,
    {
        let c = s.get_char(i);
        push_escaped(&mut out, c);
        proof {
            assert(s@.take(i + 1).drop_last() =~= s@.take(i as int));
            assert(s@.take(i + 1).last() == s@[i as int]);
        }
        i += 1;
    }
    proof {
        assert(s@.take(n as int) =~= s@);
    }
    out
}

/// The serialized two-message exchange the backend receives: a system
/// message then a user message, as one compact JSON array with each object's
/// keys in sorted order.
pub open spec fn messages_json(system: Seq<char>, user: Seq<char>) -> Seq<char> {
    "[{\"content\":\""@ + json_escaped(system) + "\",\"role\":\"system\"},{\"content\":\""@
        + json_escaped(user) + "\",\"role\":\"user\"}]"@
}

/// Builds the two-message exchange for one completion call, proved against
/// `messages_json`.
pub fn build_inference_messages(system_prompt: &str, user_message: &str) -> (r: String)
    ensures
        r@ == messages_json(system_prompt@, user_message@),
{
    let mut out = String::from_str("[{\"content\":\"");
    let es = json_escape(system_prompt);
    out.append(es.as_str());
    out.append("\",\"role\":\"system\"},{\"content\":\"");
    let eu = json_escape(user_message);
    out.append(eu.as_str());
    out.append("\",\"role\":\"user\"}]");
    proof {
        assert(out@ =~= messages_json(system_prompt@, user_message@));
    }
    out
}

/// What the backend's response envelope yields: the completion text of a
/// well-formed success envelope, else the error message describing how the
/// envelope failed.
pub open spec fn spec_envelope(raw: Seq<char>) -> Result<Seq<char>, Seq<char>> {
    if !doc_parses(raw) {
        Err("failed to parse backend response JSON: "@ + raw)
    } else if bool_field(raw, "/success"@) != Some(true) {
        Err(
            "backend returned failure: "@ + match str_field(raw, "/error"@) {
                None => "unknown error"@,
                Some(e) => e,
            },
        )
    } else {
        match str_field(raw, "/response"@) {
            None => Err("backend response missing 'response' field: "@ + raw),
            Some(t) => Ok(t),
        }
    }
}

/// Interprets the backend's response envelope
/// `{"success": bool, "response"?: string, "error"?: string}`: the
/// completion text on a well-formed success, else an error message. Proved
/// against `spec_envelope`.
pub fn read_backend_envelope(raw: &str) -> (r: Result<String, String>)
    ensures
        match r {
            Ok(t) => spec_envelope(raw@) == Ok::<Seq<char>, Seq<char>>(t@),
            Err(m) => spec_envelope(raw@) == Err::<Seq<char>, Seq<char>>(m@),
        },
{
    if !json_doc_parses(raw) {
        let mut m = String::from_str("failed to parse backend response JSON: ");
        m.append(raw);
        return Err(m);
    }
    let success = json_bool_field(raw, "/success");
    let ok = match success {
        Some(b) => b,
        None => false,
    };
    if !ok {
        let mut m = String::from_str("backend returned failure: ");
        match json_str_field(raw, "/error") {
            None => {
                m.append("unknown error");
            },
            Some(e) => {
                m.append(e.as_str());
            },
        }
        return Err(m);
    }
    match json_str_field(raw, "/response") {
        None => {
            let mut m = String::from_str("backend response missing 'response' field: ");
            m.append(raw);
            Err(m)
        },
        Some(t) => Ok(t),
    }
}

} // verus!
