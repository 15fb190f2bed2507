//! Resolving a frame's payload to plain text.
use vstd::prelude::*;

use crate::frame::Frame;
use crate::frame::FrameKind;
use crate::frame::FrameView;
use crate::frame::Framing;
use crate::textops::json_member_string_of;
use crate::textops::json_string_of;
use crate::textops::parse_json_member_string;
use crate::textops::parse_json_string;
use crate::textops::text_opt;

verus! {

/// The member of a server-sent-events JSON object that carries text.
pub open spec fn text_key() -> Seq<char> {
    seq!['t', 'e', 'x', 't']
}

/// The inside of a payload wrapped in one pair of double quotes.
pub open spec fn unquoted(p: Seq<char>) -> Option<Seq<char>> {
    if p.len() >= 2 && p[0] == '"' && p[p.len() - 1] == '"' {
        Some(p.subrange(1, p.len() - 1))
    } else {
        None
    }
}

/// The text of a frame's payload, given what it decodes to as a JSON string
/// literal (`as_json`) and as a JSON object with a string member `text`
/// (`as_member`). Tried in this order: the JSON string; for a server-sent
/// frame, the `text` member; the inside of a double-quoted payload; for a
/// server-sent text frame, the payload as it stands. Where none applies there
/// is no text.
pub open spec fn resolution(
    f: FrameView,
    as_json: Option<Seq<char>>,
    as_member: Option<Seq<char>>,
) -> Option<Seq<char>> {
    if as_json is Some {
        as_json
    } else if f.framing == Framing::ServerSent && as_member is Some {
        as_member
    } else if unquoted(f.payload) is Some {
        unquoted(f.payload)
    } else if f.framing == Framing::ServerSent && f.kind == FrameKind::TextDelta {
        Some(f.payload)
    } else {
        None
    }
}

/// The text of a frame's payload.
pub open spec fn resolved_text(f: FrameView) -> Option<Seq<char>> {
    resolution(f, json_string_of(f.payload), json_member_string_of(f.payload, text_key()))
}

/// The message of an error frame: its resolved text, or else its payload.
pub open spec fn error_text(f: FrameView) -> Seq<char> {
    match resolved_text(f) {
        Some(t) => t,
        None => f.payload,
    }
}

/// The inside of `p` when it is wrapped in one pair of double quotes.
pub fn strip_quotes(p: &str) -> (r: Option<&str>)
    ensures
        match r {
            Some(t) => unquoted(p@) == Some(t@),
            None => unquoted(p@) is None,
        },
{
    let n = p.unicode_len();
    if n >= 2 && p.get_char(0) == '"' && p.get_char(n - 1) == '"' {
        Some(p.substring_char(1, n - 1))
    } else {
        None
    }
}

/// Resolves the payload of a frame to text, given what the payload decodes
/// to as a JSON string literal and as a JSON object's `text` member.
pub fn resolve_decoded(frame: &Frame, as_json: Option<String>, as_member: Option<String>) -> (r:
    Option<String>)
    ensures
        text_opt(r) == resolution(frame@, text_opt(as_json), text_opt(as_member)),
{
    if as_json.is_some() {
        return as_json;
    }
    if frame.framing == Framing::ServerSent && as_member.is_some() {
        return as_member;
    }
    match strip_quotes(frame.payload.as_str()) {
        Some(inner) => Some(inner.to_owned()),
        None => {
            if frame.framing == Framing::ServerSent && frame.kind == FrameKind::TextDelta {
                Some(frame.payload.clone())
            } else {
                None
            }
        },
    }
}

/// Resolves the payload of a frame to text.
pub fn resolve(frame: &Frame) -> (r: Option<String>)
    ensures
        text_opt(r) == resolved_text(frame@),
{
    let payload = frame.payload.as_str();
    let as_json = parse_json_string(payload);
    let as_member = if frame.framing == Framing::ServerSent {
        proof {
            reveal_strlit("text");
            assert("text"@ =~= text_key());
        }
        parse_json_member_string(payload, "text")
    } else {
        None
    };
    resolve_decoded(frame, as_json, as_member)
}

/// The message that an error frame reports.
pub fn error_message(frame: &Frame) -> (r: String)
    ensures
        r@ == error_text(frame@),
{
    match resolve(frame) {
        Some(t) => t,
        None => frame.payload.clone(),
    }
}

} // verus!
