//! Classifying one complete line as a frame of one of the two grammars.
use vstd::prelude::*;

use crate::chars::holds_at;

verus! {

/// What a frame asks of the decoder.
#[derive(Clone, Copy, Debug, PartialEq, Eq, Structural)]
pub enum FrameKind {
    TextDelta,
    MessageStart,
    StreamEnd,
    ErrorFrame,
    Unknown,
}

/// The grammar that a line was read in.
#[derive(Clone, Copy, Debug, PartialEq, Eq, Structural)]
pub enum Framing {
    /// `<selector>:<payload>`
    Multiplexed,
    /// `data: <payload>`
    ServerSent,
}

/// One classified line.
#[derive(Clone, Debug, PartialEq, Eq)]
pub struct Frame {
    pub kind: FrameKind,
    pub framing: Framing,
    pub payload: String,
}

/// The mathematical value of a frame.
pub struct FrameView {
    pub kind: FrameKind,
    pub framing: Framing,
    pub payload: Seq<char>,
}

impl View for Frame {
    type V = FrameView;

    open spec fn view(&self) -> FrameView {
        FrameView { kind: self.kind, framing: self.framing, payload: self.payload@ }
    }
}

/// The view of an optional frame.
pub open spec fn frame_opt(o: Option<Frame>) -> Option<FrameView> {
    match o {
        Some(f) => Some(f@),
        None => None,
    }
}

/// The kind that a selector character of the multiplexed grammar stands for.
pub open spec fn selector_kind(c: char) -> FrameKind {
    if c == 'f' {
        FrameKind::MessageStart
    } else if c == '0' {
        FrameKind::TextDelta
    } else if c == 'e' || c == 'd' {
        FrameKind::StreamEnd
    } else if c == '3' {
        FrameKind::ErrorFrame
    } else {
        FrameKind::Unknown
    }
}

/// The prefix of a line of the server-sent-events grammar.
pub open spec fn data_prefix() -> Seq<char> {
    seq!['d', 'a', 't', 'a', ':', ' ']
}

/// The payload that ends a server-sent-events stream.
pub open spec fn done_marker() -> Seq<char> {
    seq!['[', 'D', 'O', 'N', 'E', ']']
}

/// The frame that a line holds, if any. The multiplexed grammar is tried
/// first: a second character `:` makes the first one the selector and the
/// rest the payload. Otherwise a line that starts with `data: ` carries a
/// payload, `[DONE]` ending the stream and any other non-empty one being
/// text. Every other line, and an empty `data: ` payload, holds no frame.
pub open spec fn frame_of(line: Seq<char>) -> Option<FrameView> {
    if line.len() >= 2 && line[1] == ':' {
        Some(
            FrameView {
                kind: selector_kind(line[0]),
                framing: Framing::Multiplexed,
                payload: line.skip(2),
            },
        )
    } else if data_prefix().is_prefix_of(line) {
        let data = line.skip(6);
        if data.len() == 0 {
            None
        } else if data == done_marker() {
            Some(FrameView { kind: FrameKind::StreamEnd, framing: Framing::ServerSent, payload: data })
        } else {
            Some(FrameView { kind: FrameKind::TextDelta, framing: Framing::ServerSent, payload: data })
        }
    } else {
        None
    }
}

/// Classifies one line.
pub fn classify(line: &str) -> (r: Option<Frame>)
    ensures
        frame_opt(r) == frame_of(line@),
{
    let n = line.unicode_len();
    if n >= 2 && line.get_char(1) == ':' {
        let kind = match line.get_char(0) {
            'f' => FrameKind::MessageStart,
            '0' => FrameKind::TextDelta,
            'e' | 'd' => FrameKind::StreamEnd,
            '3' => FrameKind::ErrorFrame,
            _ => FrameKind::Unknown,
        };
        let payload = line.substring_char(2, n).to_owned();
        return Some(Frame { kind, framing: Framing::Multiplexed, payload });
    }
    proof {
        reveal_strlit("data: ");
        reveal_strlit("[DONE]");
        assert("data: "@ =~= data_prefix());
        assert("[DONE]"@ =~= done_marker());
    }
    if !holds_at(line, n, 0, "data: ") {
        return None;
    }
    let data = line.substring_char(6, n);
    let m = data.unicode_len();
    if m == 0 {
        return None;
    }
    assert(data@ =~= line@.skip(6));
    let kind = if m == 6 && holds_at(data, m, 0, "[DONE]") {
        assert(data@ =~= data@.subrange(0, 6));
        FrameKind::StreamEnd
    } else {
        assert(data@.subrange(0, m as int) =~= data@);
        assert(done_marker().len() == 6);
        FrameKind::TextDelta
    };
    Some(Frame { kind, framing: Framing::ServerSent, payload: data.to_owned() })
}

} // verus!
