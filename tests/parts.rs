use mastra_stream::emitter::CoalescingEmitter;
use mastra_stream::frame::classify;
use mastra_stream::frame::Frame;
use mastra_stream::frame::FrameKind;
use mastra_stream::frame::Framing;
use mastra_stream::line_buffer::LineBuffer;
use mastra_stream::resolve::error_message;
use mastra_stream::resolve::resolve;
use mastra_stream::resolve::resolve_decoded;
use mastra_stream::resolve::strip_quotes;

fn frame(kind: FrameKind, framing: Framing, payload: &str) -> Frame {
    Frame { kind, framing, payload: payload.to_string() }
}

#[test]
fn line_buffer_keeps_partial_line() {
    let mut b = LineBuffer::new();
    b.push(b"first\r\n\n  second  \nthi");
    assert_eq!(b.drain_lines(), vec!["first".to_string(), String::new(), "second".to_string()]);
    assert!(b.drain_lines().is_empty());
    b.push(b"rd\n");
    assert_eq!(b.drain_lines(), vec!["third".to_string()]);
}

#[test]
fn line_buffer_empty_push() {
    let mut b = LineBuffer::new();
    b.push(b"");
    assert!(b.drain_lines().is_empty());
}

#[test]
fn classify_multiplexed_selectors() {
    let m = Framing::Multiplexed;
    assert_eq!(classify("f:\"msg1\""), Some(frame(FrameKind::MessageStart, m, "\"msg1\"")));
    assert_eq!(classify("0:\"Hello\""), Some(frame(FrameKind::TextDelta, m, "\"Hello\"")));
    assert_eq!(classify("e:{}"), Some(frame(FrameKind::StreamEnd, m, "{}")));
    assert_eq!(classify("d:done"), Some(frame(FrameKind::StreamEnd, m, "done")));
    assert_eq!(classify("3:\"bad\""), Some(frame(FrameKind::ErrorFrame, m, "\"bad\"")));
    assert_eq!(classify("8:[1]"), Some(frame(FrameKind::Unknown, m, "[1]")));
    assert_eq!(classify("0:"), Some(frame(FrameKind::TextDelta, m, "")));
    assert_eq!(classify("\u{e9}:x"), Some(frame(FrameKind::Unknown, m, "x")));
}

#[test]
fn classify_server_sent_lines() {
    let s = Framing::ServerSent;
    assert_eq!(classify("data: [DONE]"), Some(frame(FrameKind::StreamEnd, s, "[DONE]")));
    assert_eq!(classify("data: hello"), Some(frame(FrameKind::TextDelta, s, "hello")));
    assert_eq!(classify("data: [DONE] "), Some(frame(FrameKind::TextDelta, s, "[DONE] ")));
    assert_eq!(classify("data: "), None);
    assert_eq!(classify("data:x"), None);
}

#[test]
fn classify_noise() {
    assert_eq!(classify(""), None);
    assert_eq!(classify("x"), None);
    assert_eq!(classify("hello"), None);
    assert_eq!(classify(": keep-alive"), None);
}

#[test]
fn resolve_json_string_unescapes() {
    let f = frame(FrameKind::TextDelta, Framing::Multiplexed, "\"a\\nb \\u00e9\"");
    assert_eq!(resolve(&f), Some("a\nb \u{e9}".to_string()));
}

#[test]
fn resolve_quoted_fallback() {
    let f = frame(FrameKind::TextDelta, Framing::Multiplexed, "\"tab\there\"");
    assert_eq!(resolve(&f), Some("tab\there".to_string()));
}

#[test]
fn resolve_multiplexed_raw_is_dropped() {
    let f = frame(FrameKind::TextDelta, Framing::Multiplexed, "plain");
    assert_eq!(resolve(&f), None);
    let f = frame(FrameKind::TextDelta, Framing::Multiplexed, "{\"text\":\"x\"}");
    assert_eq!(resolve(&f), None);
}

#[test]
fn resolve_server_sent() {
    let s = Framing::ServerSent;
    assert_eq!(resolve(&frame(FrameKind::TextDelta, s, "{\"text\":\"hi\"}")), Some("hi".to_string()));
    assert_eq!(resolve(&frame(FrameKind::TextDelta, s, "\"quoted\"")), Some("quoted".to_string()));
    assert_eq!(resolve(&frame(FrameKind::TextDelta, s, "raw text")), Some("raw text".to_string()));
    assert_eq!(
        resolve(&frame(FrameKind::TextDelta, s, "{\"finishReason\":\"stop\"}")),
        Some("{\"finishReason\":\"stop\"}".to_string())
    );
}

#[test]
fn error_message_falls_back_to_payload() {
    let m = Framing::Multiplexed;
    assert_eq!(error_message(&frame(FrameKind::ErrorFrame, m, "\"rate limited\"")), "rate limited");
    assert_eq!(error_message(&frame(FrameKind::ErrorFrame, m, "plain failure")), "plain failure");
}

#[test]
fn strip_quotes_cases() {
    assert_eq!(strip_quotes("\"x\""), Some("x"));
    assert_eq!(strip_quotes("\"\""), Some(""));
    assert_eq!(strip_quotes("\""), None);
    assert_eq!(strip_quotes("x\""), None);
}

#[test]
fn emitter_keeps_text_in_order() {
    let mut e = CoalescingEmitter::new(3, 1000, 0);
    let mut out = String::new();
    let mut chunks = 0;
    for (i, piece) in ["a", "bc", "d", "efgh", "i", "j"].iter().enumerate() {
        if let Some(c) = e.accept(piece, i as u64) {
            assert!(!c.is_empty());
            out.push_str(&c);
            chunks += 1;
        }
    }
    if let Some(c) = e.force_flush() {
        out.push_str(&c);
        chunks += 1;
    }
    assert_eq!(out, "abcdefghij");
    assert_eq!(chunks, 3);
    assert!(!e.has_pending());
    assert_eq!(e.force_flush(), None);
}

#[test]
fn emitter_time_threshold() {
    let mut e = CoalescingEmitter::with_defaults(1000);
    assert_eq!(e.accept("a", 1100), None);
    assert_eq!(e.accept("b", 1101), Some("ab".to_string()));
    assert_eq!(e.accept("c", 900), None);
    assert!(e.has_pending());
}

#[test]
fn resolve_decoded_precedence() {
    let s = Framing::ServerSent;
    let m = Framing::Multiplexed;
    let sse = frame(FrameKind::TextDelta, s, "\"q\"");
    assert_eq!(
        resolve_decoded(&sse, Some("json".to_string()), Some("member".to_string())),
        Some("json".to_string())
    );
    assert_eq!(resolve_decoded(&sse, None, Some("member".to_string())), Some("member".to_string()));
    assert_eq!(resolve_decoded(&sse, None, None), Some("q".to_string()));
    let mux = frame(FrameKind::TextDelta, m, "raw");
    assert_eq!(resolve_decoded(&mux, None, Some("member".to_string())), None);
    let err = frame(FrameKind::ErrorFrame, m, "\"e\"");
    assert_eq!(resolve_decoded(&err, None, None), Some("e".to_string()));
}
