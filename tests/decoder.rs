use mastra_stream::decoder::is_success_status;
use mastra_stream::decoder::Event;
use mastra_stream::decoder::Phase;
use mastra_stream::decoder::StreamDecoder;

fn text(s: &str) -> Event {
    Event::TextChunk(s.to_string())
}

fn error(s: &str) -> Event {
    Event::StreamError(s.to_string())
}

/// Feeds every chunk at its time, then ends the stream; returns all events.
fn run(chunks: &[&[u8]], times: &[u64]) -> Vec<Event> {
    let mut d = StreamDecoder::new(0);
    let mut events = Vec::new();
    for (chunk, now) in chunks.iter().zip(times.iter()) {
        events.extend(d.on_chunk(chunk, *now));
    }
    events.extend(d.finish());
    events
}

fn joined_text(events: &[Event]) -> String {
    let mut out = String::new();
    for e in events {
        if let Event::TextChunk(t) = e {
            out.push_str(t);
        }
    }
    out
}

#[test]
fn message_start_text_and_done_coalesce() {
    let stream = b"f:\"msg1\"\n0:\"Hello\"\n0:\" world\"\nd:done\n";
    let mut d = StreamDecoder::new(0);
    let mut events = d.on_chunk(&stream[..9], 10);
    events.extend(d.on_chunk(&stream[9..], 20));
    events.extend(d.finish());
    assert_eq!(events, vec![text("Hello world"), Event::StreamEnd]);
    assert_eq!(d.phase(), Phase::Completed);
}

#[test]
fn server_sent_text_then_done() {
    let events = run(&[b"data: {\"text\":\"hi\"}\ndata: [DONE]\n"], &[5]);
    assert_eq!(events, vec![text("hi"), Event::StreamEnd]);
}

#[test]
fn error_frame_does_not_stop_decoding() {
    let mut d = StreamDecoder::new(0);
    let events = d.on_chunk(b"3:\"rate limited\"\n", 1);
    assert_eq!(events, vec![error("rate limited")]);
    assert_eq!(d.phase(), Phase::Streaming);
    let mut rest = d.on_chunk(b"data: [DONE]\n", 2);
    rest.extend(d.finish());
    assert_eq!(rest, vec![Event::StreamEnd]);
}

#[test]
fn split_line_is_reassembled() {
    let split = run(&[b"0:\"He", b"llo\"\n"], &[1, 2]);
    let whole = run(&[b"0:\"Hello\"\n"], &[1]);
    assert_eq!(split, whole);
    assert_eq!(split, vec![text("Hello"), Event::StreamEnd]);
}

#[test]
fn byte_at_a_time_gives_same_text() {
    let stream: &[u8] =
        b"f:\"id\"\n0:\"The quick \"\n0:\"brown fox \"\n3:\"oops\"\n0:\"jumps\"\ne:{}\n0:\"!\"\n";
    let whole = run(&[stream], &[0]);
    let pieces: Vec<&[u8]> = stream.chunks(1).collect();
    let times: Vec<u64> = (0..pieces.len() as u64).map(|i| i * 37).collect();
    let bytewise = run(&pieces, &times);
    assert_eq!(joined_text(&whole), "The quick brown fox jumps!");
    assert_eq!(joined_text(&bytewise), joined_text(&whole));
    assert_eq!(bytewise.last(), Some(&Event::StreamEnd));
}

#[test]
fn split_inside_multibyte_character() {
    let stream = "0:\"caf\u{e9} \u{2603}\"\n".as_bytes();
    let whole = run(&[stream], &[0]);
    let split = run(&[&stream[..7], &stream[7..11], &stream[11..]], &[0, 1, 2]);
    assert_eq!(joined_text(&whole), "caf\u{e9} \u{2603}");
    assert_eq!(joined_text(&split), joined_text(&whole));
}

#[test]
fn held_text_is_flushed_once_at_end() {
    let mut d = StreamDecoder::new(0);
    let events = d.on_chunk(b"0:\"pending\"\n", 5);
    assert!(events.is_empty());
    assert_eq!(d.finish(), vec![text("pending"), Event::StreamEnd]);
    assert_eq!(d.phase(), Phase::Completed);
}

#[test]
fn end_without_text_gives_only_stream_end() {
    let mut d = StreamDecoder::new(0);
    assert_eq!(d.finish(), vec![Event::StreamEnd]);
    assert!(d.finish().is_empty());
}

#[test]
fn rejected_status_gives_one_error() {
    let mut d = StreamDecoder::new(0);
    let mut events = d.on_status(500, "server exploded".to_string());
    assert_eq!(d.phase(), Phase::Failed);
    events.extend(d.on_chunk(b"0:\"ignored\"\n", 1));
    events.extend(d.finish());
    assert_eq!(events, vec![error("server exploded")]);
}

#[test]
fn success_status_gives_nothing() {
    let mut d = StreamDecoder::new(0);
    assert!(d.on_status(200, String::new()).is_empty());
    assert_eq!(d.phase(), Phase::Streaming);
}

#[test]
fn read_error_ends_session() {
    let mut d = StreamDecoder::new(0);
    assert!(d.on_chunk(b"0:\"lost\"\n", 1).is_empty());
    let events = d.on_read_error("connection reset".to_string());
    assert_eq!(events, vec![error("connection reset")]);
    assert_eq!(d.phase(), Phase::Failed);
    assert!(d.on_chunk(b"0:\"more\"\n", 2).is_empty());
    assert!(d.finish().is_empty());
}

#[test]
fn size_threshold_flushes() {
    let mut d = StreamDecoder::new(0);
    let long = "x".repeat(51);
    let line = format!("0:\"{}\"\n", long);
    assert_eq!(d.on_chunk(line.as_bytes(), 1), vec![text(&long)]);
    let exact = "y".repeat(50);
    let line = format!("0:\"{}\"\n", exact);
    assert!(d.on_chunk(line.as_bytes(), 2).is_empty());
}

#[test]
fn time_threshold_flushes() {
    let mut d = StreamDecoder::new(0);
    assert!(d.on_chunk(b"0:\"a\"\n", 100).is_empty());
    assert_eq!(d.on_chunk(b"0:\"b\"\n", 101), vec![text("ab")]);
    assert!(d.on_chunk(b"0:\"c\"\n", 150).is_empty());
    assert_eq!(d.on_chunk(b"0:\"d\"\n", 202), vec![text("cd")]);
}

#[test]
fn custom_limits() {
    let mut d = StreamDecoder::with_limits(2, 1000, 0);
    assert!(d.on_chunk(b"0:\"ab\"\n", 1).is_empty());
    assert_eq!(d.on_chunk(b"0:\"c\"\n", 2), vec![text("abc")]);
}

#[test]
fn error_frame_flushes_held_text_first() {
    let mut d = StreamDecoder::new(0);
    let events = d.on_chunk(b"0:\"partial\"\n3:boom\n", 1);
    assert_eq!(events, vec![text("partial"), error("boom")]);
}

#[test]
fn trailing_partial_line_is_dropped_at_end() {
    let events = run(&[b"0:\"kept\"\n0:\"never ended\""], &[0]);
    assert_eq!(events, vec![text("kept"), Event::StreamEnd]);
}

#[test]
fn crlf_and_noise_lines() {
    let events = run(&[b"\r\n:\r\nx\r\nhello world\r\n9:\"unknown\"\r\n0:\"ok\"\r\n"], &[0]);
    assert_eq!(events, vec![text("ok"), Event::StreamEnd]);
}

#[test]
fn invalid_utf8_is_replaced() {
    let events = run(&[b"0:\"a\xffb\"\n"], &[0]);
    assert_eq!(events, vec![text("a\u{fffd}b"), Event::StreamEnd]);
}

#[test]
fn success_statuses() {
    assert!(is_success_status(200));
    assert!(is_success_status(204));
    assert!(is_success_status(299));
    assert!(!is_success_status(199));
    assert!(!is_success_status(300));
    assert!(!is_success_status(404));
    assert!(!is_success_status(500));
}
