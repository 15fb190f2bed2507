//! The state machine that turns the response stream into events.
use vstd::prelude::*;

use crate::emitter::accept_step;
use crate::emitter::flush_step;
use crate::emitter::CoalescingEmitter;
use crate::emitter::EmitterView;
use crate::emitter::DEFAULT_INTERVAL_MS;
use crate::emitter::DEFAULT_SIZE_LIMIT;
use crate::frame::classify;
use crate::frame::frame_of;
use crate::frame::FrameKind;
use crate::line_buffer::complete_lines;
use crate::line_buffer::partial_line;
use crate::line_buffer::strings_view;
use crate::line_buffer::text_lines;
use crate::line_buffer::LineBuffer;
use crate::resolve::error_message;
use crate::resolve::error_text;
use crate::resolve::resolve;
use crate::resolve::resolved_text;

verus! {

/// Where a decoding session stands.
#[derive(Clone, Copy, Debug, PartialEq, Eq, Structural)]
pub enum Phase {
    Streaming,
    Completed,
    Failed,
}

/// What the decoder hands to its consumer.
#[derive(Clone, Debug, PartialEq, Eq)]
pub enum Event {
    TextChunk(String),
    StreamError(String),
    StreamEnd,
}

/// The mathematical value of an event.
pub enum EventView {
    TextChunk(Seq<char>),
    StreamError(Seq<char>),
    StreamEnd,
}

impl View for Event {
    type V = EventView;

    open spec fn view(&self) -> EventView {
        match self {
            Event::TextChunk(t) => EventView::TextChunk(t@),
            Event::StreamError(m) => EventView::StreamError(m@),
            Event::StreamEnd => EventView::StreamEnd,
        }
    }
}

/// The views of a sequence of events.
pub open spec fn events_view(v: Seq<Event>) -> Seq<EventView> {
    v.map_values(|e: Event| e@)
}

/// The event for a chunk handed out by the emitter, if one was.
pub open spec fn chunk_event(out: Option<Seq<char>>) -> Seq<EventView> {
    match out {
        Some(t) => seq![EventView::TextChunk(t)],
        None => seq![],
    }
}

/// Whether an HTTP status is a success (2xx).
pub open spec fn success_status(status: u16) -> bool {
    200 <= status <= 299
}

/// The work of one complete line: text goes to the emitter, an end frame
/// flushes it, an error frame flushes it and reports its message, and every
/// other line is passed over. An error frame does not end the session: the
/// upstream is relied on to follow it with an end marker or to close the
/// stream.
pub open spec fn line_step(e: EmitterView, line: Seq<char>, now: u64) -> (EmitterView, Seq<
    EventView,
>) {
    match frame_of(line) {
        Some(f) => {
            if f.kind == FrameKind::TextDelta {
                match resolved_text(f) {
                    Some(t) => {
                        if t.len() > 0 {
                            let (e2, out) = accept_step(e, t, now);
                            (e2, chunk_event(out))
                        } else {
                            (e, seq![])
                        }
                    },
                    None => (e, seq![]),
                }
            } else if f.kind == FrameKind::StreamEnd {
                let (e2, out) = flush_step(e);
                (e2, chunk_event(out))
            } else if f.kind == FrameKind::ErrorFrame {
                let (e2, out) = flush_step(e);
                (e2, chunk_event(out).push(EventView::StreamError(error_text(f))))
            } else {
                (e, seq![])
            }
        },
        None => (e, seq![]),
    }
}

/// The work of a sequence of lines, in order, all at time `now`.
pub open spec fn lines_step(e: EmitterView, lines: Seq<Seq<char>>, now: u64) -> (EmitterView, Seq<
    EventView,
>)
    decreases lines.len(),
{
    if lines.len() == 0 {
        (e, seq![])
    } else {
        let (e1, ev1) = lines_step(e, lines.drop_last(), now);
        let (e2, ev2) = line_step(e1, lines.last(), now);
        (e2, ev1 + ev2)
    }
}

/// The mathematical value of a decoder.
pub struct DecoderView {
    pub phase: Phase,
    /// Bytes of a line not yet complete.
    pub pending: Seq<u8>,
    pub emitter: EmitterView,
}

/// A fresh decoder, with the given thresholds, started at `now`.
pub open spec fn fresh(size_limit: usize, interval_ms: u64, now: u64) -> DecoderView {
    DecoderView {
        phase: Phase::Streaming,
        pending: seq![],
        emitter: EmitterView { pending: seq![], last_flush_ms: now, size_limit, interval_ms },
    }
}

/// The HTTP status of the response arrives: one that is no success ends the
/// session with the response body as its error.
pub open spec fn status_step(d: DecoderView, status: u16, body: Seq<char>) -> (DecoderView, Seq<
    EventView,
>) {
    if d.phase == Phase::Streaming && !success_status(status) {
        (DecoderView { phase: Phase::Failed, ..d }, seq![EventView::StreamError(body)])
    } else {
        (d, seq![])
    }
}

/// A chunk of bytes arrives at time `now`: every line it completes is
/// worked, and the rest waits for the next chunk.
pub open spec fn chunk_step(d: DecoderView, chunk: Seq<u8>, now: u64) -> (DecoderView, Seq<
    EventView,
>) {
    if d.phase == Phase::Streaming {
        let all = d.pending + chunk;
        let (e2, ev) = lines_step(d.emitter, text_lines(complete_lines(all)), now);
        (DecoderView { phase: Phase::Streaming, pending: partial_line(all), emitter: e2 }, ev)
    } else {
        (d, seq![])
    }
}

/// Reading the next chunk failed: the session ends with that error.
pub open spec fn read_error_step(d: DecoderView, message: Seq<char>) -> (DecoderView, Seq<
    EventView,
>) {
    if d.phase == Phase::Streaming {
        (DecoderView { phase: Phase::Failed, ..d }, seq![EventView::StreamError(message)])
    } else {
        (d, seq![])
    }
}

/// The stream closed: held text is handed out, then the end is signalled.
pub open spec fn finish_step(d: DecoderView) -> (DecoderView, Seq<EventView>) {
    if d.phase == Phase::Streaming {
        let (e2, out) = flush_step(d.emitter);
        (
            DecoderView { phase: Phase::Completed, emitter: e2, ..d },
            chunk_event(out).push(EventView::StreamEnd),
        )
    } else {
        (d, seq![])
    }
}

/// Whether an HTTP status is a success (2xx).
pub fn is_success_status(status: u16) -> (r: bool)
    ensures
        r == success_status(status),
{
    200 <= status && status <= 299
}

/// Works one line into the emitter, appending the events to `out`.
fn apply_line(emitter: &mut CoalescingEmitter, line: &str, now_ms: u64, out: &mut Vec<Event>)
    ensures
        final(emitter)@ == line_step(old(emitter)@, line@, now_ms).0,
        events_view(final(out)@) == events_view(old(out)@) + line_step(
            old(emitter)@,
            line@,
            now_ms,
        ).1,
{
    let ghost out0 = events_view(out@);
    match classify(line) {
        Some(frame) => {
            if frame.kind == FrameKind::TextDelta {
                match resolve(&frame) {
                    Some(text) => {
                        if text.as_str().unicode_len() > 0 {
                            if let Some(chunk) = emitter.accept(text.as_str(), now_ms) {
                                out.push(Event::TextChunk(chunk));
                            }
                        }
                    },
                    None => {},
                }
            } else if frame.kind == FrameKind::StreamEnd {
                if let Some(chunk) = emitter.force_flush() {
                    out.push(Event::TextChunk(chunk));
                }
            } else if frame.kind == FrameKind::ErrorFrame {
                if let Some(chunk) = emitter.force_flush() {
                    out.push(Event::TextChunk(chunk));
                }
                out.push(Event::StreamError(error_message(&frame)));
            }
        },
        None => {},
    }
    assert(events_view(out@) =~= out0 + line_step(old(emitter)@, line@, now_ms).1);
}

/// Decodes one response stream into events.
pub struct StreamDecoder {
    phase: Phase,
    lines: LineBuffer,
    emitter: CoalescingEmitter,
}

impl View for StreamDecoder {
    type V = DecoderView;

    closed spec fn view(&self) -> DecoderView {
        DecoderView { phase: self.phase, pending: self.lines@, emitter: self.emitter@ }
    }
}

impl StreamDecoder {
    /// A decoder with the default thresholds, started at `now_ms`.
    pub fn new(now_ms: u64) -> (r: StreamDecoder)
        ensures
            r@ == fresh(DEFAULT_SIZE_LIMIT, DEFAULT_INTERVAL_MS, now_ms),
    {
        StreamDecoder::with_limits(DEFAULT_SIZE_LIMIT, DEFAULT_INTERVAL_MS, now_ms)
    }

    /// A decoder with the given thresholds, started at `now_ms`.
    pub fn with_limits(size_limit: usize, interval_ms: u64, now_ms: u64) -> (r: StreamDecoder)
        ensures
            r@ == fresh(size_limit, interval_ms, now_ms),
    {
        StreamDecoder {
            phase: Phase::Streaming,
            lines: LineBuffer::new(),
            emitter: CoalescingEmitter::new(size_limit, interval_ms, now_ms),
        }
    }

    /// Where the session stands.
    pub fn phase(&self) -> (r: Phase)
        ensures
            r == self@.phase,
    {
        self.phase
    }

    /// Takes the HTTP status of the response, with its body in case the
    /// status is no success.
    pub fn on_status(&mut self, status: u16, body: String) -> (r: Vec<Event>)
        ensures
            (final(self)@, events_view(r@)) == status_step(old(self)@, status, body@),
    {
        let mut out: Vec<Event> = Vec::new();
        if self.phase == Phase::Streaming && !is_success_status(status) {
            self.phase = Phase::Failed;
            out.push(Event::StreamError(body));
            assert(events_view(out@) =~= seq![EventView::StreamError(body@)]);
        }
        out
    }

    /// Takes one chunk of the response body, received at time `now_ms`.
    pub fn on_chunk(&mut self, chunk: &[u8], now_ms: u64) -> (r: Vec<Event>)
        ensures
            (final(self)@, events_view(r@)) == chunk_step(old(self)@, chunk@, now_ms),
    {
        let mut out: Vec<Event> = Vec::new();
        if self.phase != Phase::Streaming {
            assert(events_view(out@) =~= seq![]);
            return out;
        }
        self.lines.push(chunk);
        let texts = self.lines.drain_lines();
        let ghost lines = strings_view(texts@);
        let ghost e0 = self.emitter@;
        assert(events_view(out@) =~= seq![]);
        assert(lines.take(0) =~= seq![]);
        let mut i: usize = 0;
        while i < texts.len()
            invariant
                i <= texts@.len(),
                lines == strings_view(texts@),
                self.emitter@ == lines_step(e0, lines.take(i as int), now_ms).0,
                events_view(out@) == lines_step(e0, lines.take(i as int), now_ms).1,
                self.phase == Phase::Streaming,
                self.lines@ == partial_line(old(self)@.pending + chunk@),
            decreases texts@.len() - i,
        {
            assert(lines.take(i + 1).drop_last() =~= lines.take(i as int));
            apply_line(&mut self.emitter, texts[i].as_str(), now_ms, &mut out);
            i = i + 1;
        }
        assert(lines.take(texts@.len() as int) =~= lines);
        out
    }

    /// Takes a failure to read the next chunk.
    pub fn on_read_error(&mut self, message: String) -> (r: Vec<Event>)
        ensures
            (final(self)@, events_view(r@)) == read_error_step(old(self)@, message@),
    {
        let mut out: Vec<Event> = Vec::new();
        if self.phase == Phase::Streaming {
            self.phase = Phase::Failed;
            out.push(Event::StreamError(message));
            assert(events_view(out@) =~= seq![EventView::StreamError(message@)]);
        }
        out
    }

    /// Takes the graceful end of the response body.
    pub fn finish(&mut self) -> (r: Vec<Event>)
        ensures
            (final(self)@, events_view(r@)) == finish_step(old(self)@),
    {
        let mut out: Vec<Event> = Vec::new();
        if self.phase == Phase::Streaming {
            if let Some(chunk) = self.emitter.force_flush() {
                out.push(Event::TextChunk(chunk));
            }
            out.push(Event::StreamEnd);
            self.phase = Phase::Completed;
            assert(events_view(out@) =~= chunk_event(flush_step(old(self)@.emitter).1).push(
                EventView::StreamEnd,
            ));
        }
        out
    }
}

} // verus!
