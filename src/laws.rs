//! What holds of whole decoding sessions.
use vstd::prelude::*;

use crate::decoder::chunk_event;
use crate::decoder::chunk_step;
use crate::decoder::finish_step;
use crate::decoder::fresh;
use crate::decoder::line_step;
use crate::decoder::lines_step;
use crate::decoder::status_step;
use crate::decoder::success_status;
use crate::decoder::DecoderView;
use crate::decoder::EventView;
use crate::decoder::Phase;
use crate::emitter::accept_step;
use crate::emitter::flush_step;
use crate::emitter::EmitterView;
use crate::frame::frame_of;
use crate::frame::FrameKind;
use crate::line_buffer::complete_lines;
use crate::line_buffer::lemma_no_newline;
use crate::line_buffer::lemma_partial_has_no_newline;
use crate::line_buffer::partial_line;
use crate::line_buffer::text_lines;
use crate::line_buffer::NEWLINE;
use crate::resolve::resolved_text;

verus! {

/// The texts of a sequence, concatenated in order.
pub open spec fn concat(ts: Seq<Seq<char>>) -> Seq<char>
    decreases ts.len(),
{
    if ts.len() == 0 {
        seq![]
    } else {
        concat(ts.drop_last()) + ts.last()
    }
}

/// The byte chunks of a sequence, joined in order.
pub open spec fn joined(chunks: Seq<Seq<u8>>) -> Seq<u8>
    decreases chunks.len(),
{
    if chunks.len() == 0 {
        seq![]
    } else {
        joined(chunks.drop_last()) + chunks.last()
    }
}

/// The text of the `TextChunk` events of a sequence, concatenated in order.
pub open spec fn chunk_text(ev: Seq<EventView>) -> Seq<char>
    decreases ev.len(),
{
    if ev.len() == 0 {
        seq![]
    } else {
        chunk_text(ev.drop_last()) + match ev.last() {
            EventView::TextChunk(t) => t,
            _ => seq![],
        }
    }
}

/// The text that one line resolves to as a text frame; nothing for any
/// other line.
pub open spec fn line_delta(line: Seq<char>) -> Seq<char> {
    match frame_of(line) {
        Some(f) => {
            if f.kind == FrameKind::TextDelta {
                match resolved_text(f) {
                    Some(t) => t,
                    None => seq![],
                }
            } else {
                seq![]
            }
        },
        None => seq![],
    }
}

/// The text that a sequence of lines resolves to, concatenated in order.
pub open spec fn delta_text(lines: Seq<Seq<char>>) -> Seq<char>
    decreases lines.len(),
{
    if lines.len() == 0 {
        seq![]
    } else {
        delta_text(lines.drop_last()) + line_delta(lines.last())
    }
}

/// The chunks handed out by an emitter that accepts `texts`, the text at
/// position `i` at time `times[i]`.
pub open spec fn run_emitter(e: EmitterView, texts: Seq<Seq<char>>, times: Seq<u64>) -> (
    EmitterView,
    Seq<Seq<char>>,
)
    decreases texts.len(),
{
    if texts.len() == 0 {
        (e, seq![])
    } else {
        let (e1, out1) = run_emitter(e, texts.drop_last(), times);
        let (e2, out) = accept_step(e1, texts.last(), times[texts.len() - 1]);
        (e2, out1 + opt_seq(out))
    }
}

/// An optional text as a sequence of none or one text.
pub open spec fn opt_seq(o: Option<Seq<char>>) -> Seq<Seq<char>> {
    match o {
        Some(t) => seq![t],
        None => seq![],
    }
}

/// The decoder after the chunks `chunks`, the one at position `i` received
/// at time `times[i]`, with the events they gave.
pub open spec fn feed(d: DecoderView, chunks: Seq<Seq<u8>>, times: Seq<u64>) -> (DecoderView, Seq<
    EventView,
>)
    decreases chunks.len(),
{
    if chunks.len() == 0 {
        (d, seq![])
    } else {
        let (d1, ev1) = feed(d, chunks.drop_last(), times);
        let (d2, ev2) = chunk_step(d1, chunks.last(), times[chunks.len() - 1]);
        (d2, ev1 + ev2)
    }
}

/// The events of a whole session of a fresh decoder: the chunks, then the
/// graceful end of the stream.
pub open spec fn session(
    size_limit: usize,
    interval_ms: u64,
    start: u64,
    chunks: Seq<Seq<u8>>,
    times: Seq<u64>,
) -> Seq<EventView> {
    let (d, ev) = feed(fresh(size_limit, interval_ms, start), chunks, times);
    ev + finish_step(d).1
}

proof fn lemma_chunk_text_add(a: Seq<EventView>, b: Seq<EventView>)
    ensures
        chunk_text(a + b) == chunk_text(a) + chunk_text(b),
    decreases b.len(),
{
    if b.len() == 0 {
        assert(a + b =~= a);
        assert(chunk_text(a) + chunk_text(b) =~= chunk_text(a));
    } else {
        lemma_chunk_text_add(a, b.drop_last());
        assert((a + b).drop_last() =~= a + b.drop_last());
        assert((a + b).last() == b.last());
        assert(chunk_text(a + b) =~= chunk_text(a) + chunk_text(b));
    }
}

proof fn lemma_chunk_text_one(x: EventView)
    ensures
        chunk_text(seq![x]) == match x {
            EventView::TextChunk(t) => t,
            _ => seq![],
        },
{
    assert(seq![x].drop_last() =~= seq![]);
    assert(chunk_text(seq![x]) =~= chunk_text(seq![x].drop_last()) + match x {
        EventView::TextChunk(t) => t,
        _ => seq![],
    });
}

proof fn lemma_delta_text_add(a: Seq<Seq<char>>, b: Seq<Seq<char>>)
    ensures
        delta_text(a + b) == delta_text(a) + delta_text(b),
    decreases b.len(),
{
    if b.len() == 0 {
        assert(a + b =~= a);
        assert(delta_text(a) + delta_text(b) =~= delta_text(a));
    } else {
        lemma_delta_text_add(a, b.drop_last());
        assert((a + b).drop_last() =~= a + b.drop_last());
        assert((a + b).last() == b.last());
        assert(delta_text(a + b) =~= delta_text(a) + delta_text(b));
    }
}

proof fn lemma_concat_add(a: Seq<Seq<char>>, b: Seq<Seq<char>>)
    ensures
        concat(a + b) == concat(a) + concat(b),
    decreases b.len(),
{
    if b.len() == 0 {
        assert(a + b =~= a);
        assert(concat(a) + concat(b) =~= concat(a));
    } else {
        lemma_concat_add(a, b.drop_last());
        assert((a + b).drop_last() =~= a + b.drop_last());
        assert((a + b).last() == b.last());
        assert(concat(a + b) =~= concat(a) + concat(b));
    }
}

/// Regrouping two steps of the form `out + held == held_before + added`.
proof fn lemma_regroup(
    a: Seq<char>,
    b: Seq<char>,
    p0: Seq<char>,
    p1: Seq<char>,
    p2: Seq<char>,
    d: Seq<char>,
    x: Seq<char>,
)
    requires
        a + p1 == p0 + d,
        b + p2 == p1 + x,
    ensures
        (a + b) + p2 == p0 + (d + x),
{
    assert((a + b) + p2 =~= a + (b + p2));
    assert(a + (p1 + x) =~= (a + p1) + x);
    assert((p0 + d) + x =~= p0 + (d + x));
}

/// One line keeps the text: what it hands out, then what stays held, is
/// what was held, then the text the line resolves to.
proof fn lemma_line_step_text(e: EmitterView, line: Seq<char>, now: u64)
    ensures
        chunk_text(line_step(e, line, now).1) + line_step(e, line, now).0.pending == e.pending
            + line_delta(line),
{
    let (e2, ev) = line_step(e, line, now);
    assert(chunk_text(seq![]) == Seq::<char>::empty());
    if let Some(f) = frame_of(line) {
        if f.kind == FrameKind::TextDelta {
            if let Some(t) = resolved_text(f) {
                if t.len() > 0 {
                    if let Some(c) = accept_step(e, t, now).1 {
                        lemma_chunk_text_one(EventView::TextChunk(c));
                    }
                }
            }
        } else if f.kind == FrameKind::StreamEnd || f.kind == FrameKind::ErrorFrame {
            let out = flush_step(e).1;
            if let Some(c) = out {
                lemma_chunk_text_one(EventView::TextChunk(c));
            }
            if f.kind == FrameKind::ErrorFrame {
                assert(ev.drop_last() =~= chunk_event(out));
            }
        }
    }
    assert(chunk_text(ev) + e2.pending =~= e.pending + line_delta(line));
}

/// A run of lines keeps the text.
proof fn lemma_lines_step_text(e: EmitterView, lines: Seq<Seq<char>>, now: u64)
    ensures
        chunk_text(lines_step(e, lines, now).1) + lines_step(e, lines, now).0.pending == e.pending
            + delta_text(lines),
    decreases lines.len(),
{
    if lines.len() == 0 {
        assert(chunk_text(seq![]) + e.pending =~= e.pending + delta_text(lines));
    } else {
        let (e1, ev1) = lines_step(e, lines.drop_last(), now);
        let (e2, ev2) = line_step(e1, lines.last(), now);
        lemma_lines_step_text(e, lines.drop_last(), now);
        lemma_line_step_text(e1, lines.last(), now);
        lemma_chunk_text_add(ev1, ev2);
        lemma_regroup(
            chunk_text(ev1),
            chunk_text(ev2),
            e.pending,
            e1.pending,
            e2.pending,
            delta_text(lines.drop_last()),
            line_delta(lines.last()),
        );
    }
}

/// Cutting `a + c` into lines is cutting `a`, then the partial line of `a`
/// followed by `c`.
proof fn lemma_lines_split(a: Seq<u8>, c: Seq<u8>)
    ensures
        complete_lines(a + c) == complete_lines(a) + complete_lines(partial_line(a) + c),
        partial_line(a + c) == partial_line(partial_line(a) + c),
    decreases c.len(),
{
    if c.len() == 0 {
        lemma_partial_has_no_newline(a);
        lemma_no_newline(partial_line(a));
        assert(a + c =~= a);
        assert(partial_line(a) + c =~= partial_line(a));
        assert(complete_lines(a) + complete_lines(partial_line(a)) =~= complete_lines(a));
    } else {
        let c1 = c.drop_last();
        lemma_lines_split(a, c1);
        assert((a + c).drop_last() =~= a + c1);
        assert((a + c).last() == c.last());
        let pc = partial_line(a) + c;
        assert(pc.drop_last() =~= partial_line(a) + c1);
        assert(pc.last() == c.last());
        if c.last() == NEWLINE {
            assert(complete_lines(a + c) =~= complete_lines(a) + complete_lines(pc));
        } else {
            assert(complete_lines(a + c) =~= complete_lines(a) + complete_lines(pc));
        }
    }
}

proof fn lemma_text_lines_add(a: Seq<Seq<u8>>, b: Seq<Seq<u8>>)
    ensures
        text_lines(a + b) == text_lines(a) + text_lines(b),
{
    assert(text_lines(a + b) =~= text_lines(a) + text_lines(b));
}

/// After any chunks, a fresh decoder still streams, holds the partial line
/// of all bytes received, and what it handed out, then what it holds, is the
/// text of every complete line received.
proof fn lemma_feed_text(
    size_limit: usize,
    interval_ms: u64,
    start: u64,
    chunks: Seq<Seq<u8>>,
    times: Seq<u64>,
)
    ensures
        ({
            let (d, ev) = feed(fresh(size_limit, interval_ms, start), chunks, times);
            &&& d.phase == Phase::Streaming
            &&& d.pending == partial_line(joined(chunks))
            &&& chunk_text(ev) + d.emitter.pending == delta_text(
                text_lines(complete_lines(joined(chunks))),
            )
        }),
    decreases chunks.len(),
{
    let d0 = fresh(size_limit, interval_ms, start);
    if chunks.len() == 0 {
        assert(text_lines(seq![]) =~= seq![]);
        assert(chunk_text(seq![]) + d0.emitter.pending =~= seq![]);
    } else {
        let prefix = chunks.drop_last();
        let c = chunks.last();
        let now = times[chunks.len() - 1];
        lemma_feed_text(size_limit, interval_ms, start, prefix, times);
        let (d1, ev1) = feed(d0, prefix, times);
        let j1 = joined(prefix);
        let all = d1.pending + c;
        let (e2, ev2) = lines_step(d1.emitter, text_lines(complete_lines(all)), now);
        lemma_lines_step_text(d1.emitter, text_lines(complete_lines(all)), now);
        lemma_chunk_text_add(ev1, ev2);
        lemma_lines_split(j1, c);
        lemma_text_lines_add(complete_lines(j1), complete_lines(all));
        lemma_delta_text_add(text_lines(complete_lines(j1)), text_lines(complete_lines(all)));
        assert(seq![] + delta_text(text_lines(complete_lines(j1))) =~= delta_text(
            text_lines(complete_lines(j1)),
        ));
        lemma_regroup(
            chunk_text(ev1),
            chunk_text(ev2),
            seq![],
            d1.emitter.pending,
            e2.pending,
            delta_text(text_lines(complete_lines(j1))),
            delta_text(text_lines(complete_lines(all))),
        );
        assert(seq![] + delta_text(text_lines(complete_lines(joined(chunks)))) =~= delta_text(
            text_lines(complete_lines(joined(chunks))),
        ));
    }
}

/// The text handed out over a whole session is the text of every complete
/// line of the stream, in order, whatever the thresholds and the times of
/// arrival.
pub proof fn lemma_session_text(
    size_limit: usize,
    interval_ms: u64,
    start: u64,
    chunks: Seq<Seq<u8>>,
    times: Seq<u64>,
)
    ensures
        chunk_text(session(size_limit, interval_ms, start, chunks, times)) == delta_text(
            text_lines(complete_lines(joined(chunks))),
        ),
{
    lemma_feed_text(size_limit, interval_ms, start, chunks, times);
    let (d, ev) = feed(fresh(size_limit, interval_ms, start), chunks, times);
    let ev2 = finish_step(d).1;
    let out = flush_step(d.emitter).1;
    lemma_chunk_text_add(ev, ev2);
    lemma_chunk_text_add(chunk_event(out), seq![EventView::StreamEnd]);
    lemma_chunk_text_one(EventView::StreamEnd);
    assert(ev2 =~= chunk_event(out) + seq![EventView::StreamEnd]);
    if let Some(t) = out {
        lemma_chunk_text_one(EventView::TextChunk(t));
    }
    assert(chunk_text(ev2) =~= d.emitter.pending);
}

/// How a stream is cut into chunks changes nothing of the text handed out:
/// two sessions over the same bytes hand out the same text, in order.
pub proof fn lemma_chunking_keeps_text(
    size_limit: usize,
    interval_ms: u64,
    start: u64,
    chunks1: Seq<Seq<u8>>,
    times1: Seq<u64>,
    chunks2: Seq<Seq<u8>>,
    times2: Seq<u64>,
)
    requires
        joined(chunks1) == joined(chunks2),
    ensures
        chunk_text(session(size_limit, interval_ms, start, chunks1, times1)) == chunk_text(
            session(size_limit, interval_ms, start, chunks2, times2),
        ),
{
    lemma_session_text(size_limit, interval_ms, start, chunks1, times1);
    lemma_session_text(size_limit, interval_ms, start, chunks2, times2);
}

/// Coalescing neither drops nor reorders text: whatever the thresholds and
/// times, the chunks handed out while accepting `texts`, then the final
/// flush, concatenate to what was held, then `texts` in order; nothing
/// stays held.
pub proof fn lemma_coalescing_keeps_text(e: EmitterView, texts: Seq<Seq<char>>, times: Seq<u64>)
    ensures
        ({
            let (e1, out) = run_emitter(e, texts, times);
            let (e2, last) = flush_step(e1);
            &&& concat(out + opt_seq(last)) == e.pending + concat(texts)
            &&& e2.pending.len() == 0
        }),
{
    lemma_run_emitter_text(e, texts, times);
    let (e1, out) = run_emitter(e, texts, times);
    let (e2, last) = flush_step(e1);
    lemma_concat_add(out, opt_seq(last));
    lemma_concat_opt(last);
    assert(concat(out + opt_seq(last)) =~= e.pending + concat(texts));
}

proof fn lemma_concat_opt(o: Option<Seq<char>>)
    ensures
        concat(opt_seq(o)) == match o {
            Some(t) => t,
            None => Seq::<char>::empty(),
        },
{
    match o {
        Some(t) => {
            assert(seq![t].drop_last() =~= Seq::<Seq<char>>::empty());
            assert(seq![t].last() == t);
            assert(concat(Seq::<Seq<char>>::empty()) == Seq::<char>::empty());
            assert(concat(seq![t]) =~= t);
        },
        None => {},
    }
}

proof fn lemma_run_emitter_text(e: EmitterView, texts: Seq<Seq<char>>, times: Seq<u64>)
    ensures
        concat(run_emitter(e, texts, times).1) + run_emitter(e, texts, times).0.pending == e.pending
            + concat(texts),
    decreases texts.len(),
{
    if texts.len() == 0 {
        assert(concat(seq![]) + e.pending =~= e.pending + concat(texts));
    } else {
        lemma_run_emitter_text(e, texts.drop_last(), times);
        let (e1, out1) = run_emitter(e, texts.drop_last(), times);
        let (e2, out) = accept_step(e1, texts.last(), times[texts.len() - 1]);
        lemma_concat_add(out1, opt_seq(out));
        lemma_concat_opt(out);
        let added = match out {
            Some(t) => t,
            None => Seq::<char>::empty(),
        };
        assert(added + e2.pending =~= e1.pending + texts.last());
        lemma_regroup(
            concat(out1),
            added,
            e.pending,
            e1.pending,
            e2.pending,
            concat(texts.drop_last()),
            texts.last(),
        );
    }
}

/// A stream that ends while text is held hands out exactly one chunk with
/// all of that text, then signals its end.
pub proof fn lemma_end_hands_out_held_text(d: DecoderView)
    requires
        d.phase == Phase::Streaming,
        d.emitter.pending.len() > 0,
    ensures
        finish_step(d).1 == seq![EventView::TextChunk(d.emitter.pending), EventView::StreamEnd],
        finish_step(d).0.phase == Phase::Completed,
        finish_step(d).0.emitter.pending.len() == 0,
{
    assert(finish_step(d).1 =~= seq![EventView::TextChunk(d.emitter.pending), EventView::StreamEnd]);
}

/// A response whose status is no success gives exactly one event, its error,
/// whatever chunks and end of stream follow.
pub proof fn lemma_rejected_status_is_final(
    size_limit: usize,
    interval_ms: u64,
    start: u64,
    status: u16,
    body: Seq<char>,
    chunks: Seq<Seq<u8>>,
    times: Seq<u64>,
)
    requires
        !success_status(status),
    ensures
        ({
            let (d1, ev1) = status_step(fresh(size_limit, interval_ms, start), status, body);
            let (d2, ev2) = feed(d1, chunks, times);
            let (d3, ev3) = finish_step(d2);
            &&& ev1 + ev2 + ev3 == seq![EventView::StreamError(body)]
            &&& d3.phase == Phase::Failed
        }),
{
    let (d1, ev1) = status_step(fresh(size_limit, interval_ms, start), status, body);
    lemma_failed_feed_is_silent(d1, chunks, times);
    let (d2, ev2) = feed(d1, chunks, times);
    assert(ev1 + ev2 + finish_step(d2).1 =~= seq![EventView::StreamError(body)]);
}

proof fn lemma_failed_feed_is_silent(d: DecoderView, chunks: Seq<Seq<u8>>, times: Seq<u64>)
    requires
        d.phase == Phase::Failed,
    ensures
        feed(d, chunks, times) == (d, Seq::<EventView>::empty()),
    decreases chunks.len(),
{
    if chunks.len() > 0 {
        lemma_failed_feed_is_silent(d, chunks.drop_last(), times);
        assert(feed(d, chunks, times).1 =~= Seq::<EventView>::empty());
    }
}

/// Whether every `TextChunk` of a sequence of events carries some text.
pub open spec fn chunks_non_empty(ev: Seq<EventView>) -> bool {
    forall|i: int|
        0 <= i < ev.len() ==> (#[trigger] ev[i] matches EventView::TextChunk(t) ==> t.len() > 0)
}

proof fn lemma_non_empty_add(a: Seq<EventView>, b: Seq<EventView>)
    requires
        chunks_non_empty(a),
        chunks_non_empty(b),
    ensures
        chunks_non_empty(a + b),
{
    assert forall|i: int| 0 <= i < (a + b).len() implies (#[trigger] (a + b)[i] matches EventView::TextChunk(t) ==> t.len() > 0) by {
        if i < a.len() {
            assert((a + b)[i] == a[i]);
        } else {
            assert((a + b)[i] == b[i - a.len()]);
        }
    }
}

proof fn lemma_line_step_non_empty(e: EmitterView, line: Seq<char>, now: u64)
    ensures
        chunks_non_empty(line_step(e, line, now).1),
{
}

proof fn lemma_lines_step_non_empty(e: EmitterView, lines: Seq<Seq<char>>, now: u64)
    ensures
        chunks_non_empty(lines_step(e, lines, now).1),
    decreases lines.len(),
{
    if lines.len() > 0 {
        let (e1, ev1) = lines_step(e, lines.drop_last(), now);
        lemma_lines_step_non_empty(e, lines.drop_last(), now);
        lemma_line_step_non_empty(e1, lines.last(), now);
        lemma_non_empty_add(ev1, line_step(e1, lines.last(), now).1);
    }
}

proof fn lemma_feed_non_empty(d: DecoderView, chunks: Seq<Seq<u8>>, times: Seq<u64>)
    ensures
        chunks_non_empty(feed(d, chunks, times).1),
    decreases chunks.len(),
{
    if chunks.len() > 0 {
        let (d1, ev1) = feed(d, chunks.drop_last(), times);
        lemma_feed_non_empty(d, chunks.drop_last(), times);
        let c = chunks.last();
        let now = times[chunks.len() - 1];
        if d1.phase == Phase::Streaming {
            lemma_lines_step_non_empty(d1.emitter, text_lines(complete_lines(d1.pending + c)), now);
        }
        lemma_non_empty_add(ev1, chunk_step(d1, c, now).1);
    }
}

/// No `TextChunk` of a session is empty.
pub proof fn lemma_session_chunks_non_empty(
    size_limit: usize,
    interval_ms: u64,
    start: u64,
    chunks: Seq<Seq<u8>>,
    times: Seq<u64>,
)
    ensures
        chunks_non_empty(session(size_limit, interval_ms, start, chunks, times)),
{
    let (d, ev) = feed(fresh(size_limit, interval_ms, start), chunks, times);
    lemma_feed_non_empty(fresh(size_limit, interval_ms, start), chunks, times);
    lemma_non_empty_add(ev, finish_step(d).1);
}

/// Whether no event of a sequence is a `StreamEnd`.
pub open spec fn no_stream_end(ev: Seq<EventView>) -> bool {
    forall|i: int| 0 <= i < ev.len() ==> !(#[trigger] ev[i] is StreamEnd)
}

proof fn lemma_no_stream_end_add(a: Seq<EventView>, b: Seq<EventView>)
    requires
        no_stream_end(a),
        no_stream_end(b),
    ensures
        no_stream_end(a + b),
{
    assert forall|i: int| 0 <= i < (a + b).len() implies !(#[trigger] (a + b)[i] is StreamEnd) by {
        if i < a.len() {
            assert((a + b)[i] == a[i]);
        } else {
            assert((a + b)[i] == b[i - a.len()]);
        }
    }
}

proof fn lemma_lines_step_no_end(e: EmitterView, lines: Seq<Seq<char>>, now: u64)
    ensures
        no_stream_end(lines_step(e, lines, now).1),
    decreases lines.len(),
{
    if lines.len() > 0 {
        let (e1, ev1) = lines_step(e, lines.drop_last(), now);
        lemma_lines_step_no_end(e, lines.drop_last(), now);
        lemma_no_stream_end_add(ev1, line_step(e1, lines.last(), now).1);
    }
}

proof fn lemma_feed_no_end(d: DecoderView, chunks: Seq<Seq<u8>>, times: Seq<u64>)
    ensures
        no_stream_end(feed(d, chunks, times).1),
    decreases chunks.len(),
{
    if chunks.len() > 0 {
        let (d1, ev1) = feed(d, chunks.drop_last(), times);
        lemma_feed_no_end(d, chunks.drop_last(), times);
        let c = chunks.last();
        let now = times[chunks.len() - 1];
        if d1.phase == Phase::Streaming {
            lemma_lines_step_no_end(d1.emitter, text_lines(complete_lines(d1.pending + c)), now);
        }
        lemma_no_stream_end_add(ev1, chunk_step(d1, c, now).1);
    }
}

/// A session that ends gracefully signals its end exactly once, as its last
/// event.
pub proof fn lemma_session_ends_once(
    size_limit: usize,
    interval_ms: u64,
    start: u64,
    chunks: Seq<Seq<u8>>,
    times: Seq<u64>,
)
    ensures
        ({
            let ev = session(size_limit, interval_ms, start, chunks, times);
            &&& ev.len() > 0
            &&& ev.last() is StreamEnd
            &&& no_stream_end(ev.drop_last())
        }),
{
    let (d, ev) = feed(fresh(size_limit, interval_ms, start), chunks, times);
    lemma_feed_text(size_limit, interval_ms, start, chunks, times);
    lemma_feed_no_end(fresh(size_limit, interval_ms, start), chunks, times);
    let out = flush_step(d.emitter).1;
    let all = ev + finish_step(d).1;
    assert(all.drop_last() =~= ev + chunk_event(out));
    lemma_no_stream_end_add(ev, chunk_event(out));
}

} // verus!
