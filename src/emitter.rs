//! Coalescing small text fragments into fewer, larger chunks.
use vstd::prelude::*;

verus! {

/// The largest number of characters held back by default.
pub const DEFAULT_SIZE_LIMIT: usize = 50;

/// The longest time, in milliseconds, that text is held back by default.
pub const DEFAULT_INTERVAL_MS: u64 = 100;

/// The mathematical value of an emitter.
pub struct EmitterView {
    /// Text accepted and not yet handed out.
    pub pending: Seq<char>,
    /// When text was last handed out on a threshold, in milliseconds.
    pub last_flush_ms: u64,
    /// Held text longer than this many characters is handed out.
    pub size_limit: usize,
    /// Text held longer than this many milliseconds is handed out.
    pub interval_ms: u64,
}

/// The milliseconds from `since` to `now`, none when the clock went back.
pub open spec fn elapsed_ms(now: u64, since: u64) -> int {
    if now >= since {
        now - since
    } else {
        0
    }
}

/// Whether held text is over the size limit or has waited past the interval.
pub open spec fn flush_due(e: EmitterView, now: u64) -> bool {
    e.pending.len() > e.size_limit || elapsed_ms(now, e.last_flush_ms) > e.interval_ms
}

/// Accepting `text` at time `now`: the text is appended, and when a flush is
/// due and something is held, everything held is handed out at once and the
/// flush time becomes `now`.
pub open spec fn accept_step(e: EmitterView, text: Seq<char>, now: u64) -> (EmitterView, Option<
    Seq<char>,
>) {
    let grown = EmitterView { pending: e.pending + text, ..e };
    if flush_due(grown, now) && grown.pending.len() > 0 {
        (EmitterView { pending: seq![], last_flush_ms: now, ..e }, Some(grown.pending))
    } else {
        (grown, None)
    }
}

/// Handing out everything held, whatever the thresholds.
pub open spec fn flush_step(e: EmitterView) -> (EmitterView, Option<Seq<char>>) {
    if e.pending.len() > 0 {
        (EmitterView { pending: seq![], ..e }, Some(e.pending))
    } else {
        (e, None)
    }
}

/// Accumulates text and hands it out under a size and a time threshold.
pub struct CoalescingEmitter {
    pending: String,
    last_flush_ms: u64,
    size_limit: usize,
    interval_ms: u64,
}

impl View for CoalescingEmitter {
    type V = EmitterView;

    closed spec fn view(&self) -> EmitterView {
        EmitterView {
            pending: self.pending@,
            last_flush_ms: self.last_flush_ms,
            size_limit: self.size_limit,
            interval_ms: self.interval_ms,
        }
    }
}

impl CoalescingEmitter {
    /// An emitter that holds nothing, with the given thresholds, started at
    /// `now_ms`.
    pub fn new(size_limit: usize, interval_ms: u64, now_ms: u64) -> (r: CoalescingEmitter)
        ensures
            r@ == (EmitterView {
                pending: seq![],
                last_flush_ms: now_ms,
                size_limit,
                interval_ms,
            }),
    {
        CoalescingEmitter { pending: String::new(), last_flush_ms: now_ms, size_limit, interval_ms }
    }

    /// An emitter with the default thresholds, started at `now_ms`.
    pub fn with_defaults(now_ms: u64) -> (r: CoalescingEmitter)
        ensures
            r@ == (EmitterView {
                pending: seq![],
                last_flush_ms: now_ms,
                size_limit: DEFAULT_SIZE_LIMIT,
                interval_ms: DEFAULT_INTERVAL_MS,
            }),
    {
        CoalescingEmitter::new(DEFAULT_SIZE_LIMIT, DEFAULT_INTERVAL_MS, now_ms)
    }

    /// Whether text is held.
    pub fn has_pending(&self) -> (r: bool)
        ensures
            r == (self@.pending.len() > 0),
    {
        self.pending.as_str().unicode_len() > 0
    }

    /// Accepts `text` at time `now_ms`, and returns the chunk handed out, if
    /// a flush was due.
    pub fn accept(&mut self, text: &str, now_ms: u64) -> (r: Option<String>)
        ensures
            (final(self)@, crate::textops::text_opt(r)) == accept_step(old(self)@, text@, now_ms),
    {
        self.pending.append(text);
        let held = self.pending.as_str().unicode_len();
        let elapsed = if now_ms >= self.last_flush_ms {
            now_ms - self.last_flush_ms
        } else {
            0
        };
        let due = held > self.size_limit || elapsed > self.interval_ms;
        if due && self.has_pending() {
            let mut out = String::new();
            std::mem::swap(&mut out, &mut self.pending);
            self.last_flush_ms = now_ms;
            Some(out)
        } else {
            None
        }
    }

    /// Hands out everything held, if anything is.
    pub fn force_flush(&mut self) -> (r: Option<String>)
        ensures
            (final(self)@, crate::textops::text_opt(r)) == flush_step(old(self)@),
    {
        if self.has_pending() {
            let mut out = String::new();
            std::mem::swap(&mut out, &mut self.pending);
            Some(out)
        } else {
            None
        }
    }
}

} // verus!
