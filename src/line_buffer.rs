//! Cutting a fragmented byte stream into complete lines.
use vstd::prelude::*;
use vstd::slice::slice_subrange;
use vstd::slice::slice_to_vec;

use crate::textops::decode_lossy;
use crate::textops::lossy_utf8_of;
use crate::textops::trim_text;
use crate::textops::trimmed_of;

verus! {

/// The byte that ends a line.
pub const NEWLINE: u8 = 10;

/// The lines that a byte sequence completes, in order: every run of bytes
/// that a newline ends, without that newline.
pub open spec fn complete_lines(b: Seq<u8>) -> Seq<Seq<u8>>
    decreases b.len(),
{
    if b.len() == 0 {
        seq![]
    } else if b.last() == NEWLINE {
        complete_lines(b.drop_last()).push(partial_line(b.drop_last()))
    } else {
        complete_lines(b.drop_last())
    }
}

/// The bytes after the last newline of a byte sequence: a line still waiting
/// for its end.
pub open spec fn partial_line(b: Seq<u8>) -> Seq<u8>
    decreases b.len(),
{
    if b.len() == 0 {
        seq![]
    } else if b.last() == NEWLINE {
        seq![]
    } else {
        partial_line(b.drop_last()).push(b.last())
    }
}

/// The text of one line: its bytes decoded permissively, then trimmed.
pub open spec fn text_line(l: Seq<u8>) -> Seq<char> {
    trimmed_of(lossy_utf8_of(l))
}

/// The text of each of a sequence of lines.
pub open spec fn text_lines(ls: Seq<Seq<u8>>) -> Seq<Seq<char>> {
    ls.map_values(|l: Seq<u8>| text_line(l))
}

/// The views of a sequence of strings.
pub open spec fn strings_view(v: Seq<String>) -> Seq<Seq<char>> {
    v.map_values(|s: String| s@)
}

/// A byte sequence without a newline completes no line and is all partial.
pub proof fn lemma_no_newline(b: Seq<u8>)
    requires
        !b.contains(NEWLINE),
    ensures
        complete_lines(b) == Seq::<Seq<u8>>::empty(),
        partial_line(b) == b,
    decreases b.len(),
{
    if b.len() > 0 {
        assert(!b.drop_last().contains(NEWLINE)) by {
            if b.drop_last().contains(NEWLINE) {
                let k = choose|k: int| 0 <= k < b.drop_last().len() && b.drop_last()[k] == NEWLINE;
                assert(b[k] == NEWLINE);
            }
        }
        assert(b.last() != NEWLINE) by {
            assert(b[b.len() - 1] == b.last());
        }
        lemma_no_newline(b.drop_last());
        assert(partial_line(b) =~= b);
    }
}

/// The partial line holds no newline.
pub proof fn lemma_partial_has_no_newline(b: Seq<u8>)
    ensures
        !partial_line(b).contains(NEWLINE),
    decreases b.len(),
{
    if b.len() > 0 {
        lemma_partial_has_no_newline(b.drop_last());
        if b.last() != NEWLINE {
            let p = partial_line(b.drop_last());
            assert forall|k: int| 0 <= k < p.push(b.last()).len() implies p.push(b.last())[k]
                != NEWLINE by {
                if k < p.len() {
                    assert(!p.contains(NEWLINE));
                    assert(p.push(b.last())[k] == p[k]);
                }
            }
        }
    }
}

/// The bytes received and not yet handed out as lines.
pub struct LineBuffer {
    pending: Vec<u8>,
}

impl View for LineBuffer {
    type V = Seq<u8>;

    closed spec fn view(&self) -> Seq<u8> {
        self.pending@
    }
}

impl LineBuffer {
    /// An empty buffer.
    pub fn new() -> (r: LineBuffer)
        ensures
            r@ == Seq::<u8>::empty(),
    {
        LineBuffer { pending: Vec::new() }
    }

    /// Appends the bytes of a chunk.
    pub fn push(&mut self, chunk: &[u8])
        ensures
            final(self)@ == old(self)@ + chunk@,
    {
        let mut i: usize = 0;
        while i < chunk.len()
            invariant
                i <= chunk@.len(),
                self@ == old(self)@ + chunk@.take(i as int),
            decreases chunk@.len() - i,
        {
            self.pending.push(chunk[i]);
            i = i + 1;
            assert(self@ =~= old(self)@ + chunk@.take(i as int));
        }
        assert(chunk@.take(chunk@.len() as int) =~= chunk@);
    }

    /// Hands out the text of every complete line held, in order, and keeps
    /// the trailing partial line for the next chunk. Empty lines are handed
    /// out too.
    pub fn drain_lines(&mut self) -> (r: Vec<String>)
        ensures
            strings_view(r@) == text_lines(complete_lines(old(self)@)),
            final(self)@ == partial_line(old(self)@),
            !final(self)@.contains(NEWLINE),
    {
        proof {
            lemma_partial_has_no_newline(self@);
        }
        let bytes = self.pending.as_slice();
        let n = bytes.len();
        let mut out: Vec<String> = Vec::new();
        let mut start: usize = 0;
        let mut i: usize = 0;
        while i < n
            invariant
                n == bytes@.len(),
                bytes@ == old(self)@,
                start <= i <= n,
                strings_view(out@) == text_lines(complete_lines(bytes@.take(i as int))),
                partial_line(bytes@.take(i as int)) == bytes@.subrange(start as int, i as int),
            decreases n - i,
        {
            let ghost prefix = bytes@.take(i as int);
            assert(bytes@.take(i + 1).drop_last() =~= prefix);
            if bytes[i] == NEWLINE {
                let raw = decode_lossy(slice_subrange(bytes, start, i));
                let line = trim_text(raw.as_str()).to_owned();
                out.push(line);
                start = i + 1;
                assert(strings_view(out@) =~= text_lines(complete_lines(prefix)).push(
                    text_line(partial_line(prefix)),
                ));
                assert(text_lines(complete_lines(prefix).push(partial_line(prefix))) =~= text_lines(
                    complete_lines(prefix),
                ).push(text_line(partial_line(prefix))));
            } else {
                assert(bytes@.subrange(start as int, i + 1) =~= bytes@.subrange(
                    start as int,
                    i as int,
                ).push(bytes@[i as int]));
            }
            i = i + 1;
        }
        assert(bytes@.take(n as int) =~= bytes@);
        let rest = slice_to_vec(slice_subrange(bytes, start, n));
        self.pending = rest;
        out
    }
}

} // verus!
