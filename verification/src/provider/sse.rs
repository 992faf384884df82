//! The lines of an event stream whose bytes arrive in chunks.
//!
//! A line is decoded only when it is complete, so that a character whose bytes arrive in
//! two chunks stays whole.

use crate::provider::base::{lossy_text, utf8_lossy};
use crate::text::texts;
use vstd::prelude::*;

verus! {

/// The most bytes that may wait for the end of a line.
pub const MAX_SSE_LINE_BYTES: usize = 8388608;

/// The longest that one streamed answer may take, in seconds.
pub const MAX_STREAM_DURATION_SECS: u64 = 3600;

/// The position of the first line feed at or after `from`.
pub open spec fn line_feed(b: Seq<u8>, from: int) -> Option<int>
    decreases b.len() - from,
{
    if from < 0 || from >= b.len() {
        None
    } else if b[from] == 10 {
        Some(from)
    } else {
        line_feed(b, from + 1)
    }
}

proof fn line_feed_is_first(b: Seq<u8>, from: int)
    requires
        0 <= from,
    ensures
        match line_feed(b, from) {
            Some(i) => from <= i < b.len() && b[i] == 10 && forall|j: int|
                from <= j < i ==> b[j] != 10,
            None => forall|j: int| from <= j < b.len() ==> b[j] != 10,
        },
    decreases b.len() - from,
{
    if from < b.len() && b[from] != 10 {
        line_feed_is_first(b, from + 1);
    }
}

/// A line feed that is found lies in the bytes.
pub proof fn line_feed_bounds(b: Seq<u8>)
    ensures
        line_feed(b, 0) matches Some(i) ==> 0 <= i < b.len(),
{
    line_feed_is_first(b, 0);
}

/// The bytes without the line feeds and carriage returns at their end.
pub open spec fn chomped(b: Seq<u8>) -> Seq<u8>
    decreases b.len(),
{
    if b.len() > 0 && (b.last() == 10 || b.last() == 13) {
        chomped(b.drop_last())
    } else {
        b
    }
}

/// Bytes cut into lines: the complete lines as text, and the bytes after them.
#[verifier::ext_equal]
pub struct LinesV {
    pub lines: Seq<Seq<char>>,
    pub rest: Seq<u8>,
}

/// The complete lines of the bytes.
pub open spec fn cut_lines(b: Seq<u8>) -> LinesV
    decreases b.len(),
    via cut_lines_terminates
{
    match line_feed(b, 0) {
        Some(i) => {
            let more = cut_lines(b.skip(i + 1));
            LinesV {
                lines: seq![lossy_text(chomped(b.take(i + 1)))] + more.lines,
                rest: more.rest,
            }
        },
        None => LinesV { lines: Seq::empty(), rest: b },
    }
}

#[via_fn]
proof fn cut_lines_terminates(b: Seq<u8>) {
    line_feed_is_first(b, 0);
}

/// Where the chunks of a stream are cut makes no difference: the lines are the same.
pub proof fn lines_in_pieces(a: Seq<u8>, b: Seq<u8>)
    ensures
        ({
            let x = cut_lines(a);
            let y = cut_lines(x.rest + b);
            cut_lines(a + b) == LinesV { lines: x.lines + y.lines, rest: y.rest }
        }),
    decreases a.len(),
{
    line_feed_is_first(a, 0);
    line_feed_is_first(a + b, 0);
    let x = cut_lines(a);
    let y = cut_lines(x.rest + b);
    match line_feed(a, 0) {
        Some(i) => {
            assert((a + b)[i] == 10);
            assert(line_feed(a + b, 0) == Some(i)) by {
                let j = line_feed(a + b, 0)->0;
                if j < i {
                    assert((a + b)[j] == a[j]);
                }
                if i < j {
                    assert((a + b)[i] != 10);
                }
            }
            assert((a + b).skip(i + 1) =~= a.skip(i + 1) + b);
            assert((a + b).take(i + 1) =~= a.take(i + 1));
            lines_in_pieces(a.skip(i + 1), b);
            let rest = cut_lines(a.skip(i + 1));
            let first = seq![lossy_text(chomped(a.take(i + 1)))];
            assert(first + (rest.lines + y.lines) =~= (first + rest.lines) + y.lines);
        },
        None => {
            assert(Seq::<Seq<char>>::empty() + y.lines =~= y.lines);
        },
    }
}

/// What remains holds no complete line.
pub proof fn rest_has_no_line(b: Seq<u8>)
    ensures
        forall|i: int| 0 <= i < cut_lines(b).rest.len() ==> cut_lines(b).rest[i] != 10,
    decreases b.len(),
{
    line_feed_is_first(b, 0);
    match line_feed(b, 0) {
        Some(i) => {
            rest_has_no_line(b.skip(i + 1));
            assert(cut_lines(b).rest == cut_lines(b.skip(i + 1)).rest);
        },
        None => {
            assert(cut_lines(b).rest == b);
        },
    }
}

/// Takes the complete lines out of the bytes, decoded, and leaves the bytes after them.
pub fn take_lines(buf: &mut Vec<u8>) -> (r: Vec<String>)
    ensures
        texts(r@) == cut_lines(old(buf)@).lines,
        final(buf)@ == cut_lines(old(buf)@).rest,
{
    let mut out: Vec<String> = Vec::new();
    let ghost whole = cut_lines(buf@);
    let mut b: Vec<u8> = Vec::new();
    b.append(buf);
    let mut scan: usize = 0;
    proof {
        assert(b@ =~= old(buf)@);
        assert(texts(out@) + cut_lines(b@).lines =~= cut_lines(b@).lines);
    }
    while scan < b.len()
        invariant
            scan <= b@.len(),
            whole == cut_lines(old(buf)@),
            line_feed(b@, 0) == line_feed(b@, scan as int),
            whole.lines == texts(out@) + cut_lines(b@).lines,
            whole.rest == cut_lines(b@).rest,
        decreases b@.len() - scan,
    {
        if b[scan] == 10 {
            let next: usize = scan + 1;
            let rest = b.split_off(next);
            let ghost line = b@;
            let mut raw = b;
            proof {
                assert(line == raw@);
            }
            while raw.len() > 0 && (raw[raw.len() - 1] == 10 || raw[raw.len() - 1] == 13)
                invariant
                    chomped(raw@) == chomped(line),
                decreases raw@.len(),
            {
                raw.pop();
            }
            let text = utf8_lossy(raw.as_slice());
            let ghost before = out@;
            out.push(text);
            b = rest;
            scan = 0;
            proof {
                assert(texts(out@) =~= texts(before).push(text@));
                assert(texts(before) + (seq![text@] + cut_lines(b@).lines) =~= texts(out@)
                    + cut_lines(b@).lines);
            }
        } else {
            scan += 1;
        }
    }
    proof {
        assert(cut_lines(b@).lines =~= Seq::<Seq<char>>::empty());
        assert(texts(out@) + cut_lines(b@).lines =~= texts(out@));
    }
    *buf = b;
    out
}

/// Line feeds and carriage returns at the end are taken, all of them, and nothing else.
pub proof fn line_ends_are_taken(b: Seq<u8>)
    ensures
        chomped(b.push(10)) == chomped(b),
        chomped(b.push(13)) == chomped(b),
        b.len() > 0 && b.last() != 10 && b.last() != 13 ==> chomped(b) == b,
        chomped(Seq::empty()).len() == 0,
{
    assert(b.push(10).drop_last() =~= b);
    assert(b.push(13).drop_last() =~= b);
}

/// Bytes up to a line feed are a line, read without the carriage return before the line feed;
/// what follows is cut in the same way, and bytes without a line feed are kept as they are.
pub proof fn lines_end_at_their_line_feed(line: Seq<u8>, more: Seq<u8>)
    requires
        forall|i: int| 0 <= i < line.len() ==> #[trigger] line[i] != 10 && line[i] != 13,
    ensures
        cut_lines(line.push(10) + more).lines == seq![lossy_text(line)] + cut_lines(more).lines,
        cut_lines(line.push(13).push(10) + more).lines == seq![lossy_text(line)] + cut_lines(
            more,
        ).lines,
        cut_lines(line.push(10) + more).rest == cut_lines(more).rest,
        cut_lines(line).lines.len() == 0 && cut_lines(line).rest == line,
{
    let n = line.len() as int;
    let a = line.push(10) + more;
    line_feed_is_first(a, 0);
    assert(a[n] == 10);
    assert(forall|i: int| 0 <= i < n ==> a[i] == #[trigger] line[i]);
    assert(line_feed(a, 0) == Some(n));
    assert(a.take(n + 1) =~= line.push(10));
    assert(a.skip(n + 1) =~= more);
    let b = line.push(13).push(10) + more;
    line_feed_is_first(b, 0);
    assert(b[n + 1] == 10 && b[n] == 13);
    assert(forall|i: int| 0 <= i < n ==> b[i] == #[trigger] line[i]);
    assert(line_feed(b, 0) == Some(n + 1));
    assert(b.take(n + 2) =~= line.push(13).push(10));
    assert(b.skip(n + 2) =~= more);
    line_ends_are_taken(line);
    line_ends_are_taken(line.push(13));
    if n == 0 {
        assert(line =~= Seq::empty());
    } else {
        assert(line.last() == line[n - 1]);
    }
    line_feed_is_first(line, 0);
}

} // verus!
