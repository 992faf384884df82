//! The streamed answer of an OpenAI-compatible service, parsed into fragments.

use crate::dict::Dict;
use crate::json::{json_error_of_text, json_of_text, jsons, opt_string, owned_opt, Json, JsonV};
use crate::provider::base::{blank_delta, calls_model, deltas_model, failed_delta, lossy_text, utf8_lossy, Delta, DeltaV, ToolCall, ToolCallV};
use crate::provider::sse::{cut_lines, line_feed, lines_end_at_their_line_feed, lines_in_pieces, take_lines, MAX_SSE_LINE_BYTES, MAX_STREAM_DURATION_SECS};
use crate::provider::tag_split::{split_text, TagSplitter};
use crate::text::{join, join2, joined, owned, same, strip_prefix, texts, trim_left, trim_start};
use vstd::prelude::*;
use vstd::utf8::encode_utf8;

verus! {

/// The most bytes of arguments that one streamed call may take.
pub const MAX_TOOL_ARGUMENTS_BYTES: usize = 1048576;

/// A streamed call as far as its fragments have come.
#[verifier::ext_equal]
pub struct PendingV {
    pub id: Option<Seq<char>>,
    pub kind: Option<Seq<char>>,
    pub name: Option<Seq<char>>,
    pub arguments: Seq<char>,
}

/// A call of which nothing has come.
pub open spec fn nothing_yet() -> PendingV {
    PendingV { id: None, kind: None, name: None, arguments: Seq::empty() }
}

/// The streamed calls by the index that the service gave them, in ascending order.
pub type CallsV = Seq<(u64, PendingV)>;

/// The indices ascend.
pub open spec fn ascending(calls: CallsV) -> bool {
    forall|i: int, j: int| 0 <= i < j < calls.len() ==> (#[trigger] calls[i]).0 < (#[trigger]
    calls[j]).0
}

/// The place of an index: how many calls at the front have a smaller one.
pub open spec fn place(calls: CallsV, index: u64) -> int
    decreases calls.len(),
{
    if calls.len() > 0 && calls[0].0 < index {
        1 + place(calls.skip(1), index)
    } else {
        0
    }
}

/// What has come of the call with an index.
pub open spec fn call_at(calls: CallsV, index: u64) -> PendingV {
    let p = place(calls, index);
    if p < calls.len() && calls[p].0 == index {
        calls[p].1
    } else {
        nothing_yet()
    }
}

/// The calls with the one of an index set.
pub open spec fn set_call(calls: CallsV, index: u64, call: PendingV) -> CallsV {
    let p = place(calls, index);
    if p < calls.len() && calls[p].0 == index {
        calls.update(p, (index, call))
    } else {
        calls.insert(p, (index, call))
    }
}

proof fn place_bounds(calls: CallsV, index: u64)
    ensures
        0 <= place(calls, index) <= calls.len(),
        forall|i: int| 0 <= i < place(calls, index) ==> (#[trigger] calls[i]).0 < index,
        place(calls, index) < calls.len() ==> calls[place(calls, index)].0 >= index,
    decreases calls.len(),
{
    if calls.len() > 0 && calls[0].0 < index {
        let rest = calls.skip(1);
        place_bounds(rest, index);
        assert forall|i: int| 0 <= i < place(calls, index) implies (#[trigger] calls[i]).0
            < index by {
            if i > 0 {
                assert(rest[i - 1] == calls[i]);
            }
        }
    }
}

proof fn place_is(calls: CallsV, index: u64, p: int)
    requires
        0 <= p <= calls.len(),
        forall|i: int| 0 <= i < p ==> (#[trigger] calls[i]).0 < index,
        p < calls.len() ==> calls[p].0 >= index,
    ensures
        place(calls, index) == p,
    decreases p,
{
    place_bounds(calls, index);
    let q = place(calls, index);
    if q < p {
        assert(calls[q].0 < index);
    }
    if p < q {
        assert(calls[p].0 < index);
    }
}

/// Setting a call changes it alone, and the indices still ascend. So the calls leave in
/// the order of their indices, whatever the order in which their fragments came.
pub proof fn set_call_sets(calls: CallsV, index: u64, call: PendingV, other: u64)
    requires
        ascending(calls),
    ensures
        ascending(set_call(calls, index, call)),
        call_at(set_call(calls, index, call), index) == call,
        other != index ==> call_at(set_call(calls, index, call), other) == call_at(calls, other),
{
    let p = place(calls, index);
    let now = set_call(calls, index, call);
    place_bounds(calls, index);
    place_bounds(calls, other);
    assert forall|i: int, j: int| 0 <= i < j < now.len() implies (#[trigger] now[i]).0 < (
    #[trigger] now[j]).0 by {
        if p < calls.len() && calls[p].0 == index {
            assert(calls[i].0 < calls[j].0);
        } else {
            let a = if i < p {
                i
            } else {
                i - 1
            };
            let b = if j < p {
                j
            } else {
                j - 1
            };
            if i != p && j != p {
                assert(calls[a].0 < calls[b].0);
            } else if i == p {
                assert(calls[p].0 > index);
                if b > p {
                    assert(calls[p].0 < calls[b].0);
                }
            } else {
                assert(calls[i].0 < index);
            }
        }
    }
    place_is(now, index, p);
    if other != index {
        let q = place(calls, other);
        if p < calls.len() && calls[p].0 == index {
            assert forall|i: int| 0 <= i < q implies (#[trigger] now[i]).0 < other by {
                assert(calls[i].0 < other);
            }
            place_is(now, other, q);
        } else if q <= p && !(q == p && index < other) {
            assert forall|i: int| 0 <= i < q implies (#[trigger] now[i]).0 < other by {
                assert(calls[i].0 < other);
            }
            if q < p {
                assert(calls[q].0 >= other);
            }
            place_is(now, other, q);
        } else {
            assert forall|i: int| 0 <= i < q + 1 implies (#[trigger] now[i]).0 < other by {
                if i < p {
                    assert(calls[i].0 < other);
                } else if i > p {
                    assert(calls[i - 1].0 < other);
                } else if q > p {
                    assert(calls[p].0 < other);
                }
            }
            place_is(now, other, q + 1);
        }
    }
}

/// What a fragment adds to a call, and whether its arguments grow too long. What is too
/// long is not added.
pub open spec fn fragment(c: PendingV, t: JsonV) -> (PendingV, bool) {
    let named = PendingV {
        id: match t.text_at("id"@) {
            Some(s) => Some(s),
            None => c.id,
        },
        kind: match t.text_at("type"@) {
            Some(s) => Some(s),
            None => c.kind,
        },
        name: match t.at("function"@).text_at("name"@) {
            Some(s) => Some(s),
            None => c.name,
        },
        arguments: c.arguments,
    };
    match t.at("function"@).text_at("arguments"@) {
        Some(a) => if encode_utf8(c.arguments).len() + encode_utf8(a).len()
            > MAX_TOOL_ARGUMENTS_BYTES {
            (named, true)
        } else {
            (PendingV { arguments: c.arguments + a, ..named }, false)
        },
        None => (named, false),
    }
}

/// The index of a fragment, 0 where it has none.
pub open spec fn fragment_index(t: JsonV) -> u64 {
    match t.at("index"@).unsigned() {
        Some(n) => n,
        None => 0,
    }
}

/// The calls after fragments, in order, up to the first that grows too long.
pub open spec fn fragments(calls: CallsV, ts: Seq<JsonV>) -> (CallsV, bool)
    decreases ts.len(),
{
    if ts.len() == 0 {
        (calls, false)
    } else {
        let index = fragment_index(ts[0]);
        let (c, long) = fragment(call_at(calls, index), ts[0]);
        let now = set_call(calls, index, c);
        if long {
            (now, true)
        } else {
            fragments(now, ts.skip(1))
        }
    }
}

/// What the parser remembers between lines.
#[verifier::ext_equal]
pub struct CoreV {
    pub calls: CallsV,
    pub last_finish: Option<Seq<char>>,
    pub inside: bool,
    pub held: Seq<char>,
}

/// What a line does: what is remembered, the fragments it gives out, and whether it ends
/// the stream.
#[verifier::ext_equal]
pub struct StepV {
    pub core: CoreV,
    pub out: Seq<DeltaV>,
    pub end: bool,
}

/// The arguments of a call: none streamed is an empty object, and what is not JSON is
/// kept from the tool as an error.
pub open spec fn call_arguments(
    text: Seq<char>,
    parsed: Option<JsonV>,
    error: Seq<char>,
) -> JsonV {
    if text.len() == 0 {
        JsonV::empty()
    } else {
        match parsed {
            Some(v) => v,
            None => JsonV::empty().put(
                "__error"@,
                JsonV::Str("malformed tool arguments: "@ + error),
            ),
        }
    }
}

/// The complete call.
pub open spec fn finished_call(c: PendingV) -> ToolCallV {
    ToolCallV {
        id: match c.id {
            Some(s) => s,
            None => ""@,
        },
        kind: match c.kind {
            Some(s) => s,
            None => "function"@,
        },
        function: JsonV::empty().put(
            "name"@,
            JsonV::Str(
                match c.name {
                    Some(s) => s,
                    None => ""@,
                },
            ),
        ).put(
            "arguments"@,
            call_arguments(c.arguments, json_of_text(c.arguments), json_error_of_text(c.arguments)),
        ),
    }
}

/// Arguments were streamed, and they are not JSON.
pub open spec fn is_malformed(c: PendingV) -> bool {
    c.arguments.len() > 0 && json_of_text(c.arguments) is None
}

/// The names of the calls with malformed arguments, in order.
pub open spec fn malformed_names(calls: CallsV) -> Seq<Seq<char>>
    decreases calls.len(),
{
    if calls.len() == 0 {
        Seq::empty()
    } else {
        let before = malformed_names(calls.drop_last());
        let c = calls.last().1;
        if is_malformed(c) {
            before.push(
                match c.name {
                    Some(s) => s,
                    None => "<unnamed>"@,
                },
            )
        } else {
            before
        }
    }
}

/// The fragments that give out the streamed calls: which of them are malformed, then all
/// of them in the order of their indices, with the reason why the answer ended.
pub open spec fn flushed(calls: CallsV, last_finish: Option<Seq<char>>) -> Seq<DeltaV> {
    if calls.len() == 0 {
        Seq::empty()
    } else {
        let bad = malformed_names(calls);
        let all = DeltaV {
            tool_calls: Some(calls.map_values(|e: (u64, PendingV)| finished_call(e.1))),
            finish_reason: last_finish,
            ..blank_delta()
        };
        if bad.len() > 0 {
            seq![
                DeltaV {
                    error_type: Some(
                        "malformed streamed tool arguments for: "@ + joined(bad, ", "@),
                    ),
                    ..blank_delta()
                },
                all,
            ]
        } else {
            seq![all]
        }
    }
}

/// Giving out the calls forgets them.
pub open spec fn flush_step(core: CoreV) -> StepV {
    if core.calls.len() == 0 {
        StepV { core, out: Seq::empty(), end: true }
    } else {
        StepV {
            core: CoreV { calls: Seq::empty(), last_finish: None, ..core },
            out: flushed(core.calls, core.last_finish),
            end: true,
        }
    }
}

/// The fragment for text that was held back because it may begin a tag: inside a span it is
/// reasoning, outside it is content.
pub open spec fn held_out(core: CoreV) -> Seq<DeltaV> {
    if core.held.len() == 0 {
        Seq::empty()
    } else if core.inside {
        seq![DeltaV { reasoning: Some(core.held), ..blank_delta() }]
    } else {
        seq![DeltaV { content: Some(core.held), ..blank_delta() }]
    }
}

/// The end of an answer: text that was held back comes out, and so do the calls.
pub open spec fn finish_step(core: CoreV) -> StepV {
    let s = flush_step(CoreV { held: Seq::empty(), ..core });
    StepV { core: s.core, out: held_out(core) + s.out, end: true }
}

/// The token counts that an answer reports, under the names used here.
pub open spec fn usage_v(usage: JsonV) -> Map<Seq<char>, i32> {
    let a = match usage.at("prompt_tokens"@).signed() {
        Some(n) => Map::<Seq<char>, i32>::empty().insert("input_tokens"@, n as i32),
        None => Map::empty(),
    };
    let b = match usage.at("completion_tokens"@).signed() {
        Some(n) => a.insert("output_tokens"@, n as i32),
        None => a,
    };
    match usage.at("prompt_tokens_details"@).at("cached_tokens"@).signed() {
        Some(n) => b.insert("cache_read_tokens"@, n as i32),
        None => b,
    }
}

/// The fragment for the token counts, where any are reported.
pub open spec fn usage_out(json: JsonV) -> Seq<DeltaV> {
    match json.get("usage"@) {
        Some(u) => if usage_v(u) == Map::<Seq<char>, i32>::empty() {
            Seq::empty()
        } else {
            seq![DeltaV { usage: Some(usage_v(u)), ..blank_delta() }]
        },
        None => Seq::empty(),
    }
}

/// A text, unless it is empty.
pub open spec fn unless_empty(s: Seq<char>) -> Option<Seq<char>> {
    if s.len() == 0 {
        None
    } else {
        Some(s)
    }
}

/// What one choice of an answer does.
pub open spec fn choice_step(core: CoreV, choice: JsonV) -> StepV {
    let delta = choice.at("delta"@);
    let given = match delta.text_at("reasoning_content"@) {
        Some(s) => Some(s),
        None => delta.text_at("reasoning"@),
    };
    let x = split_text(core.inside, core.held + (delta.text_at("content"@)->0));
    let spoke = delta.text_at("content"@) is Some;
    let content = if spoke {
        unless_empty(x.outside)
    } else {
        None
    };
    let reasoning = if spoke && x.inside.len() > 0 {
        match given {
            Some(r) => Some(r + x.inside),
            None => Some(x.inside),
        }
    } else {
        given
    };
    let heard = if spoke {
        CoreV { inside: x.now_inside, held: x.held, ..core }
    } else {
        core
    };
    let (calls, long) = match delta.at("tool_calls"@) {
        JsonV::Arr(ts) => fragments(core.calls, ts),
        _ => (core.calls, false),
    };
    let called = CoreV { calls, ..heard };
    if long {
        StepV { core: called, out: seq![failed_delta()], end: true }
    } else {
        let finish = choice.text_at("finish_reason"@);
        let after = CoreV {
            last_finish: if finish is Some {
                finish
            } else {
                called.last_finish
            },
            ..called
        };
        StepV {
            core: after,
            out: if content is None && reasoning is None && finish is None {
                Seq::empty()
            } else {
                seq![
                    DeltaV {
                        role: match delta.text_at("role"@) {
                            Some(s) => s,
                            None => "assistant"@,
                        },
                        content,
                        reasoning,
                        finish_reason: finish,
                        ..blank_delta()
                    },
                ]
            },
            end: false,
        }
    }
}

/// What the choices of an answer do, in order, up to the first that ends the stream.
pub open spec fn choices_step(core: CoreV, choices: Seq<JsonV>) -> StepV
    decreases choices.len(),
{
    if choices.len() == 0 {
        StepV { core, out: Seq::empty(), end: false }
    } else {
        let first = choice_step(core, choices[0]);
        if first.end {
            first
        } else {
            let rest = choices_step(first.core, choices.skip(1));
            StepV { core: rest.core, out: first.out + rest.out, end: rest.end }
        }
    }
}

/// What a parsed answer does: an error ends the stream, token counts come before the
/// choices.
pub open spec fn json_step(core: CoreV, json: JsonV) -> StepV {
    if json.get("error"@) is Some {
        StepV { core, out: seq![failed_delta()], end: true }
    } else {
        match json.at("choices"@) {
            JsonV::Arr(choices) => {
                let s = choices_step(core, choices);
                StepV { core: s.core, out: usage_out(json) + s.out, end: s.end }
            },
            _ => StepV { core, out: usage_out(json), end: false },
        }
    }
}

/// The data of a line: what follows `data:`, with any white space.
pub open spec fn line_data(line: Seq<char>) -> Option<Seq<char>> {
    let t = trim_start(line);
    if "data:"@.is_prefix_of(t) {
        Some(trim_start(t.skip("data:"@.len() as int)))
    } else {
        None
    }
}

/// What a line does. Lines without data, and data that is not JSON, do nothing.
pub open spec fn line_step(core: CoreV, line: Seq<char>) -> StepV {
    let idle = StepV { core, out: Seq::empty(), end: false };
    match line_data(line) {
        None => idle,
        Some(data) => if data == "[DONE]"@ {
            finish_step(core)
        } else {
            match json_of_text(data) {
                Some(json) => json_step(core, json),
                None => idle,
            }
        },
    }
}

/// Where a stream stands.
#[verifier::ext_equal]
pub struct StreamV {
    pub core: CoreV,
    pub buf: Seq<u8>,
    pub pending: Seq<DeltaV>,
    pub done: bool,
}

impl StreamV {
    /// A line added.
    pub open spec fn line(self, line: Seq<char>) -> StreamV {
        let s = line_step(self.core, line);
        StreamV {
            core: s.core,
            pending: self.pending + s.out,
            done: self.done || s.end,
            ..self
        }
    }

    /// Lines added, in order.
    pub open spec fn lines(self, lines: Seq<Seq<char>>) -> StreamV
        decreases lines.len(),
    {
        if lines.len() == 0 {
            self
        } else {
            self.lines(lines.drop_last()).line(lines.last())
        }
    }

    /// A failure: the stream ends with the fragment that says so.
    pub open spec fn failed(self) -> StreamV {
        StreamV { pending: self.pending.push(failed_delta()), done: true, ..self }
    }

    /// A chunk arrived: its complete lines are added. Too long a line is a failure.
    pub open spec fn chunk(self, bytes: Seq<u8>) -> StreamV {
        let all = self.buf + bytes;
        if all.len() > MAX_SSE_LINE_BYTES {
            (StreamV { buf: all, ..self }).failed()
        } else {
            let cut = cut_lines(all);
            (StreamV { buf: cut.rest, ..self }).lines(cut.lines)
        }
    }

    /// The end of the stream: the last line counts without a line feed, text that was
    /// held back comes out, and so do the calls.
    pub open spec fn ended(self) -> StreamV {
        let a = if self.buf.len() > 0 {
            (StreamV { buf: Seq::empty(), ..self }).line(lossy_text(self.buf))
        } else {
            self
        };
        let s = finish_step(a.core);
        StreamV { core: s.core, pending: a.pending + s.out, done: true, ..a }
    }
}

/// Adding lines in two parts comes to the same as adding them at once.
pub proof fn lines_compose(st: StreamV, a: Seq<Seq<char>>, b: Seq<Seq<char>>)
    ensures
        st.lines(a + b) == st.lines(a).lines(b),
    decreases b.len(),
{
    if b.len() == 0 {
        assert(a + b =~= a);
    } else {
        lines_compose(st, a, b.drop_last());
        assert((a + b).drop_last() =~= a + b.drop_last());
        assert((a + b).last() == b.last());
    }
}

proof fn fragments_ascend(calls: CallsV, ts: Seq<JsonV>)
    requires
        ascending(calls),
    ensures
        ascending(fragments(calls, ts).0),
    decreases ts.len(),
{
    if ts.len() > 0 {
        let index = fragment_index(ts[0]);
        let (c, long) = fragment(call_at(calls, index), ts[0]);
        set_call_sets(calls, index, c, index);
        if !long {
            fragments_ascend(set_call(calls, index, c), ts.skip(1));
        }
    }
}

proof fn choices_ascend(core: CoreV, choices: Seq<JsonV>)
    requires
        ascending(core.calls),
    ensures
        ascending(choices_step(core, choices).core.calls),
    decreases choices.len(),
{
    if choices.len() > 0 {
        match choices[0].at("delta"@).at("tool_calls"@) {
            JsonV::Arr(ts) => {
                fragments_ascend(core.calls, ts);
            },
            _ => {},
        }
        choices_ascend(choice_step(core, choices[0]).core, choices.skip(1));
    }
}

/// Whatever lines come, the streamed calls stay in the order of their indices, each index
/// once.
pub proof fn calls_stay_in_order(st: StreamV, ls: Seq<Seq<char>>)
    requires
        ascending(st.core.calls),
    ensures
        ascending(st.lines(ls).core.calls),
    decreases ls.len(),
{
    if ls.len() > 0 {
        calls_stay_in_order(st, ls.drop_last());
        let core = st.lines(ls.drop_last()).core;
        match line_data(ls.last()) {
            Some(data) => match json_of_text(data) {
                Some(json) => match json.at("choices"@) {
                    JsonV::Arr(choices) => {
                        choices_ascend(core, choices);
                    },
                    _ => {},
                },
                None => {},
            },
            None => {},
        }
    }
}

/// Nothing is kept back at the end of an answer: the text that was held and the calls that
/// were gathered have come out. That is so where the service says that the answer is over,
/// and where the connection closes without a word.
pub proof fn the_end_gives_all(st: StreamV, line: Seq<char>)
    ensures
        line_data(line) == Some("[DONE]"@) ==> {
            &&& st.line(line).done
            &&& st.line(line).core.held.len() == 0
            &&& st.line(line).core.calls.len() == 0
            &&& st.line(line).pending == st.pending + held_out(st.core) + flushed(
                st.core.calls,
                st.core.last_finish,
            )
        },
        st.buf.len() == 0 ==> st.ended().pending == st.pending + held_out(st.core) + flushed(
            st.core.calls,
            st.core.last_finish,
        ),
        st.ended().done,
        st.ended().core.held.len() == 0,
        st.ended().core.calls.len() == 0,
        st.pending.is_prefix_of(st.ended().pending),
        st.buf.len() == 0 && st.core.calls.len() > 0 ==> st.ended().pending.last().tool_calls
            == Some(st.core.calls.map_values(|e: (u64, PendingV)| finished_call(e.1))),
{
    let a = if st.buf.len() > 0 {
        (StreamV { buf: Seq::empty(), ..st }).line(lossy_text(st.buf))
    } else {
        st
    };
    assert(st.pending + finish_step(st.core).out =~= st.pending + held_out(st.core) + flushed(
        st.core.calls,
        st.core.last_finish,
    ));
    assert(a.pending.take(st.pending.len() as int) =~= st.pending);
    assert(st.ended().pending.take(st.pending.len() as int) =~= st.pending);
}

proof fn lines_keep_buf(st: StreamV, ls: Seq<Seq<char>>, b: Seq<u8>)
    ensures
        st.lines(ls).buf == st.buf,
        (StreamV { buf: b, ..st.lines(ls) }) == (StreamV { buf: b, ..st }).lines(ls),
    decreases ls.len(),
{
    if ls.len() > 0 {
        lines_keep_buf(st, ls.drop_last(), b);
    }
}

/// Where the chunks of an answer are cut makes no difference to what comes of it, as long
/// as the limit on waiting bytes is kept.
pub proof fn chunks_compose(st: StreamV, a: Seq<u8>, b: Seq<u8>)
    requires
        st.buf.len() + a.len() + b.len() <= MAX_SSE_LINE_BYTES,
    ensures
        st.chunk(a).chunk(b) == st.chunk(a + b),
{
    let x = cut_lines(st.buf + a);
    let y = cut_lines(x.rest + b);
    lines_in_pieces(st.buf + a, b);
    assert((st.buf + a) + b =~= st.buf + (a + b));
    rest_is_shorter(st.buf + a);
    let s0 = StreamV { buf: x.rest, ..st };
    lines_keep_buf(s0, x.lines, y.rest);
    lines_compose(StreamV { buf: y.rest, ..st }, x.lines, y.lines);
}

proof fn rest_is_shorter(b: Seq<u8>)
    ensures
        cut_lines(b).rest.len() <= b.len(),
    decreases b.len(),
{
    crate::provider::sse::lines_in_pieces(b, Seq::empty());
    match crate::provider::sse::line_feed(b, 0) {
        Some(i) => {
            crate::provider::sse::line_feed_bounds(b);
            rest_is_shorter(b.skip(i + 1));
        },
        None => {},
    }
}

/// A streamed call as far as its fragments have come.
pub struct PendingToolCall {
    pub id: Option<String>,
    pub kind: Option<String>,
    pub name: Option<String>,
    pub arguments: String,
}

impl View for PendingToolCall {
    type V = PendingV;

    open spec fn view(&self) -> PendingV {
        PendingV {
            id: opt_string(self.id),
            kind: opt_string(self.kind),
            name: opt_string(self.name),
            arguments: self.arguments@,
        }
    }
}

/// The models of the streamed calls.
pub open spec fn pending_calls(v: Seq<(u64, PendingToolCall)>) -> CallsV {
    v.map_values(|e: (u64, PendingToolCall)| (e.0, e.1@))
}

/// What a stream asks of its reader.
pub enum Poll {
    /// A fragment is ready.
    Ready(Delta),
    /// The stream is over.
    Finished,
    /// More bytes are needed.
    Wait,
}

/// The parser of a streamed answer.
pub struct OpenAISSEStream {
    calls: Vec<(u64, PendingToolCall)>,
    buf: Vec<u8>,
    pending: Vec<Delta>,
    done: bool,
    last_finish_reason: Option<String>,
    thinking: TagSplitter,
}

impl View for OpenAISSEStream {
    type V = StreamV;

    closed spec fn view(&self) -> StreamV {
        StreamV {
            core: CoreV {
                calls: pending_calls(self.calls@),
                last_finish: opt_string(self.last_finish_reason),
                inside: self.thinking.span_inside(),
                held: self.thinking.held(),
            },
            buf: self.buf@,
            pending: deltas_model(self.pending@),
            done: self.done,
        }
    }
}

/// The arguments of a call, from what was streamed and what it says as JSON.
pub fn arguments_value(text: &str, parsed: Result<Json, String>) -> (r: Json)
    ensures
        r@ == (match parsed {
            Ok(v) => call_arguments(text@, Some(v@), Seq::empty()),
            Err(e) => call_arguments(text@, None, e@),
        }),
{
    if text.is_empty() {
        Json::object()
    } else {
        match parsed {
            Ok(v) => v,
            Err(e) => {
                let m = join2("malformed tool arguments: ", e.as_str());
                Json::object().with("__error", Json::Str(m))
            },
        }
    }
}

fn or_text(o: &Option<String>, other: &str) -> (r: String)
    ensures
        r@ == (match opt_string(*o) {
            Some(s) => s,
            None => other@,
        }),
{
    match o {
        Some(s) => s.clone(),
        None => other.to_owned(),
    }
}

fn finish_call(c: &PendingToolCall) -> (r: (ToolCall, bool))
    ensures
        r.0@ == finished_call(c@),
        r.1 == is_malformed(c@),
{
    let text = c.arguments.as_str();
    let parsed = Json::parse(text);
    let malformed = parsed.is_err() && !text.is_empty();
    let arguments = arguments_value(text, parsed);
    let name = or_text(&c.name, "");
    let function = Json::object().with("name", Json::Str(name)).with("arguments", arguments);
    (ToolCall { id: or_text(&c.id, ""), kind: or_text(&c.kind, "function"), function }, malformed)
}

/// What the reader gets next of a stream that has lasted so many seconds, and how the stream
/// stands then.
pub open spec fn is_polled(r: Poll, before: StreamV, after: StreamV, elapsed_secs: u64) -> bool {
    match r {
        Poll::Ready(d) => if before.pending.len() > 0 {
            d@ == before.pending[0] && after == (StreamV {
                pending: before.pending.skip(1),
                ..before
            })
        } else {
            !before.done && elapsed_secs >= MAX_STREAM_DURATION_SECS && d@ == failed_delta()
                && after == (StreamV { done: true, ..before })
        },
        Poll::Finished => before.pending.len() == 0 && before.done && after == before,
        Poll::Wait => before.pending.len() == 0 && !before.done && elapsed_secs
            < MAX_STREAM_DURATION_SECS && after == before,
    }
}

impl OpenAISSEStream {
    /// A stream of which nothing has arrived.
    pub fn new() -> (r: OpenAISSEStream)
        ensures
            r@ == (StreamV {
                core: CoreV {
                    calls: Seq::empty(),
                    last_finish: None,
                    inside: false,
                    held: Seq::empty(),
                },
                buf: Seq::empty(),
                pending: Seq::empty(),
                done: false,
            }),
    {
        let r = OpenAISSEStream {
            calls: Vec::new(),
            buf: Vec::new(),
            pending: Vec::new(),
            done: false,
            last_finish_reason: None,
            thinking: TagSplitter::thinking(),
        };
        proof {
            assert(r@.core.calls =~= Seq::empty());
            assert(r@.pending =~= Seq::empty());
        }
        r
    }

    fn push(&mut self, d: Delta)
        ensures
            final(self)@ == (StreamV { pending: old(self)@.pending.push(d@), ..old(self)@ }),
    {
        self.pending.push(d);
        proof {
            assert(deltas_model(self.pending@) =~= deltas_model(old(self).pending@).push(d@));
        }
    }

    /// Gives out the streamed calls.
    pub fn flush_tool_call_buf(&mut self)
        ensures
            ({
                let s = flush_step(old(self)@.core);
                final(self)@ == (StreamV {
                    core: s.core,
                    pending: old(self)@.pending + s.out,
                    ..old(self)@
                })
            }),
    {
        let ghost st = self@;
        let mut entries: Vec<(u64, PendingToolCall)> = Vec::new();
        core::mem::swap(&mut entries, &mut self.calls);
        let ghost cs = pending_calls(entries@);
        if entries.len() == 0 {
            proof {
                assert(st.pending + Seq::<DeltaV>::empty() =~= st.pending);
                assert(self@ =~= st);
            }
            return;
        }
        let mut bad: Vec<String> = Vec::new();
        let mut tool_calls: Vec<ToolCall> = Vec::new();
        let mut i: usize = 0;
        proof {
            assert(texts(bad@) =~= malformed_names(cs.take(0)));
        }
        while i < entries.len()
            invariant
                i <= entries@.len(),
                cs == pending_calls(entries@),
                tool_calls@.len() == i,
                texts(bad@) == malformed_names(cs.take(i as int)),
                forall|k: int|
                    0 <= k < i ==> (#[trigger] tool_calls@[k])@ == finished_call(cs[k].1),
            decreases entries@.len() - i,
        {
            let (call, malformed) = finish_call(&entries[i].1);
            tool_calls.push(call);
            let ghost before = bad@;
            proof {
                assert(cs.take(i + 1).drop_last() =~= cs.take(i as int));
                assert(cs[i as int].1 == entries@[i as int].1@);
            }
            if malformed {
                let name = or_text(&entries[i].1.name, "<unnamed>");
                bad.push(name);
                proof {
                    assert(texts(bad@) =~= texts(before).push(name@));
                }
            }
            i += 1;
        }
        proof {
            assert(cs.take(i as int) =~= cs);
        }
        let ghost all = cs.map_values(|e: (u64, PendingV)| finished_call(e.1));
        proof {
            assert(calls_model(tool_calls@) =~= all);
            assert(pending_calls(self.calls@) =~= Seq::empty());
        }
        let many_bad = bad.len() > 0;
        if many_bad {
            let names = join(&bad, ", ");
            let mut d = Delta::blank();
            d.error_type = Some(join2("malformed streamed tool arguments for: ", names.as_str()));
            self.push(d);
        }
        let mut finish: Option<String> = None;
        core::mem::swap(&mut finish, &mut self.last_finish_reason);
        let mut d = Delta::blank();
        d.tool_calls = Some(tool_calls);
        d.finish_reason = finish;
        self.push(d);
        proof {
            assert(self@.pending =~= st.pending + flush_step(st.core).out);
        }
    }

    /// Adds one fragment of a call; whether its arguments grow too long.
    fn fragment(&mut self, t: &Json) -> (r: bool)
        ensures
            ({
                let index = fragment_index(t@);
                let (c, long) = fragment(call_at(old(self)@.core.calls, index), t@);
                &&& r == long
                &&& final(self)@ == (StreamV {
                    core: CoreV {
                        calls: set_call(old(self)@.core.calls, index, c),
                        ..old(self)@.core
                    },
                    ..old(self)@
                })
            }),
    {
        let ghost st = self@;
        let ghost cs = st.core.calls;
        let index: u64 = match t.get_u64("index") {
            Some(n) => n,
            None => 0,
        };
        let mut p: usize = 0;
        while p < self.calls.len() && self.calls[p].0 < index
            invariant
                p <= self.calls@.len(),
                self@ == st,
                cs == pending_calls(self.calls@),
                forall|i: int| 0 <= i < p ==> (#[trigger] cs[i]).0 < index,
            decreases self.calls@.len() - p,
        {
            proof {
                assert(cs[p as int].0 == self.calls@[p as int].0);
            }
            p += 1;
        }
        proof {
            if p < cs.len() {
                assert(cs[p as int].0 == self.calls@[p as int].0);
            }
            place_is(cs, index, p as int);
        }
        let mut list: Vec<(u64, PendingToolCall)> = Vec::new();
        core::mem::swap(&mut list, &mut self.calls);
        let known = p < list.len() && list[p].0 == index;
        let old_call = if known {
            list.remove(p).1
        } else {
            PendingToolCall { id: None, kind: None, name: None, arguments: String::new() }
        };
        proof {
            assert(old_call@ =~= call_at(cs, index));
        }
        let PendingToolCall { id: id0, kind: kind0, name: name0, arguments: args0 } = old_call;
        let id = match t.get_str("id") {
            Some(s) => Some(owned(s)),
            None => id0,
        };
        let kind = match t.get_str("type") {
            Some(s) => Some(owned(s)),
            None => kind0,
        };
        let name = match t.get_str2("function", "name") {
            Some(s) => Some(owned(s)),
            None => name0,
        };
        let mut arguments = args0;
        let mut long = false;
        match t.get_str2("function", "arguments") {
            Some(a) => {
                let have: usize = arguments.as_str().as_bytes().len();
                let more: usize = a.as_bytes().len();
                if have > MAX_TOOL_ARGUMENTS_BYTES || more > MAX_TOOL_ARGUMENTS_BYTES - have {
                    long = true;
                } else {
                    arguments.push_str(a);
                }
            },
            None => {},
        }
        let call = PendingToolCall { id, kind, name, arguments };
        list.insert(p, (index, call));
        proof {
            let c = fragment(call_at(cs, index), t@).0;
            assert(call@ =~= c);
            assert(pending_calls(list@) =~= set_call(cs, index, c));
        }
        self.calls = list;
        long
    }

    /// Adds one choice of an answer; whether it ends the stream.
    fn choice(&mut self, choice: &Json) -> (r: bool)
        ensures
            ({
                let s = choice_step(old(self)@.core, choice@);
                &&& r == s.end
                &&& final(self)@ == (StreamV {
                    core: s.core,
                    pending: old(self)@.pending + s.out,
                    ..old(self)@
                })
            }),
    {
        let ghost st = self@;
        let ghost goal = choice_step(st.core, choice@);
        let none = Json::Null;
        let delta = match choice.get("delta") {
            Some(d) => d,
            None => &none,
        };
        let role = match delta.get_str("role") {
            Some(s) => owned(s),
            None => owned("assistant"),
        };
        let mut reasoning = match delta.get_str("reasoning_content") {
            Some(s) => Some(owned(s)),
            None => owned_opt(delta.get_str("reasoning")),
        };
        let mut content: Option<String> = None;
        match delta.get_str("content") {
            Some(c) => {
                let split = self.thinking.feed(c);
                if !split.outside.as_str().is_empty() {
                    content = Some(split.outside);
                }
                if !split.inside.as_str().is_empty() {
                    reasoning = match reasoning {
                        Some(r) => Some(join2(r.as_str(), split.inside.as_str())),
                        None => Some(split.inside),
                    };
                }
            },
            None => {},
        }
        let ghost heard = self@;
        match delta.get_array("tool_calls") {
            Some(ts) => {
                let ghost all = jsons(ts@);
                let mut i: usize = 0;
                proof {
                    assert(all.skip(0) =~= all);
                }
                while i < ts.len()
                    invariant
                        i <= ts@.len(),
                        all == jsons(ts@),
                        st == old(self)@,
                        goal == choice_step(st.core, choice@),
                        choice@.at("delta"@).at("tool_calls"@) == JsonV::Arr(all),
                        heard.core.calls == st.core.calls,
                        heard.pending == st.pending,
                        heard.buf == st.buf,
                        heard.done == st.done,
                        self@ == (StreamV {
                            core: CoreV { calls: self@.core.calls, ..heard.core },
                            ..heard
                        }),
                        fragments(st.core.calls, all) == fragments(
                            self@.core.calls,
                            all.skip(i as int),
                        ),
                        fragments(st.core.calls, all).1 ==> goal == (StepV {
                            core: CoreV {
                                calls: fragments(st.core.calls, all).0,
                                ..heard.core
                            },
                            out: seq![failed_delta()],
                            end: true,
                        }),
                    decreases ts@.len() - i,
                {
                    proof {
                        assert(all.skip(i as int)[0] == ts@[i as int]@);
                        assert(all.skip(i as int).skip(1) =~= all.skip(i + 1));
                    }
                    if self.fragment(&ts[i]) {
                        let d = Delta::failed();
                        let ghost before = self@;
                        self.push(d);
                        proof {
                            assert(self@.pending =~= st.pending + seq![failed_delta()]);
                        }
                        return true;
                    }
                    i += 1;
                }
                proof {
                    assert(all.skip(i as int) =~= Seq::empty());
                }
            },
            None => {},
        }
        let finish_reason = owned_opt(choice.get_str("finish_reason"));
        match &finish_reason {
            Some(fr) => {
                self.last_finish_reason = Some(fr.clone());
            },
            None => {},
        }
        if content.is_none() && reasoning.is_none() && finish_reason.is_none() {
            proof {
                assert(self@.pending =~= st.pending + Seq::<DeltaV>::empty());
                assert(self@.core =~= goal.core);
            }
            return false;
        }
        let ghost before = self@;
        let d = Delta {
            role,
            content,
            reasoning,
            tool_calls: None,
            finish_reason,
            usage: None,
            error_type: None,
        };
        self.push(d);
        proof {
            assert(before.core =~= goal.core);
            assert(d@ =~= goal.out[0]);
            assert(self@.pending =~= st.pending + goal.out);
        }
        false
    }

    /// Adds one parsed answer; whether it ends the stream.
    pub fn process_json(&mut self, json: &Json) -> (r: bool)
        ensures
            ({
                let s = json_step(old(self)@.core, json@);
                &&& r == s.end
                &&& final(self)@ == (StreamV {
                    core: s.core,
                    pending: old(self)@.pending + s.out,
                    ..old(self)@
                })
            }),
    {
        let ghost st = self@;
        if json.get("error").is_some() {
            let d = Delta::failed();
            self.push(d);
            proof {
                assert(self@.pending =~= st.pending + seq![failed_delta()]);
            }
            return true;
        }
        match json.get("usage") {
            Some(u) => {
                let usage = usage_of(u);
                if !usage.is_empty() {
                    let mut d = Delta::blank();
                    d.usage = Some(usage);
                    self.push(d);
                }
            },
            None => {},
        }
        proof {
            assert(self@.pending =~= st.pending + usage_out(json@));
        }
        let ghost mid = self@;
        match json.get_array("choices") {
            Some(cs) => {
                let ghost all = jsons(cs@);
                let ghost whole = choices_step(st.core, all);
                let ghost mut out: Seq<DeltaV> = Seq::empty();
                let mut i: usize = 0;
                proof {
                    assert(all.skip(0) =~= all);
                    assert(mid.pending + out =~= mid.pending);
                    assert(out + whole.out =~= whole.out);
                }
                while i < cs.len()
                    invariant
                        i <= cs@.len(),
                        all == jsons(cs@),
                        st == old(self)@,
                        mid == (StreamV { pending: st.pending + usage_out(json@), ..st }),
                        json@.get("error"@) is None,
                        json@.at("choices"@) == JsonV::Arr(all),
                        whole == choices_step(st.core, all),
                        self@ == (StreamV {
                            core: self@.core,
                            pending: mid.pending + out,
                            ..mid
                        }),
                        ({
                            let rest = choices_step(self@.core, all.skip(i as int));
                            whole == StepV {
                                core: rest.core,
                                out: out + rest.out,
                                end: rest.end,
                            }
                        }),
                    decreases cs@.len() - i,
                {
                    let ghost first = choice_step(self@.core, cs@[i as int]@);
                    proof {
                        assert(all.skip(i as int)[0] == cs@[i as int]@);
                        assert(all.skip(i as int).skip(1) =~= all.skip(i + 1));
                    }
                    let end = self.choice(&cs[i]);
                    proof {
                        assert(mid.pending + out + first.out =~= mid.pending + (out + first.out));
                    }
                    if end {
                        proof {
                            assert(self@.pending =~= st.pending + (usage_out(json@) + whole.out));
                        }
                        return true;
                    }
                    proof {
                        let rest = choices_step(self@.core, all.skip(i + 1));
                        assert(out + (first.out + rest.out) =~= (out + first.out) + rest.out);
                        out = out + first.out;
                    }
                    i += 1;
                }
                proof {
                    assert(all.skip(i as int) =~= Seq::empty());
                    assert(out + Seq::<DeltaV>::empty() =~= out);
                    assert(self@.pending =~= st.pending + (usage_out(json@) + whole.out));
                }
            },
            None => {},
        }
        false
    }

    /// Gives out the text that was held back, and the calls.
    fn finish(&mut self)
        ensures
            ({
                let s = finish_step(old(self)@.core);
                final(self)@ == (StreamV {
                    core: s.core,
                    pending: old(self)@.pending + s.out,
                    ..old(self)@
                })
            }),
    {
        let ghost st = self@;
        let tail = self.thinking.flush();
        if !tail.as_str().is_empty() {
            let mut d = Delta::blank();
            if self.thinking.is_inside() {
                d.reasoning = Some(tail);
            } else {
                d.content = Some(tail);
            }
            self.push(d);
        }
        self.flush_tool_call_buf();
        proof {
            assert(self@.core =~= finish_step(st.core).core);
            assert(self@.pending =~= st.pending + finish_step(st.core).out);
        }
    }

    /// Adds one complete line; whether it ends the stream.
    pub fn process_line(&mut self, line: &str) -> (r: bool)
        ensures
            ({
                let s = line_step(old(self)@.core, line@);
                &&& r == s.end
                &&& final(self)@ == (StreamV {
                    core: s.core,
                    pending: old(self)@.pending + s.out,
                    ..old(self)@
                })
            }),
    {
        proof {
            assert(self@.pending + Seq::<DeltaV>::empty() =~= self@.pending);
        }
        let t = trim_left(line);
        let data = match strip_prefix(t.as_str(), "data:") {
            Some(d) => trim_left(d.as_str()),
            None => return false,
        };
        if same(data.as_str(), "[DONE]") {
            self.finish();
            return true;
        }
        match Json::parse(data.as_str()) {
            Ok(json) => self.process_json(&json),
            Err(_) => false,
        }
    }

    /// A failure of the connection, or silence for too long: the stream ends.
    pub fn fail(&mut self)
        ensures
            final(self)@ == old(self)@.failed(),
    {
        let d = Delta::failed();
        self.push(d);
        self.done = true;
    }

    /// A chunk arrived.
    pub fn chunk(&mut self, bytes: &[u8])
        ensures
            final(self)@ == old(self)@.chunk(bytes@),
    {
        let ghost st = self@;
        let mut i: usize = 0;
        proof {
            assert(st.buf + bytes@.take(0) =~= st.buf);
        }
        while i < bytes.len()
            invariant
                i <= bytes@.len(),
                self@ == (StreamV { buf: st.buf + bytes@.take(i as int), ..st }),
            decreases bytes@.len() - i,
        {
            self.buf.push(bytes[i]);
            i += 1;
            proof {
                assert(st.buf + bytes@.take(i as int) =~= (st.buf + bytes@.take(i - 1)).push(
                    bytes@[i - 1],
                ));
            }
        }
        proof {
            assert(bytes@.take(i as int) =~= bytes@);
        }
        if self.buf.len() > MAX_SSE_LINE_BYTES {
            self.fail();
            return;
        }
        let lines = take_lines(&mut self.buf);
        let ghost s0 = self@;
        let ghost ls = texts(lines@);
        let mut k: usize = 0;
        while k < lines.len()
            invariant
                k <= lines@.len(),
                ls == texts(lines@),
                self@ == s0.lines(ls.take(k as int)),
            decreases lines@.len() - k,
        {
            let ghost before = self@;
            let end = self.process_line(lines[k].as_str());
            if end {
                self.done = true;
            }
            k += 1;
            proof {
                assert(ls.take(k as int).drop_last() =~= ls.take(k - 1));
                assert(ls.take(k as int).last() == lines@[k - 1]@);
                assert(self@ =~= before.line(lines@[k - 1]@));
            }
        }
        proof {
            assert(ls.take(k as int) =~= ls);
        }
    }

    /// The connection closed.
    pub fn end(&mut self)
        ensures
            final(self)@ == old(self)@.ended(),
    {
        let ghost st = self@;
        if self.buf.len() > 0 {
            let line = utf8_lossy(self.buf.as_slice());
            self.buf = Vec::new();
            let end = self.process_line(line.as_str());
            if end {
                self.done = true;
            }
        }
        let ghost a = if st.buf.len() > 0 {
            (StreamV { buf: Seq::empty(), ..st }).line(lossy_text(st.buf))
        } else {
            st
        };
        proof {
            assert(self@ =~= a);
        }
        self.finish();
        self.done = true;
        proof {
            assert(self@ =~= st.ended());
        }
    }

    /// What the reader gets next, where the stream has lasted so many seconds: what is
    /// ready, in order; then the end; a failure where it has lasted too long.
    pub fn poll(&mut self, elapsed_secs: u64) -> (r: Poll)
        ensures
            is_polled(r, old(self)@, final(self)@, elapsed_secs),
    {
        if self.pending.len() > 0 {
            let d = self.pending.remove(0);
            proof {
                assert(self@.pending =~= old(self)@.pending.skip(1));
            }
            return Poll::Ready(d);
        }
        if self.done {
            return Poll::Finished;
        }
        if elapsed_secs >= MAX_STREAM_DURATION_SECS {
            self.done = true;
            return Poll::Ready(Delta::failed());
        }
        Poll::Wait
    }
}

/// The token counts that an answer reports.
pub fn usage_of(usage: &Json) -> (r: Dict<i32>)
    ensures
        r@ == usage_v(usage@),
{
    let mut map: Dict<i32> = Dict::new();
    match usage.get_i64("prompt_tokens") {
        Some(n) => {
            map.insert("input_tokens", #[verifier::truncate] (n as i32));
        },
        None => {},
    }
    match usage.get_i64("completion_tokens") {
        Some(n) => {
            map.insert("output_tokens", #[verifier::truncate] (n as i32));
        },
        None => {},
    }
    let cached = match usage.get("prompt_tokens_details") {
        Some(d) => d.get_i64("cached_tokens"),
        None => None,
    };
    match cached {
        Some(n) => {
            map.insert("cache_read_tokens", #[verifier::truncate] (n as i32));
        },
        None => {},
    }
    map
}

/// The reasoning of an answer reaches the reader as reasoning: one fragment with that text
/// and nothing else. It is looked for under `reasoning_content`, and under `reasoning` only
/// where there is none.
pub proof fn reasoning_is_given_out(core: CoreV, choice: JsonV, t: Seq<char>)
    requires
        choice.at("delta"@).text_at("reasoning_content"@) == Some(t) || (choice.at(
            "delta"@,
        ).text_at("reasoning_content"@) is None && choice.at("delta"@).text_at("reasoning"@)
            == Some(t)),
        choice.at("delta"@).text_at("content"@) is None,
        !(choice.at("delta"@).at("tool_calls"@) is Arr),
        choice.text_at("finish_reason"@) is None,
    ensures
        ({
            let s = choice_step(core, choice);
            &&& s.core == core
            &&& !s.end
            &&& s.out.len() == 1
            &&& s.out[0].reasoning == Some(t)
            &&& s.out[0].content is None
            &&& s.out[0].tool_calls is None
            &&& s.out[0].finish_reason is None
            &&& s.out[0].usage is None
            &&& s.out[0].error_type is None
        }),
{
}

/// The text of an answer reaches the reader as it came, where it holds no tag and none is
/// half begun: as content outside a span of thoughts, and inside one as reasoning, after what
/// was sent as such.
pub proof fn text_is_given_out(core: CoreV, choice: JsonV, t: Seq<char>)
    requires
        choice.at("delta"@).text_at("content"@) == Some(t),
        crate::provider::tag_split::has_no_tag(t),
        t.len() > 0,
        core.held.len() == 0,
        !(choice.at("delta"@).at("tool_calls"@) is Arr),
    ensures
        ({
            let s = choice_step(core, choice);
            let told = match choice.at("delta"@).text_at("reasoning_content"@) {
                Some(r) => Some(r),
                None => choice.at("delta"@).text_at("reasoning"@),
            };
            &&& !s.end
            &&& s.core.calls == core.calls
            &&& s.core.inside == core.inside
            &&& s.core.held.len() == 0
            &&& s.out.len() == 1
            &&& s.out[0].content == (if core.inside {
                None
            } else {
                Some(t)
            })
            &&& s.out[0].reasoning == (if !core.inside {
                told
            } else {
                match told {
                    Some(r) => Some(r + t),
                    None => Some(t),
                }
            })
            &&& s.out[0].finish_reason == choice.text_at("finish_reason"@)
            &&& s.out[0].tool_calls is None
            &&& s.out[0].usage is None
            &&& s.out[0].error_type is None
        }),
{
    crate::provider::tag_split::text_without_a_tag_stays_where_it_is(core.inside, t);
    assert(core.held + t =~= t);
}

/// Whatever a choice says, its fragment is of the role that it names, or of the assistant;
/// and the reason why the answer ended is given out with it and remembered for the calls.
pub proof fn roles_and_reasons_are_kept(core: CoreV, choice: JsonV)
    requires
        !(choice.at("delta"@).at("tool_calls"@) is Arr),
    ensures
        ({
            let s = choice_step(core, choice);
            &&& s.out.len() <= 1
            &&& forall|i: int|
                0 <= i < s.out.len() ==> {
                    &&& (#[trigger] s.out[i]).role == (match choice.at("delta"@).text_at("role"@) {
                        Some(r) => r,
                        None => "assistant"@,
                    })
                    &&& s.out[i].finish_reason == choice.text_at("finish_reason"@)
                }
            &&& choice.text_at("finish_reason"@) matches Some(f) ==> s.out.len() == 1
                && s.core.last_finish == Some(f)
            &&& choice.text_at("finish_reason"@) is None ==> s.core.last_finish
                == core.last_finish
        }),
{
}

/// A fragment of a call belongs to the call of its index, the first where it names none. It
/// names the call, its kind and its tool where it says so, and its piece of the arguments is
/// put after those that came. No other call is touched.
pub proof fn fragments_belong_to_their_call(calls: CallsV, t: JsonV, other: u64)
    requires
        ascending(calls),
    ensures
        ({
            let i = match t.at("index"@) {
                JsonV::Int(n) => if 0 <= n <= u64::MAX {
                    n as u64
                } else {
                    0
                },
                _ => 0,
            };
            let was = call_at(calls, i);
            let (now, long) = fragments(calls, seq![t]);
            let is = call_at(now, i);
            &&& is.id == (match t.at("id"@) {
                JsonV::Str(s) => Some(s),
                _ => was.id,
            })
            &&& is.kind == (match t.at("type"@) {
                JsonV::Str(s) => Some(s),
                _ => was.kind,
            })
            &&& is.name == (match t.at("function"@).at("name"@) {
                JsonV::Str(s) => Some(s),
                _ => was.name,
            })
            &&& match t.at("function"@).at("arguments"@) {
                JsonV::Str(a) => {
                    &&& long == (encode_utf8(was.arguments).len() + encode_utf8(a).len() > 1048576)
                    &&& is.arguments == (if long {
                        was.arguments
                    } else {
                        was.arguments + a
                    })
                },
                _ => !long && is.arguments == was.arguments,
            }
            &&& other != i ==> call_at(now, other) == call_at(calls, other)
            &&& ascending(now)
        }),
{
    let index = fragment_index(t);
    let (c, long) = fragment(call_at(calls, index), t);
    set_call_sets(calls, index, c, other);
    assert(seq![t].skip(1) =~= Seq::empty());
    assert(seq![t][0] == t);
    assert(fragments(set_call(calls, index, c), Seq::empty()) == (set_call(calls, index, c), false));
}

/// Fragments that come together do what they do one after the other.
pub proof fn fragments_compose(calls: CallsV, a: Seq<JsonV>, b: Seq<JsonV>)
    ensures
        fragments(calls, a + b) == (if fragments(calls, a).1 {
            fragments(calls, a)
        } else {
            fragments(fragments(calls, a).0, b)
        }),
    decreases a.len(),
{
    if a.len() == 0 {
        assert(a + b =~= b);
    } else {
        let index = fragment_index(a[0]);
        let (c, long) = fragment(call_at(calls, index), a[0]);
        assert((a + b)[0] == a[0]);
        assert((a + b).skip(1) =~= a.skip(1) + b);
        if !long {
            fragments_compose(set_call(calls, index, c), a.skip(1), b);
        }
    }
}

/// The fragments of calls that a choice brings reach the calls that are being gathered, all
/// of them, whatever else the choice says. Arguments beyond what is let in end the stream as
/// a failure.
pub proof fn calls_are_gathered(core: CoreV, choice: JsonV, ts: Seq<JsonV>)
    requires
        choice.at("delta"@).at("tool_calls"@) == JsonV::Arr(ts),
    ensures
        ({
            let s = choice_step(core, choice);
            let (calls, long) = fragments(core.calls, ts);
            &&& s.core.calls == calls
            &&& s.end == long
            &&& long ==> s.out.len() == 1 && s.out[0].finish_reason == Some("error"@)
                && s.out[0].error_type == Some("request"@) && s.out[0].content is None
                && s.out[0].tool_calls is None
        }),
{
}

/// A gathered call is given out under its identifier, with the name of its tool and the value
/// that its arguments say: none are the empty object, and arguments that are not JSON are an
/// error that the tool is kept from.
pub proof fn calls_are_given_out_as_they_came(c: PendingV)
    ensures
        ({
            let out = finished_call(c);
            &&& c.id matches Some(s) ==> out.id == s
            &&& c.id is None ==> out.id.len() == 0
            &&& c.kind matches Some(s) ==> out.kind == s
            &&& c.kind is None ==> out.kind == "function"@
            &&& c.name matches Some(s) ==> out.function.at("name"@) == JsonV::Str(s)
            &&& c.name is None ==> out.function.at("name"@) == JsonV::Str(""@)
            &&& c.arguments.len() == 0 ==> out.function.at("arguments"@) == JsonV::empty()
            &&& c.arguments.len() > 0 && json_of_text(c.arguments) is Some
                ==> out.function.at("arguments"@) == json_of_text(c.arguments)->0
            &&& c.arguments.len() > 0 && json_of_text(c.arguments) is None
                ==> out.function.at("arguments"@).text_at("__error"@) == Some(
                "malformed tool arguments: "@ + json_error_of_text(c.arguments),
            )
        }),
{
    reveal_strlit("");
    reveal_strlit("name");
    reveal_strlit("arguments");
    assert("name"@.len() != "arguments"@.len());
}

/// All gathered calls are given out, in one fragment that comes last, in their order and with
/// the reason why the answer ended; before it comes one that tells of malformed arguments just
/// where a call has such.
pub proof fn all_calls_are_given_out(calls: CallsV, last_finish: Option<Seq<char>>)
    requires
        calls.len() > 0,
    ensures
        ({
            let out = flushed(calls, last_finish);
            let all = out.last();
            &&& all.tool_calls matches Some(given) && given.len() == calls.len() && forall|i: int|
                0 <= i < calls.len() ==> #[trigger] given[i] == finished_call(calls[i].1)
            &&& all.finish_reason == last_finish
            &&& all.content is None && all.reasoning is None && all.error_type is None
            &&& (exists|i: int|
                0 <= i < calls.len() && (#[trigger] calls[i]).1.arguments.len() > 0
                    && json_of_text(calls[i].1.arguments) is None) <==> out.len() == 2
            &&& out.len() == 1 || out.len() == 2
            &&& out.len() == 2 ==> out[0].error_type is Some && out[0].tool_calls is None
                && out[0].content is None
        }),
{
    names_of_the_malformed(calls);
}

proof fn names_of_the_malformed(calls: CallsV)
    ensures
        (exists|i: int|
            0 <= i < calls.len() && (#[trigger] calls[i]).1.arguments.len() > 0 && json_of_text(
                calls[i].1.arguments,
            ) is None) <==> malformed_names(calls).len() > 0,
    decreases calls.len(),
{
    if calls.len() > 0 {
        let before = calls.drop_last();
        names_of_the_malformed(before);
        if malformed_names(before).len() > 0 {
            let i = choose|i: int|
                0 <= i < before.len() && (#[trigger] before[i]).1.arguments.len() > 0
                    && json_of_text(before[i].1.arguments) is None;
            assert(calls[i] == before[i]);
        }
        if is_malformed(calls.last().1) {
            assert(calls[calls.len() - 1].1.arguments.len() > 0);
        }
        if exists|i: int|
            0 <= i < calls.len() && (#[trigger] calls[i]).1.arguments.len() > 0 && json_of_text(
                calls[i].1.arguments,
            ) is None {
            let i = choose|i: int|
                0 <= i < calls.len() && (#[trigger] calls[i]).1.arguments.len() > 0
                    && json_of_text(calls[i].1.arguments) is None;
            if i < before.len() {
                assert(before[i] == calls[i]);
            }
        }
    }
}

/// The counts of an answer are told under one name each: the prompt's tokens as the input, the
/// completion's as the output, the cached ones as read from the cache. What is not reported is
/// not told, and nothing else is.
pub proof fn counts_are_told_under_their_names(usage: JsonV)
    ensures
        ({
            let m = usage_v(usage);
            &&& match usage.at("prompt_tokens"@).signed() {
                Some(n) => m.contains_pair("input_tokens"@, n as i32),
                None => !m.contains_key("input_tokens"@),
            }
            &&& match usage.at("completion_tokens"@).signed() {
                Some(n) => m.contains_pair("output_tokens"@, n as i32),
                None => !m.contains_key("output_tokens"@),
            }
            &&& match usage.at("prompt_tokens_details"@).at("cached_tokens"@).signed() {
                Some(n) => m.contains_pair("cache_read_tokens"@, n as i32),
                None => !m.contains_key("cache_read_tokens"@),
            }
            &&& forall|k: Seq<char>| #[trigger]
                m.contains_key(k) ==> k == "input_tokens"@ || k == "output_tokens"@ || k
                    == "cache_read_tokens"@
        }),
{
    reveal_strlit("input_tokens");
    reveal_strlit("output_tokens");
    reveal_strlit("cache_read_tokens");
    assert("input_tokens"@.len() == 12 && "output_tokens"@.len() == 13
        && "cache_read_tokens"@.len() == 17);
}

/// An answer that tells an error ends the stream as a failure, and nothing else of it is read.
/// In any other the counts come first, as a fragment of their own, where any are reported, and
/// then all the choices, in order.
pub proof fn answers_are_read_whole(core: CoreV, json: JsonV)
    ensures
        ({
            let s = json_step(core, json);
            let u = json.at("usage"@);
            let counted = u.at("prompt_tokens"@).signed() is Some || u.at(
                "completion_tokens"@,
            ).signed() is Some || u.at("prompt_tokens_details"@).at("cached_tokens"@).signed() is Some;
            let counts: int = if counted {
                1
            } else {
                0
            };
            &&& json.get("error"@) is Some ==> {
                &&& s.end
                &&& s.core == core
                &&& s.out.len() == 1
                &&& s.out[0].finish_reason == Some("error"@)
                &&& s.out[0].error_type == Some("request"@)
                &&& s.out[0].content is None
            }
            &&& json.get("error"@) is None ==> {
                &&& counted ==> s.out.len() > 0 && s.out[0].usage == Some(usage_v(u))
                    && s.out[0].content is None && s.out[0].finish_reason is None
                    && s.out[0].error_type is None
                &&& match json.at("choices"@) {
                    JsonV::Arr(choices) => s.out.skip(counts) == choices_step(core, choices).out
                        && s.core == choices_step(core, choices).core && s.end == choices_step(
                        core,
                        choices,
                    ).end,
                    _ => s.core == core && !s.end && s.out.len() == counts,
                }
            }
        }),
{
    let u = json.at("usage"@);
    counts_are_told_under_their_names(u);
    let none = Map::<Seq<char>, i32>::empty();
    if u.at("prompt_tokens"@).signed() is Some {
        assert(usage_v(u) != none) by {
            assert(usage_v(u).contains_key("input_tokens"@));
        }
    } else if u.at("completion_tokens"@).signed() is Some {
        assert(usage_v(u) != none) by {
            assert(usage_v(u).contains_key("output_tokens"@));
        }
    } else if u.at("prompt_tokens_details"@).at("cached_tokens"@).signed() is Some {
        assert(usage_v(u) != none) by {
            assert(usage_v(u).contains_key("cache_read_tokens"@));
        }
    } else {
        assert(usage_v(u) =~= none);
    }
    match json.at("choices"@) {
        JsonV::Arr(choices) => {
            let c = choices_step(core, choices).out;
            assert((usage_out(json) + c).skip(usage_out(json).len() as int) =~= c);
        },
        _ => {},
    }
}

/// The choices of an answer do what they do one after the other, up to one that ends the
/// stream.
pub proof fn choices_compose(core: CoreV, first: JsonV, rest: Seq<JsonV>)
    ensures
        ({
            let a = choice_step(core, first);
            let b = choices_step(a.core, rest);
            let s = choices_step(core, seq![first] + rest);
            &&& a.end ==> s == a
            &&& !a.end ==> s.out == a.out + b.out && s.core == b.core && s.end == b.end
        }),
        choices_step(core, Seq::empty()).out.len() == 0,
        choices_step(core, Seq::empty()).core == core,
        !choices_step(core, Seq::empty()).end,
{
    let all = seq![first] + rest;
    assert(all[0] == first);
    assert(all.skip(1) =~= rest);
}

/// A line is read by what follows `data:`, with a space between or none: JSON there is an
/// answer, what is no JSON does nothing, and neither does a line of another kind.
pub proof fn lines_are_read_by_their_data(core: CoreV, text: Seq<char>, line: Seq<char>)
    requires
        text.len() > 0,
        !crate::text::is_space(text[0]),
        text != "[DONE]"@,
    ensures
        json_of_text(text) matches Some(json) ==> line_step(core, "data:"@ + text) == json_step(
            core,
            json,
        ) && line_step(core, "data: "@ + text) == json_step(core, json),
        json_of_text(text) is None ==> line_step(core, "data: "@ + text) == (StepV {
            core,
            out: Seq::empty(),
            end: false,
        }),
        !"data:"@.is_prefix_of(trim_start(line)) ==> line_step(core, line) == (StepV {
            core,
            out: Seq::empty(),
            end: false,
        }),
{
    reveal_strlit("data:");
    reveal_strlit("data: ");
    let bare = "data:"@ + text;
    let spaced = "data: "@ + text;
    assert(!crate::text::is_space('d'));
    assert(bare[0] == 'd' && spaced[0] == 'd');
    assert(trim_start(bare) == bare && trim_start(spaced) == spaced);
    assert(bare.take(5) =~= "data:"@);
    assert(spaced.take(5) =~= "data:"@);
    assert("data:"@.is_prefix_of(bare) && "data:"@.is_prefix_of(spaced));
    assert(bare.skip(5) =~= text);
    let after = spaced.skip(5);
    assert(after[0] == ' ');
    assert(after.skip(1) =~= text);
    assert(trim_start(text) == text);
    assert(trim_start(after) == trim_start(after.skip(1)));
}

/// Bytes are let in up to a limit; beyond it the stream ends as a failure.
pub proof fn too_long_a_line_is_a_failure(st: StreamV, bytes: Seq<u8>)
    ensures
        st.buf.len() + bytes.len() > 8388608 ==> st.chunk(bytes).done && st.chunk(
            bytes,
        ).pending.len() == st.pending.len() + 1 && st.chunk(bytes).pending.last().finish_reason
            == Some("error"@) && st.chunk(bytes).pending.last().error_type == Some("request"@),
        st.buf.len() + bytes.len() <= 8388608 ==> st.chunk(bytes).pending == st.lines(
            cut_lines(st.buf + bytes).lines,
        ).pending && st.chunk(bytes).buf == cut_lines(st.buf + bytes).rest,
{
    lines_keep_buf(st, cut_lines(st.buf + bytes).lines, cut_lines(st.buf + bytes).rest);
}

/// The reader gets every fragment, in order and once, before anything else; then the end, or a
/// failure where the stream has lasted an hour.
pub proof fn readers_get_every_fragment(r: Poll, before: StreamV, after: StreamV, elapsed_secs: u64)
    requires
        is_polled(r, before, after, elapsed_secs),
    ensures
        before.pending.len() > 0 ==> (r matches Poll::Ready(d) && d@ == before.pending[0])
            && after.pending == before.pending.skip(1) && after.done == before.done,
        before.pending.len() == 0 && before.done ==> r is Finished,
        before.pending.len() == 0 && !before.done && elapsed_secs < 3600 ==> r is Wait && after
            == before,
        before.pending.len() == 0 && !before.done && elapsed_secs >= 3600 ==> (r matches Poll::Ready(
            d,
        ) && d@.finish_reason == Some("error"@)) && after.done,
{
}

/// A line adds its fragments behind those that wait, and an end stays the end; a failure adds
/// one fragment that says so and ends the stream.
pub proof fn streams_grow_and_end(st: StreamV, line: Seq<char>)
    ensures
        st.line(line).pending == st.pending + line_step(st.core, line).out,
        st.line(line).done <==> st.done || line_step(st.core, line).end,
        st.line(line).buf == st.buf,
        st.failed().done && st.failed().pending.len() == st.pending.len() + 1,
        st.failed().pending.last().finish_reason == Some("error"@),
        st.failed().pending.drop_last() == st.pending,
{
    assert(st.failed().pending.drop_last() =~= st.pending);
}

/// A line that arrives whole is read at once, and one without its line feed is kept.
pub proof fn lines_are_read_as_they_arrive(st: StreamV, line: Seq<u8>)
    requires
        st.buf.len() == 0,
        line.len() < 8388608,
        forall|i: int| 0 <= i < line.len() ==> #[trigger] line[i] != 10 && line[i] != 13,
    ensures
        st.chunk(line.push(10)) == st.line(lossy_text(line)),
        st.chunk(line) == (StreamV { buf: line, ..st }),
{
    assert(st.buf + line.push(10) =~= line.push(10) + Seq::<u8>::empty());
    assert(st.buf + line =~= line);
    assert(st.buf =~= Seq::<u8>::empty());
    lines_end_at_their_line_feed(line, Seq::empty());
    assert(line_feed(Seq::<u8>::empty(), 0) is None);
    let lines = cut_lines(line.push(10) + Seq::<u8>::empty()).lines;
    assert(lines =~= seq![lossy_text(line)]);
    assert(lines.drop_last() =~= Seq::empty());
    assert(st.lines(Seq::empty()) == st);
    assert((StreamV { buf: Seq::<u8>::empty(), ..st }) == st);
    assert(st.lines(lines) == st.lines(lines.drop_last()).line(lines.last()));
    let kept = StreamV { buf: line, ..st };
    assert(cut_lines(line).lines =~= Seq::empty());
    assert(kept.lines(Seq::empty()) == kept);
}

} // verus!
