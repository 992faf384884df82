//! The streamed answer of Anthropic's Messages service, parsed into fragments.

use crate::dict::Dict;
use crate::json::{json_of_text, opt_string, owned_opt, Json, JsonV};
use crate::provider::base::{blank_delta, calls_model, deltas_model, failed_delta, lossy_text, utf8_lossy, Delta, DeltaV, ToolCall, ToolCallV};
use crate::provider::openai_stream::Poll;
use crate::provider::sse::{cut_lines, line_feed, lines_end_at_their_line_feed, lines_in_pieces, take_lines};
use crate::text::{owned, same, starts_with, strip_prefix, texts};
use std::collections::HashMap;
use vstd::prelude::*;

verus! {

/// A tool block as far as it has been streamed.
#[verifier::ext_equal]
pub struct BlockV {
    pub id: Option<Seq<char>>,
    pub name: Option<Seq<char>>,
    pub input_json: Seq<char>,
}

/// What the parser remembers between lines: the open tool blocks by their index, and the
/// calls that are complete but not given out.
#[verifier::ext_equal]
pub struct CoreV {
    pub blocks: Map<u64, BlockV>,
    pub ready: Seq<ToolCallV>,
}

/// What an event does: what is remembered, the fragments it gives out, and whether it
/// ends the stream.
#[verifier::ext_equal]
pub struct StepV {
    pub core: CoreV,
    pub out: Seq<DeltaV>,
    pub end: bool,
}

/// The token counts that an answer reports. The input counts what the cache served and
/// what it took in, so that it is the size of the whole prompt.
pub open spec fn usage_v(usage: JsonV) -> Option<Map<Seq<char>, i32>> {
    let fresh = usage.at("input_tokens"@).signed();
    let created = usage.at("cache_creation_input_tokens"@).signed();
    let read = usage.at("cache_read_input_tokens"@).signed();
    let zero = |o: Option<i64>|
        match o {
            Some(n) => n,
            None => 0i64,
        };
    let a = if fresh is Some || created is Some || read is Some {
        Map::<Seq<char>, i32>::empty().insert(
            "input_tokens"@,
            zero(fresh).wrapping_add(zero(created)).wrapping_add(zero(read)) as i32,
        )
    } else {
        Map::empty()
    };
    let b = match usage.at("output_tokens"@).signed() {
        Some(n) => a.insert("output_tokens"@, n as i32),
        None => a,
    };
    let c = match created {
        Some(n) => b.insert("cache_creation_tokens"@, n as i32),
        None => b,
    };
    let d = match read {
        Some(n) => c.insert("cache_read_tokens"@, n as i32),
        None => c,
    };
    if d == Map::<Seq<char>, i32>::empty() {
        None
    } else {
        Some(d)
    }
}

fn or_zero(o: Option<i64>) -> (r: i64)
    ensures
        r == (match o {
            Some(n) => n,
            None => 0i64,
        }),
{
    match o {
        Some(n) => n,
        None => 0,
    }
}

/// The token counts that an answer reports, `None` where it reports none.
pub fn usage_map_from_anthropic(usage: &Json) -> (r: Option<Dict<i32>>)
    ensures
        (match r {
            Some(d) => Some(d@),
            None => None,
        }) == usage_v(usage@),
{
    let mut map: Dict<i32> = Dict::new();
    let fresh = usage.get_i64("input_tokens");
    let created = usage.get_i64("cache_creation_input_tokens");
    let read = usage.get_i64("cache_read_input_tokens");
    if fresh.is_some() || created.is_some() || read.is_some() {
        let total: i64 = or_zero(fresh).wrapping_add(or_zero(created)).wrapping_add(or_zero(read));
        map.insert("input_tokens", #[verifier::truncate] (total as i32));
    }
    match usage.get_i64("output_tokens") {
        Some(n) => {
            map.insert("output_tokens", #[verifier::truncate] (n as i32));
        },
        None => {},
    }
    match created {
        Some(n) => {
            map.insert("cache_creation_tokens", #[verifier::truncate] (n as i32));
        },
        None => {},
    }
    match read {
        Some(n) => {
            map.insert("cache_read_tokens", #[verifier::truncate] (n as i32));
        },
        None => {},
    }
    if map.is_empty() {
        None
    } else {
        Some(map)
    }
}

/// The index of a block, 0 where the event has none.
pub open spec fn block_index(json: JsonV) -> u64 {
    match json.at("index"@).unsigned() {
        Some(n) => n,
        None => 0,
    }
}

/// The arguments of a block: an empty object where it streamed none or what is not JSON.
pub open spec fn block_arguments(text: Seq<char>, parsed: Option<JsonV>) -> JsonV {
    if text.len() == 0 {
        JsonV::empty()
    } else {
        match parsed {
            Some(v) => v,
            None => JsonV::empty(),
        }
    }
}

/// The call that a complete block makes.
pub open spec fn finished_block(b: BlockV) -> ToolCallV {
    ToolCallV {
        id: match b.id {
            Some(s) => s,
            None => ""@,
        },
        kind: "function"@,
        function: JsonV::empty().put(
            "name"@,
            JsonV::Str(
                match b.name {
                    Some(s) => s,
                    None => ""@,
                },
            ),
        ).put("arguments"@, block_arguments(b.input_json, json_of_text(b.input_json))),
    }
}

/// What an event does.
pub open spec fn event_step(core: CoreV, json: JsonV) -> StepV {
    let idle = StepV { core, out: Seq::empty(), end: false };
    let kind = json.text_at("type"@);
    if kind == Some("message_start"@) {
        match json.at("message"@).text_at("role"@) {
            Some(role) => StepV {
                out: seq![
                    DeltaV {
                        role,
                        usage: usage_v(json.at("message"@).at("usage"@)),
                        ..blank_delta()
                    },
                ],
                ..idle
            },
            None => idle,
        }
    } else if kind == Some("content_block_start"@) {
        let block = json.at("content_block"@);
        if block.text_at("type"@) == Some("tool_use"@) {
            StepV {
                core: CoreV {
                    blocks: core.blocks.insert(
                        block_index(json),
                        BlockV {
                            id: block.text_at("id"@),
                            name: block.text_at("name"@),
                            input_json: Seq::empty(),
                        },
                    ),
                    ..core
                },
                ..idle
            }
        } else {
            idle
        }
    } else if kind == Some("content_block_delta"@) {
        let delta = json.at("delta"@);
        let what = delta.text_at("type"@);
        if what == Some("text_delta"@) {
            match delta.text_at("text"@) {
                Some(t) => StepV {
                    out: seq![DeltaV { content: Some(t), ..blank_delta() }],
                    ..idle
                },
                None => idle,
            }
        } else if what == Some("thinking_delta"@) {
            match delta.text_at("thinking"@) {
                Some(t) => StepV {
                    out: seq![DeltaV { reasoning: Some(t), ..blank_delta() }],
                    ..idle
                },
                None => idle,
            }
        } else if what == Some("input_json_delta"@) {
            let i = block_index(json);
            match delta.text_at("partial_json"@) {
                Some(t) => if core.blocks.contains_key(i) {
                    StepV {
                        core: CoreV {
                            blocks: core.blocks.insert(
                                i,
                                BlockV {
                                    input_json: core.blocks[i].input_json + t,
                                    ..core.blocks[i]
                                },
                            ),
                            ..core
                        },
                        ..idle
                    }
                } else {
                    idle
                },
                None => idle,
            }
        } else {
            idle
        }
    } else if kind == Some("content_block_stop"@) {
        let i = block_index(json);
        if core.blocks.contains_key(i) {
            StepV {
                core: CoreV {
                    blocks: core.blocks.remove(i),
                    ready: core.ready.push(finished_block(core.blocks[i])),
                },
                ..idle
            }
        } else {
            idle
        }
    } else if kind == Some("message_delta"@) {
        StepV {
            core: CoreV { ready: Seq::empty(), ..core },
            out: seq![
                DeltaV {
                    tool_calls: if core.ready.len() > 0 {
                        Some(core.ready)
                    } else {
                        None
                    },
                    finish_reason: json.at("delta"@).text_at("stop_reason"@),
                    usage: usage_v(json.at("usage"@)),
                    ..blank_delta()
                },
            ],
            ..idle
        }
    } else if kind == Some("message_stop"@) {
        StepV { end: true, ..idle }
    } else {
        idle
    }
}

/// What a line does. Only data that is JSON does anything.
pub open spec fn line_step(core: CoreV, line: Seq<char>) -> StepV {
    let idle = StepV { core, out: Seq::empty(), end: false };
    if "event: "@.is_prefix_of(line) || !"data: "@.is_prefix_of(line) {
        idle
    } else {
        match json_of_text(line.skip("data: "@.len() as int)) {
            Some(json) => event_step(core, json),
            None => idle,
        }
    }
}

/// Where a stream stands.
#[verifier::ext_equal]
pub struct StreamV {
    pub core: CoreV,
    pub buf: Seq<u8>,
    pub pending: Seq<DeltaV>,
    pub done: bool,
}

impl StreamV {
    /// A line added.
    pub open spec fn line(self, line: Seq<char>) -> StreamV {
        let s = line_step(self.core, line);
        StreamV {
            core: s.core,
            pending: self.pending + s.out,
            done: self.done || s.end,
            ..self
        }
    }

    /// Lines added, in order.
    pub open spec fn lines(self, lines: Seq<Seq<char>>) -> StreamV
        decreases lines.len(),
    {
        if lines.len() == 0 {
            self
        } else {
            self.lines(lines.drop_last()).line(lines.last())
        }
    }

    /// A failure: the stream ends with the fragment that says so.
    pub open spec fn failed(self) -> StreamV {
        StreamV { pending: self.pending.push(failed_delta()), done: true, ..self }
    }

    /// A chunk arrived: its complete lines are added.
    pub open spec fn chunk(self, bytes: Seq<u8>) -> StreamV {
        let cut = cut_lines(self.buf + bytes);
        (StreamV { buf: cut.rest, ..self }).lines(cut.lines)
    }

    /// The end of the stream: the last line counts without a line feed.
    pub open spec fn ended(self) -> StreamV {
        if self.buf.len() > 0 {
            StreamV {
                done: true,
                ..(StreamV { buf: Seq::empty(), ..self }).line(lossy_text(self.buf))
            }
        } else {
            StreamV { done: true, ..self }
        }
    }
}

/// Adding lines in two parts comes to the same as adding them at once.
pub proof fn lines_compose(st: StreamV, a: Seq<Seq<char>>, b: Seq<Seq<char>>)
    ensures
        st.lines(a + b) == st.lines(a).lines(b),
    decreases b.len(),
{
    if b.len() == 0 {
        assert(a + b =~= a);
    } else {
        lines_compose(st, a, b.drop_last());
        assert((a + b).drop_last() =~= a + b.drop_last());
        assert((a + b).last() == b.last());
    }
}

proof fn lines_keep_buf(st: StreamV, ls: Seq<Seq<char>>, b: Seq<u8>)
    ensures
        st.lines(ls).buf == st.buf,
        (StreamV { buf: b, ..st.lines(ls) }) == (StreamV { buf: b, ..st }).lines(ls),
    decreases ls.len(),
{
    if ls.len() > 0 {
        lines_keep_buf(st, ls.drop_last(), b);
    }
}

/// Where the chunks of an answer are cut makes no difference to what comes of it.
pub proof fn chunks_compose(st: StreamV, a: Seq<u8>, b: Seq<u8>)
    ensures
        st.chunk(a).chunk(b) == st.chunk(a + b),
{
    let x = cut_lines(st.buf + a);
    let y = cut_lines(x.rest + b);
    lines_in_pieces(st.buf + a, b);
    assert((st.buf + a) + b =~= st.buf + (a + b));
    let s0 = StreamV { buf: x.rest, ..st };
    lines_keep_buf(s0, x.lines, y.rest);
    lines_compose(StreamV { buf: y.rest, ..st }, x.lines, y.lines);
}

/// A tool block as far as it has been streamed.
pub struct PendingBlock {
    pub id: Option<String>,
    pub name: Option<String>,
    pub input_json: String,
}

impl View for PendingBlock {
    type V = BlockV;

    open spec fn view(&self) -> BlockV {
        BlockV { id: opt_string(self.id), name: opt_string(self.name), input_json: self.input_json@ }
    }
}

/// The parser of a streamed answer.
pub struct AnthropicSSEStream {
    blocks: HashMap<u64, PendingBlock>,
    ready: Vec<ToolCall>,
    buf: Vec<u8>,
    pending: Vec<Delta>,
    done: bool,
}

/// The models of the open blocks.
pub open spec fn blocks_model(m: Map<u64, PendingBlock>) -> Map<u64, BlockV> {
    m.map_values(|b: PendingBlock| b@)
}

impl View for AnthropicSSEStream {
    type V = StreamV;

    closed spec fn view(&self) -> StreamV {
        StreamV {
            core: CoreV { blocks: blocks_model(self.blocks@), ready: calls_model(self.ready@) },
            buf: self.buf@,
            pending: deltas_model(self.pending@),
            done: self.done,
        }
    }
}

/// The arguments of a block, from what was streamed and what it says as JSON.
pub fn block_value(text: &str, parsed: Result<Json, String>) -> (r: Json)
    ensures
        r@ == block_arguments(
            text@,
            match parsed {
                Ok(v) => Some(v@),
                Err(_) => None,
            },
        ),
{
    if text.is_empty() {
        Json::object()
    } else {
        match parsed {
            Ok(v) => v,
            Err(_) => Json::object(),
        }
    }
}

/// What the reader gets next of a stream, and how the stream stands then.
pub open spec fn is_polled(r: Poll, before: StreamV, after: StreamV) -> bool {
    match r {
        Poll::Ready(d) => before.pending.len() > 0 && d@ == before.pending[0] && after == (StreamV {
            pending: before.pending.skip(1),
            ..before
        }),
        Poll::Finished => before.pending.len() == 0 && before.done && after == before,
        Poll::Wait => before.pending.len() == 0 && !before.done && after == before,
    }
}

impl AnthropicSSEStream {
    /// A stream of which nothing has arrived.
    pub fn new() -> (r: AnthropicSSEStream)
        ensures
            r@ == (StreamV {
                core: CoreV { blocks: Map::empty(), ready: Seq::empty() },
                buf: Seq::empty(),
                pending: Seq::empty(),
                done: false,
            }),
    {
        broadcast use vstd::std_specs::hash::group_hash_axioms;

        let r = AnthropicSSEStream {
            blocks: HashMap::new(),
            ready: Vec::new(),
            buf: Vec::new(),
            pending: Vec::new(),
            done: false,
        };
        proof {
            assert(r@.core.blocks =~= Map::empty());
            assert(r@.core.ready =~= Seq::empty());
            assert(r@.pending =~= Seq::empty());
        }
        r
    }

    fn push(&mut self, d: Delta)
        ensures
            final(self)@ == (StreamV { pending: old(self)@.pending.push(d@), ..old(self)@ }),
    {
        self.pending.push(d);
        proof {
            assert(deltas_model(self.pending@) =~= deltas_model(old(self).pending@).push(d@));
        }
    }

    fn set_block(&mut self, index: u64, block: PendingBlock)
        ensures
            final(self)@ == (StreamV {
                core: CoreV {
                    blocks: old(self)@.core.blocks.insert(index, block@),
                    ..old(self)@.core
                },
                ..old(self)@
            }),
    {
        broadcast use vstd::std_specs::hash::group_hash_axioms;

        self.blocks.insert(index, block);
        proof {
            assert(blocks_model(self.blocks@) =~= blocks_model(old(self).blocks@).insert(
                index,
                block@,
            ));
        }
    }

    fn take_block(&mut self, index: u64) -> (r: Option<PendingBlock>)
        ensures
            match r {
                Some(b) => old(self)@.core.blocks.contains_key(index) && b@
                    == old(self)@.core.blocks[index],
                None => !old(self)@.core.blocks.contains_key(index),
            },
            final(self)@ == (StreamV {
                core: CoreV {
                    blocks: old(self)@.core.blocks.remove(index),
                    ..old(self)@.core
                },
                ..old(self)@
            }),
    {
        broadcast use vstd::std_specs::hash::group_hash_axioms;

        let r = self.blocks.remove(&index);
        proof {
            assert(blocks_model(self.blocks@) =~= blocks_model(old(self).blocks@).remove(index));
        }
        r
    }

    /// Adds one parsed event; whether it ends the stream.
    pub fn process_event(&mut self, json: &Json) -> (r: bool)
        ensures
            ({
                let s = event_step(old(self)@.core, json@);
                &&& r == s.end
                &&& final(self)@ == (StreamV {
                    core: s.core,
                    pending: old(self)@.pending + s.out,
                    ..old(self)@
                })
            }),
    {
        let ghost st = self@;
        let ghost goal = event_step(st.core, json@);
        proof {
            assert(st.pending + Seq::<DeltaV>::empty() =~= st.pending);
        }
        let kind = match json.get_str("type") {
            Some(s) => s,
            None => {
                return false;
            },
        };
        let index: u64 = match json.get_u64("index") {
            Some(n) => n,
            None => 0,
        };
        if same(kind, "message_start") {
            match json.get_str2("message", "role") {
                Some(role) => {
                    let usage = match json.get("message") {
                        Some(m) => match m.get("usage") {
                            Some(u) => usage_map_from_anthropic(u),
                            None => usage_map_from_anthropic(&Json::Null),
                        },
                        None => None,
                    };
                    let mut d = Delta::blank();
                    d.role = owned(role);
                    d.usage = usage;
                    self.push(d);
                    proof {
                        assert(self@.pending =~= st.pending + goal.out);
                    }
                },
                None => {},
            }
            false
        } else if same(kind, "content_block_start") {
            match json.get("content_block") {
                Some(block) => match block.get_str("type") {
                    Some(t) => if same(t, "tool_use") {
                        let b = PendingBlock {
                            id: owned_opt(block.get_str("id")),
                            name: owned_opt(block.get_str("name")),
                            input_json: String::new(),
                        };
                        self.set_block(index, b);
                    },
                    None => {},
                },
                None => {},
            }
            false
        } else if same(kind, "content_block_delta") {
            match json.get("delta") {
                Some(delta) => match delta.get_str("type") {
                    Some(what) => if same(what, "text_delta") {
                        match delta.get_str("text") {
                            Some(t) => {
                                let mut d = Delta::blank();
                                d.content = Some(owned(t));
                                self.push(d);
                                proof {
                                    assert(self@.pending =~= st.pending + goal.out);
                                }
                            },
                            None => {},
                        }
                    } else if same(what, "thinking_delta") {
                        match delta.get_str("thinking") {
                            Some(t) => {
                                let mut d = Delta::blank();
                                d.reasoning = Some(owned(t));
                                self.push(d);
                                proof {
                                    assert(self@.pending =~= st.pending + goal.out);
                                }
                            },
                            None => {},
                        }
                    } else if same(what, "input_json_delta") {
                        match delta.get_str("partial_json") {
                            Some(t) => {
                                match self.take_block(index) {
                                    Some(b0) => {
                                        let mut b = b0;
                                        b.input_json.push_str(t);
                                        self.set_block(index, b);
                                        proof {
                                            assert(self@.core.blocks =~= goal.core.blocks);
                                        }
                                    },
                                    None => {
                                        proof {
                                            assert(self@.core.blocks =~= st.core.blocks);
                                        }
                                    },
                                }
                            },
                            None => {},
                        }
                    },
                    None => {},
                },
                None => {},
            }
            false
        } else if same(kind, "content_block_stop") {
            match self.take_block(index) {
                Some(b) => {
                    let arguments = block_value(
                        b.input_json.as_str(),
                        Json::parse(b.input_json.as_str()),
                    );
                    let name = match b.name {
                        Some(s) => s,
                        None => owned(""),
                    };
                    let id = match b.id {
                        Some(s) => s,
                        None => owned(""),
                    };
                    let function = Json::object().with("name", Json::Str(name)).with(
                        "arguments",
                        arguments,
                    );
                    let call = ToolCall { id, kind: owned("function"), function };
                    self.ready.push(call);
                    proof {
                        assert(call@ =~= finished_block(st.core.blocks[index]));
                        assert(self@.core.ready =~= st.core.ready.push(call@));
                    }
                },
                None => {
                    proof {
                        assert(self@.core.blocks =~= st.core.blocks);
                    }
                },
            }
            false
        } else if same(kind, "message_delta") {
            let mut ready: Vec<ToolCall> = Vec::new();
            core::mem::swap(&mut ready, &mut self.ready);
            let mut d = Delta::blank();
            proof {
                assert(calls_model(self.ready@) =~= Seq::empty());
            }
            if ready.len() > 0 {
                d.tool_calls = Some(ready);
            }
            d.finish_reason = owned_opt(json.get_str2("delta", "stop_reason"));
            d.usage = match json.get("usage") {
                Some(u) => usage_map_from_anthropic(u),
                None => usage_map_from_anthropic(&Json::Null),
            };
            self.push(d);
            proof {
                assert(d@ =~= goal.out[0]);
                assert(self@.pending =~= st.pending + goal.out);
            }
            false
        } else if same(kind, "message_stop") {
            true
        } else {
            false
        }
    }

    /// Adds one complete line; whether it ends the stream.
    pub fn process_line(&mut self, line: &str) -> (r: bool)
        ensures
            ({
                let s = line_step(old(self)@.core, line@);
                &&& r == s.end
                &&& final(self)@ == (StreamV {
                    core: s.core,
                    pending: old(self)@.pending + s.out,
                    ..old(self)@
                })
            }),
    {
        proof {
            assert(self@.pending + Seq::<DeltaV>::empty() =~= self@.pending);
        }
        if starts_with(line, "event: ") {
            return false;
        }
        let data = match strip_prefix(line, "data: ") {
            Some(d) => d,
            None => return false,
        };
        match Json::parse(data.as_str()) {
            Ok(json) => self.process_event(&json),
            Err(_) => false,
        }
    }

    /// A failure of the connection, or silence for too long: the stream ends.
    pub fn fail(&mut self)
        ensures
            final(self)@ == old(self)@.failed(),
    {
        let d = Delta::failed();
        self.push(d);
        self.done = true;
    }

    /// A chunk arrived.
    pub fn chunk(&mut self, bytes: &[u8])
        ensures
            final(self)@ == old(self)@.chunk(bytes@),
    {
        let ghost st = self@;
        let mut i: usize = 0;
        proof {
            assert(st.buf + bytes@.take(0) =~= st.buf);
        }
        while i < bytes.len()
            invariant
                i <= bytes@.len(),
                self@ == (StreamV { buf: st.buf + bytes@.take(i as int), ..st }),
            decreases bytes@.len() - i,
        {
            self.buf.push(bytes[i]);
            i += 1;
            proof {
                assert(st.buf + bytes@.take(i as int) =~= (st.buf + bytes@.take(i - 1)).push(
                    bytes@[i - 1],
                ));
            }
        }
        proof {
            assert(bytes@.take(i as int) =~= bytes@);
        }
        let lines = take_lines(&mut self.buf);
        let ghost s0 = self@;
        let ghost ls = texts(lines@);
        let mut k: usize = 0;
        while k < lines.len()
            invariant
                k <= lines@.len(),
                ls == texts(lines@),
                self@ == s0.lines(ls.take(k as int)),
            decreases lines@.len() - k,
        {
            let ghost before = self@;
            let end = self.process_line(lines[k].as_str());
            if end {
                self.done = true;
            }
            k += 1;
            proof {
                assert(ls.take(k as int).drop_last() =~= ls.take(k - 1));
                assert(ls.take(k as int).last() == lines@[k - 1]@);
                assert(self@ =~= before.line(lines@[k - 1]@));
            }
        }
        proof {
            assert(ls.take(k as int) =~= ls);
        }
    }

    /// The connection closed.
    pub fn end(&mut self)
        ensures
            final(self)@ == old(self)@.ended(),
    {
        if self.buf.len() > 0 {
            let line = utf8_lossy(self.buf.as_slice());
            self.buf = Vec::new();
            self.process_line(line.as_str());
        }
        self.done = true;
    }

    /// What the reader gets next: what is ready, in order, then the end.
    pub fn poll(&mut self) -> (r: Poll)
        ensures
            is_polled(r, old(self)@, final(self)@),
    {
        if self.pending.len() > 0 {
            let d = self.pending.remove(0);
            proof {
                assert(self@.pending =~= old(self)@.pending.skip(1));
            }
            return Poll::Ready(d);
        }
        if self.done {
            return Poll::Finished;
        }
        Poll::Wait
    }
}

/// The thoughts of an answer reach the reader as reasoning and its text as content, each in
/// one fragment that says nothing else.
pub proof fn thoughts_are_reasoning_and_texts_are_content(core: CoreV, json: JsonV, t: Seq<char>)
    requires
        json.text_at("type"@) == Some("content_block_delta"@),
    ensures
        json.at("delta"@).text_at("type"@) == Some("thinking_delta"@) && json.at(
            "delta"@,
        ).text_at("thinking"@) == Some(t) ==> {
            let s = event_step(core, json);
            &&& s.core == core
            &&& !s.end
            &&& s.out.len() == 1
            &&& s.out[0].reasoning == Some(t)
            &&& s.out[0].content is None
            &&& s.out[0].tool_calls is None
            &&& s.out[0].finish_reason is None
            &&& s.out[0].usage is None
            &&& s.out[0].error_type is None
            &&& s.out[0].role == "assistant"@
        },
        json.at("delta"@).text_at("type"@) == Some("text_delta"@) && json.at("delta"@).text_at(
            "text"@,
        ) == Some(t) ==> {
            let s = event_step(core, json);
            &&& s.core == core
            &&& !s.end
            &&& s.out.len() == 1
            &&& s.out[0].content == Some(t)
            &&& s.out[0].reasoning is None
            &&& s.out[0].tool_calls is None
            &&& s.out[0].finish_reason is None
            &&& s.out[0].usage is None
            &&& s.out[0].error_type is None
            &&& s.out[0].role == "assistant"@
        },
{
    kinds_differ();
    what_kinds_differ();
}

proof fn kinds_differ()
    ensures
        "message_start"@ != "content_block_start"@,
        "message_start"@ != "content_block_delta"@,
        "message_start"@ != "content_block_stop"@,
        "message_start"@ != "message_delta"@,
        "message_start"@ != "message_stop"@,
        "content_block_start"@ != "content_block_delta"@,
        "content_block_start"@ != "content_block_stop"@,
        "content_block_start"@ != "message_delta"@,
        "content_block_start"@ != "message_stop"@,
        "content_block_delta"@ != "content_block_stop"@,
        "content_block_delta"@ != "message_delta"@,
        "content_block_delta"@ != "message_stop"@,
        "content_block_stop"@ != "message_delta"@,
        "content_block_stop"@ != "message_stop"@,
        "message_delta"@ != "message_stop"@,
{
    reveal_strlit("message_start");
    reveal_strlit("content_block_start");
    reveal_strlit("content_block_delta");
    reveal_strlit("content_block_stop");
    reveal_strlit("message_delta");
    reveal_strlit("message_stop");
    assert("message_start"@[8] == 's' && "message_delta"@[8] == 'd');
    assert("content_block_start"@[14] == 's' && "content_block_delta"@[14] == 'd');
    assert("message_start"@.len() == 13 && "message_delta"@.len() == 13 && "message_stop"@.len()
        == 12);
    assert("content_block_start"@.len() == 19 && "content_block_delta"@.len() == 19
        && "content_block_stop"@.len() == 18);
}

proof fn what_kinds_differ()
    ensures
        "text_delta"@ != "thinking_delta"@,
        "text_delta"@ != "input_json_delta"@,
        "thinking_delta"@ != "input_json_delta"@,
{
    reveal_strlit("text_delta");
    reveal_strlit("thinking_delta");
    reveal_strlit("input_json_delta");
    assert("text_delta"@.len() == 10 && "thinking_delta"@.len() == 14
        && "input_json_delta"@.len() == 16);
}

/// The texts that events bring as the answer: those of `text_delta` and no others.
pub open spec fn answer_texts(events: Seq<JsonV>) -> Seq<char>
    decreases events.len(),
{
    if events.len() == 0 {
        Seq::empty()
    } else {
        let e = events.last();
        let before = answer_texts(events.drop_last());
        if e.at("type"@) == JsonV::Str("content_block_delta"@) && e.at("delta"@).at("type"@)
            == JsonV::Str("text_delta"@) {
            match e.at("delta"@).at("text"@) {
                JsonV::Str(t) => before + t,
                _ => before,
            }
        } else {
            before
        }
    }
}

/// The texts that events bring as thoughts: those of `thinking_delta` and no others.
pub open spec fn thought_texts(events: Seq<JsonV>) -> Seq<char>
    decreases events.len(),
{
    if events.len() == 0 {
        Seq::empty()
    } else {
        let e = events.last();
        let before = thought_texts(events.drop_last());
        if e.at("type"@) == JsonV::Str("content_block_delta"@) && e.at("delta"@).at("type"@)
            == JsonV::Str("thinking_delta"@) {
            match e.at("delta"@).at("thinking"@) {
                JsonV::Str(t) => before + t,
                _ => before,
            }
        } else {
            before
        }
    }
}

/// The content of fragments, put together.
pub open spec fn all_content(out: Seq<DeltaV>) -> Seq<char>
    decreases out.len(),
{
    if out.len() == 0 {
        Seq::empty()
    } else {
        match out.last().content {
            Some(t) => all_content(out.drop_last()) + t,
            None => all_content(out.drop_last()),
        }
    }
}

/// The reasoning of fragments, put together.
pub open spec fn all_reasoning(out: Seq<DeltaV>) -> Seq<char>
    decreases out.len(),
{
    if out.len() == 0 {
        Seq::empty()
    } else {
        match out.last().reasoning {
            Some(t) => all_reasoning(out.drop_last()) + t,
            None => all_reasoning(out.drop_last()),
        }
    }
}

/// What events do, one after the other.
pub open spec fn events_step(core: CoreV, events: Seq<JsonV>) -> StepV
    decreases events.len(),
{
    if events.len() == 0 {
        StepV { core, out: Seq::empty(), end: false }
    } else {
        let before = events_step(core, events.drop_last());
        let last = event_step(before.core, events.last());
        StepV { core: last.core, out: before.out + last.out, end: before.end || last.end }
    }
}

/// Over any events the content given out is the answer's text and the reasoning is the
/// model's thoughts: neither is lost, and neither is taken for the other.
pub proof fn answers_and_thoughts_come_out_apart(core: CoreV, events: Seq<JsonV>)
    ensures
        all_content(events_step(core, events).out) == answer_texts(events),
        all_reasoning(events_step(core, events).out) == thought_texts(events),
    decreases events.len(),
{
    if events.len() > 0 {
        let before = events_step(core, events.drop_last());
        answers_and_thoughts_come_out_apart(core, events.drop_last());
        let last = event_step(before.core, events.last());
        kinds_differ();
        what_kinds_differ();
        assert(last.out.len() <= 1);
        if last.out.len() == 1 {
            assert((before.out + last.out).drop_last() =~= before.out);
            assert((before.out + last.out).last() == last.out[0]);
        } else {
            assert(before.out + last.out =~= before.out);
        }
    }
}

/// A call is begun by its block, under the block's identifier and name; its pieces of
/// arguments are put together, each at its own index; and when its block stops it is complete.
/// No other block is touched.
pub proof fn blocks_become_calls(core: CoreV, json: JsonV)
    ensures
        ({
            let s = event_step(core, json);
            let i = match json.at("index"@) {
                JsonV::Int(n) => if 0 <= n <= u64::MAX {
                    n as u64
                } else {
                    0
                },
                _ => 0,
            };
            let block = json.at("content_block"@);
            &&& json.at("type"@) == JsonV::Str("content_block_start"@) && block.at("type"@)
                == JsonV::Str("tool_use"@) ==> {
                &&& s.core.blocks.contains_key(i)
                &&& s.core.blocks[i].id == (match block.at("id"@) {
                    JsonV::Str(t) => Some(t),
                    _ => None,
                })
                &&& s.core.blocks[i].name == (match block.at("name"@) {
                    JsonV::Str(t) => Some(t),
                    _ => None,
                })
                &&& s.core.blocks[i].input_json.len() == 0
                &&& s.core.blocks.remove(i) == core.blocks.remove(i)
                &&& s.core.ready == core.ready
                &&& s.out.len() == 0 && !s.end
            }
            &&& json.at("type"@) == JsonV::Str("content_block_delta"@) && json.at("delta"@).at(
                "type"@,
            ) == JsonV::Str("input_json_delta"@) ==> {
                &&& core.blocks.contains_key(i) ==> {
                    &&& s.core.blocks.contains_key(i)
                    &&& s.core.blocks[i].input_json == (match json.at("delta"@).at(
                        "partial_json"@,
                    ) {
                        JsonV::Str(t) => core.blocks[i].input_json + t,
                        _ => core.blocks[i].input_json,
                    })
                    &&& s.core.blocks[i].id == core.blocks[i].id
                    &&& s.core.blocks[i].name == core.blocks[i].name
                }
                &&& !core.blocks.contains_key(i) ==> s.core == core
                &&& s.core.blocks.remove(i) == core.blocks.remove(i)
                &&& s.core.ready == core.ready
                &&& s.out.len() == 0 && !s.end
            }
            &&& json.at("type"@) == JsonV::Str("content_block_stop"@) ==> {
                &&& core.blocks.contains_key(i) ==> {
                    &&& s.core.ready == core.ready.push(finished_block(core.blocks[i]))
                    &&& !s.core.blocks.contains_key(i)
                }
                &&& !core.blocks.contains_key(i) ==> s.core == core
                &&& s.core.blocks.remove(i) == core.blocks.remove(i)
                &&& s.out.len() == 0 && !s.end
            }
        }),
{
    kinds_differ();
    what_kinds_differ();
    let i = block_index(json);
    let s = event_step(core, json);
    assert(s.core.blocks.remove(i) =~= core.blocks.remove(i)) by {
        assert(forall|k: u64| k != i ==> (s.core.blocks.contains_key(k) <==> core.blocks.contains_key(k)));
    }
}

/// A complete block is a call under its identifier, of the tool that it names, with the value
/// that its pieces say together; pieces that are not JSON, or none, are the empty object.
pub proof fn a_finished_block_is_its_call(b: BlockV)
    ensures
        ({
            let out = finished_block(b);
            &&& b.id matches Some(s) ==> out.id == s
            &&& b.id is None ==> out.id.len() == 0
            &&& out.kind == "function"@
            &&& b.name matches Some(s) ==> out.function.at("name"@) == JsonV::Str(s)
            &&& b.name is None ==> out.function.at("name"@) == JsonV::Str(""@)
            &&& b.input_json.len() > 0 && json_of_text(b.input_json) is Some
                ==> out.function.at("arguments"@) == json_of_text(b.input_json)->0
            &&& b.input_json.len() == 0 || json_of_text(b.input_json) is None
                ==> out.function.at("arguments"@) == JsonV::empty()
        }),
{
    reveal_strlit("");
    reveal_strlit("name");
    reveal_strlit("arguments");
    assert("name"@.len() != "arguments"@.len());
}

/// The end of a message gives out all the calls that are complete, in order and once, with the
/// reason why it ended and its counts; and the stream ends where the service says so, and
/// nowhere else.
pub proof fn messages_end_with_their_calls(core: CoreV, json: JsonV)
    ensures
        ({
            let s = event_step(core, json);
            &&& json.at("type"@) == JsonV::Str("message_delta"@) ==> {
                &&& s.out.len() == 1
                &&& core.ready.len() > 0 ==> s.out[0].tool_calls == Some(core.ready)
                &&& core.ready.len() == 0 ==> s.out[0].tool_calls is None
                &&& s.out[0].finish_reason == (match json.at("delta"@).at("stop_reason"@) {
                    JsonV::Str(t) => Some(t),
                    _ => None,
                })
                &&& s.out[0].usage == usage_v(json.at("usage"@))
                &&& s.out[0].content is None && s.out[0].reasoning is None
                    && s.out[0].error_type is None
                &&& s.core.ready.len() == 0
                &&& s.core.blocks == core.blocks
            }
            &&& json.at("type"@) == JsonV::Str("message_start"@) ==> {
                &&& s.core == core
                &&& json.at("message"@).at("role"@) matches JsonV::Str(role) ==> s.out.len() == 1
                    && s.out[0].role == role && s.out[0].usage == usage_v(
                    json.at("message"@).at("usage"@),
                ) && s.out[0].content is None && s.out[0].finish_reason is None
            }
            &&& s.end <==> json.at("type"@) == JsonV::Str("message_stop"@)
        }),
{
    kinds_differ();
    what_kinds_differ();
}

/// The counts of an answer are told under one name each, and only those that are reported. The
/// input is the whole prompt: what was fresh, what the cache took in and what it served.
pub proof fn counts_are_told_under_their_names(usage: JsonV)
    ensures
        ({
            let fresh = usage.at("input_tokens"@).signed();
            let created = usage.at("cache_creation_input_tokens"@).signed();
            let read = usage.at("cache_read_input_tokens"@).signed();
            let output = usage.at("output_tokens"@).signed();
            &&& usage_v(usage) is None <==> fresh is None && created is None && read is None
                && output is None
            &&& usage_v(usage) matches Some(m) ==> {
                &&& m.contains_key("input_tokens"@) <==> fresh is Some || created is Some || read is Some
                &&& match (fresh, created, read) {
                    (Some(a), Some(b), Some(c)) => 0 <= a <= 0x2000_0000 && 0 <= b <= 0x2000_0000
                        && 0 <= c <= 0x2000_0000 ==> m["input_tokens"@] == a + b + c,
                    (Some(a), None, None) => m["input_tokens"@] == a as i32,
                    (Some(a), Some(b), None) => 0 <= a <= 0x2000_0000 && 0 <= b <= 0x2000_0000
                        ==> m["input_tokens"@] == a + b,
                    (Some(a), None, Some(c)) => 0 <= a <= 0x2000_0000 && 0 <= c <= 0x2000_0000
                        ==> m["input_tokens"@] == a + c,
                    _ => true,
                }
                &&& match output {
                    Some(n) => m.contains_pair("output_tokens"@, n as i32),
                    None => !m.contains_key("output_tokens"@),
                }
                &&& match created {
                    Some(n) => m.contains_pair("cache_creation_tokens"@, n as i32),
                    None => !m.contains_key("cache_creation_tokens"@),
                }
                &&& match read {
                    Some(n) => m.contains_pair("cache_read_tokens"@, n as i32),
                    None => !m.contains_key("cache_read_tokens"@),
                }
            }
        }),
{
    reveal_strlit("input_tokens");
    reveal_strlit("output_tokens");
    reveal_strlit("cache_creation_tokens");
    reveal_strlit("cache_read_tokens");
    assert("input_tokens"@.len() == 12 && "output_tokens"@.len() == 13
        && "cache_creation_tokens"@.len() == 21 && "cache_read_tokens"@.len() == 17);
    let none = Map::<Seq<char>, i32>::empty();
    let fresh = usage.at("input_tokens"@).signed();
    let created = usage.at("cache_creation_input_tokens"@).signed();
    let read = usage.at("cache_read_input_tokens"@).signed();
    let output = usage.at("output_tokens"@).signed();
    if fresh is Some || created is Some || read is Some || output is Some {
        let a = if fresh is Some || created is Some || read is Some {
            "input_tokens"@
        } else {
            "output_tokens"@
        };
        assert(!none.contains_key(a));
    }
}

/// A line is read by what follows `data: `: JSON there is an event, and any other line does
/// nothing.
pub proof fn lines_are_read_by_their_data(core: CoreV, text: Seq<char>, line: Seq<char>)
    ensures
        json_of_text(text) matches Some(json) ==> line_step(core, "data: "@ + text) == event_step(
            core,
            json,
        ),
        json_of_text(text) is None ==> line_step(core, "data: "@ + text) == (StepV {
            core,
            out: Seq::empty(),
            end: false,
        }),
        !"data: "@.is_prefix_of(line) ==> line_step(core, line) == (StepV {
            core,
            out: Seq::empty(),
            end: false,
        }),
{
    reveal_strlit("data: ");
    reveal_strlit("event: ");
    let l = "data: "@ + text;
    assert(l.take(6) =~= "data: "@);
    assert("data: "@.is_prefix_of(l));
    assert(l.skip(6) =~= text);
    if "event: "@.is_prefix_of(l) {
        assert(l[0] == "event: "@[0]);
    }
}

/// The reader gets every fragment, in order and once, and the end only after them.
pub proof fn readers_get_every_fragment(r: Poll, before: StreamV, after: StreamV)
    requires
        is_polled(r, before, after),
    ensures
        before.pending.len() > 0 ==> r is Ready && seq![r->Ready_0@] + after.pending
            == before.pending,
        before.pending.len() == 0 && before.done ==> r is Finished,
        before.pending.len() == 0 && !before.done ==> r is Wait,
        !(r is Ready) ==> after.pending == before.pending,
        after.done == before.done && after.core == before.core && after.buf == before.buf,
{
    if before.pending.len() > 0 {
        assert(seq![r->Ready_0@] + after.pending =~= before.pending);
    }
}

/// A line adds its fragments behind those that wait, and an end stays the end; a failure adds
/// one fragment that says so and ends the stream; and the end of the connection ends it too,
/// with what the last line gives where that line had no line feed.
pub proof fn streams_grow_and_end(st: StreamV, line: Seq<char>)
    ensures
        st.line(line).pending == st.pending + line_step(st.core, line).out,
        st.line(line).done <==> st.done || line_step(st.core, line).end,
        st.line(line).buf == st.buf,
        st.failed().done && st.failed().pending.len() == st.pending.len() + 1,
        st.failed().pending.last().finish_reason == Some("error"@),
        st.failed().pending.drop_last() == st.pending,
        st.ended().done && st.ended().buf.len() == 0,
        st.buf.len() == 0 ==> st.ended().pending == st.pending && st.ended().core == st.core,
        st.buf.len() > 0 ==> st.ended().pending == st.pending + line_step(
            st.core,
            lossy_text(st.buf),
        ).out,
{
    assert(st.failed().pending.drop_last() =~= st.pending);
    assert(st.buf.len() == 0 ==> st.buf =~= Seq::empty());
}

/// A line that arrives whole is read at once, and one without its line feed is kept.
pub proof fn lines_are_read_as_they_arrive(st: StreamV, line: Seq<u8>)
    requires
        st.buf.len() == 0,
        forall|i: int| 0 <= i < line.len() ==> #[trigger] line[i] != 10 && line[i] != 13,
    ensures
        st.chunk(line.push(10)) == st.line(lossy_text(line)),
        st.chunk(line) == (StreamV { buf: line, ..st }),
{
    assert(st.buf + line.push(10) =~= line.push(10) + Seq::<u8>::empty());
    assert(st.buf + line =~= line);
    assert(st.buf =~= Seq::<u8>::empty());
    lines_end_at_their_line_feed(line, Seq::empty());
    assert(line_feed(Seq::<u8>::empty(), 0) is None);
    let lines = cut_lines(line.push(10) + Seq::<u8>::empty()).lines;
    assert(lines =~= seq![lossy_text(line)]);
    assert(lines.drop_last() =~= Seq::empty());
    assert(st.lines(Seq::empty()) == st);
    assert((StreamV { buf: Seq::<u8>::empty(), ..st }) == st);
    assert(st.lines(lines) == st.lines(lines.drop_last()).line(lines.last()));
    let kept = StreamV { buf: line, ..st };
    assert(cut_lines(line).lines =~= Seq::empty());
    assert(kept.lines(Seq::empty()) == kept);
}

} // verus!
