//! The events that a turn streams to its client.

use crate::json::{are_plain, decimal_json, entries_are_members, is_one_line, json_of_text, members_map, members_of, object_text, opt_string, print_in_order, Json, JsonV, MembersV};
use crate::text::{join3, owned};
use vstd::prelude::*;

verus! {

/// What an event tells of.
#[derive(Debug, Clone, Copy, PartialEq, Eq, Structural)]
pub enum SSEEventType {
    LlmDelta,
    ReasoningDelta,
    LlmStop,
    ToolStart,
    ToolFinish,
    HitlPause,
    HitlResolved,
    Error,
    ModelFailover,
    SubagentStatus,
    SessionStatus,
    SessionTitle,
    Compaction,
    ProviderError,
    LlmTiming,
}

impl SSEEventType {
    /// The name of a kind of event.
    pub open spec fn name(self) -> Seq<char> {
        match self {
            SSEEventType::LlmDelta => "llm_delta"@,
            SSEEventType::ReasoningDelta => "reasoning_delta"@,
            SSEEventType::LlmStop => "llm_stop"@,
            SSEEventType::ToolStart => "tool_start"@,
            SSEEventType::ToolFinish => "tool_finish"@,
            SSEEventType::HitlPause => "hitl_pause"@,
            SSEEventType::HitlResolved => "hitl_resolved"@,
            SSEEventType::Error => "error"@,
            SSEEventType::ModelFailover => "model_failover"@,
            SSEEventType::SubagentStatus => "subagent_status"@,
            SSEEventType::SessionStatus => "session_status"@,
            SSEEventType::SessionTitle => "session_title"@,
            SSEEventType::Compaction => "compaction"@,
            SSEEventType::ProviderError => "provider_error"@,
            SSEEventType::LlmTiming => "llm_timing"@,
        }
    }

    /// The name of a kind of event.
    pub fn as_str(self) -> (r: &'static str)
        ensures
            r@ == self.name(),
    {
        match self {
            SSEEventType::LlmDelta => "llm_delta",
            SSEEventType::ReasoningDelta => "reasoning_delta",
            SSEEventType::LlmStop => "llm_stop",
            SSEEventType::ToolStart => "tool_start",
            SSEEventType::ToolFinish => "tool_finish",
            SSEEventType::HitlPause => "hitl_pause",
            SSEEventType::HitlResolved => "hitl_resolved",
            SSEEventType::Error => "error",
            SSEEventType::ModelFailover => "model_failover",
            SSEEventType::SubagentStatus => "subagent_status",
            SSEEventType::SessionStatus => "session_status",
            SSEEventType::SessionTitle => "session_title",
            SSEEventType::Compaction => "compaction",
            SSEEventType::ProviderError => "provider_error",
            SSEEventType::LlmTiming => "llm_timing",
        }
    }
}

/// An event. A number with a fraction stands in decimal.
#[derive(Debug, PartialEq)]
pub struct SSEEvent {
    pub event_type: SSEEventType,
    pub content: Option<String>,
    pub tool_name: Option<String>,
    pub tool_args: Option<Json>,
    pub tool_result: Option<String>,
    pub duration_ms: Option<i64>,
    pub session_id: Option<String>,
    pub usage: Option<Json>,
    pub action_id: Option<String>,
    pub is_last: bool,
    pub error_code: Option<String>,
    pub error_message: Option<String>,
    pub recoverable: bool,
    pub error_type: Option<String>,
    pub ttfb_ms: Option<String>,
    pub ttft_ms: Option<String>,
    pub generation_ms: Option<String>,
    pub tokens_per_second: Option<String>,
    pub provider_id: Option<String>,
    pub model: Option<String>,
    pub total_tokens: Option<i64>,
}

/// The event says nothing but its kind, which may be any.
pub open spec fn is_plain(e: SSEEvent) -> bool {
    &&& e.tool_name is None
    &&& e.tool_args is None
    &&& e.tool_result is None
    &&& e.duration_ms is None
    &&& e.session_id is None
    &&& e.action_id is None
    &&& e.error_code is None
    &&& e.error_message is None
    &&& e.recoverable
    &&& e.error_type is None
    &&& e.ttfb_ms is None
    &&& e.ttft_ms is None
    &&& e.generation_ms is None
    &&& e.tokens_per_second is None
    &&& e.provider_id is None
    &&& e.model is None
    &&& e.total_tokens is None
}

impl Default for SSEEvent {
    fn default() -> (r: SSEEvent)
        ensures
            is_plain(r),
            r.event_type == SSEEventType::LlmDelta,
            r.content is None,
            r.usage is None,
            !r.is_last,
    {
        SSEEvent {
            event_type: SSEEventType::LlmDelta,
            content: None,
            tool_name: None,
            tool_args: None,
            tool_result: None,
            duration_ms: None,
            session_id: None,
            usage: None,
            action_id: None,
            is_last: false,
            error_code: None,
            error_message: None,
            recoverable: true,
            error_type: None,
            ttfb_ms: None,
            ttft_ms: None,
            generation_ms: None,
            tokens_per_second: None,
            provider_id: None,
            model: None,
            total_tokens: None,
        }
    }
}

/// A piece of the answer or of the reasoning: an event of its kind with its text, and nothing
/// else.
pub open spec fn is_piece(e: SSEEvent, kind: SSEEventType, text: Seq<char>) -> bool {
    &&& is_plain(e)
    &&& e.event_type == kind
    &&& opt_string(e.content) == Some(text)
    &&& e.usage is None
    &&& !e.is_last
}

/// The end of an answer: why it ended and what it used, and that nothing follows.
pub open spec fn is_end(e: SSEEvent, reason: Seq<char>, usage: Option<Json>) -> bool {
    &&& is_plain(e)
    &&& e.event_type == SSEEventType::LlmStop
    &&& opt_string(e.content) == Some(reason)
    &&& e.usage == usage
    &&& e.is_last
}

impl SSEEvent {
    /// A piece of the answer.
    pub fn content(content: &str) -> (r: SSEEvent)
        ensures
            is_piece(r, SSEEventType::LlmDelta, content@),
    {
        let mut e = SSEEvent::default();
        e.content = Some(owned(content));
        e
    }

    /// A piece of the reasoning.
    pub fn reasoning(content: &str) -> (r: SSEEvent)
        ensures
            is_piece(r, SSEEventType::ReasoningDelta, content@),
    {
        let mut e = SSEEvent::default();
        e.event_type = SSEEventType::ReasoningDelta;
        e.content = Some(owned(content));
        e
    }

    /// The end of the answer.
    pub fn stop(finish_reason: &str, usage: Option<Json>) -> (r: SSEEvent)
        ensures
            is_end(r, finish_reason@, usage),
    {
        let mut e = SSEEvent::default();
        e.event_type = SSEEventType::LlmStop;
        e.content = Some(owned(finish_reason));
        e.usage = usage;
        e.is_last = true;
        e
    }
}

/// The members with a text added, where there is one.
pub open spec fn put_text_v(m: MembersV, key: Seq<char>, t: Option<Seq<char>>) -> MembersV {
    match t {
        Some(s) => m.push((key, JsonV::Str(s))),
        None => m,
    }
}

/// The members with a value added, where there is one.
pub open spec fn put_json_v(m: MembersV, key: Seq<char>, v: Option<Json>) -> MembersV {
    match v {
        Some(x) => m.push((key, x@)),
        None => m,
    }
}

/// The members with a number added, where there is one.
pub open spec fn put_long_v(m: MembersV, key: Seq<char>, n: Option<i64>) -> MembersV {
    match n {
        Some(k) => m.push((key, JsonV::Int(k as int))),
        None => m,
    }
}

/// The members with a number in decimal added, where there is one.
pub open spec fn put_number_v(m: MembersV, key: Seq<char>, t: Option<Seq<char>>) -> MembersV {
    match t {
        Some(s) => m.push((key, decimal_json(s))),
        None => m,
    }
}

fn put(m: &mut Vec<(String, Json)>, key: &str, v: Json)
    ensures
        members_of(final(m)@) == members_of(old(m)@).push((key@, v@)),
{
    let ghost before = m@;
    let ghost said = v@;
    m.push((owned(key), v));
    proof {
        assert(members_of(m@) =~= members_of(before).push((key@, said)));
    }
}

fn put_text(m: &mut Vec<(String, Json)>, key: &str, t: &Option<String>)
    ensures
        members_of(final(m)@) == put_text_v(members_of(old(m)@), key@, opt_string(*t)),
{
    match t {
        Some(s) => put(m, key, Json::string(s.as_str())),
        None => {},
    }
}

fn put_json(m: &mut Vec<(String, Json)>, key: &str, v: &Option<Json>)
    ensures
        members_of(final(m)@) == put_json_v(members_of(old(m)@), key@, *v),
{
    match v {
        Some(x) => put(m, key, x.copy()),
        None => {},
    }
}

fn put_long(m: &mut Vec<(String, Json)>, key: &str, n: Option<i64>)
    ensures
        members_of(final(m)@) == put_long_v(members_of(old(m)@), key@, n),
{
    match n {
        Some(k) => put(m, key, Json::Int(k)),
        None => {},
    }
}

fn put_number(m: &mut Vec<(String, Json)>, key: &str, t: &Option<String>)
    ensures
        members_of(final(m)@) == put_number_v(members_of(old(m)@), key@, opt_string(*t)),
{
    match t {
        Some(s) => {
            let v = match Json::parse(s.as_str()) {
                Ok(v) => v,
                Err(_) => Json::Null,
            };
            put(m, key, v);
        },
        None => {},
    }
}

/// The members of an event, in the order in which they are sent: what is not set is left
/// out, and so are the two flags where they have their usual value.
pub open spec fn event_members(e: SSEEvent) -> MembersV {
    let a = seq![("type"@, JsonV::Str(e.event_type.name()))];
    let b = put_text_v(a, "content"@, opt_string(e.content));
    let c = put_text_v(b, "tool_name"@, opt_string(e.tool_name));
    let d = put_json_v(c, "tool_args"@, e.tool_args);
    let f = put_text_v(d, "tool_result"@, opt_string(e.tool_result));
    let g = put_long_v(f, "duration_ms"@, e.duration_ms);
    let h = put_text_v(g, "session_id"@, opt_string(e.session_id));
    let i = put_json_v(h, "usage"@, e.usage);
    let k = put_text_v(i, "action_id"@, opt_string(e.action_id));
    let l = if e.is_last {
        k.push(("is_last"@, JsonV::Bool(true)))
    } else {
        k
    };
    let m = put_text_v(l, "error_code"@, opt_string(e.error_code));
    let n = put_text_v(m, "error_message"@, opt_string(e.error_message));
    let o = if e.recoverable {
        n
    } else {
        n.push(("recoverable"@, JsonV::Bool(false)))
    };
    let p = put_text_v(o, "error_type"@, opt_string(e.error_type));
    let q = put_number_v(p, "ttfb_ms"@, opt_string(e.ttfb_ms));
    let r = put_number_v(q, "ttft_ms"@, opt_string(e.ttft_ms));
    let s = put_number_v(r, "generation_ms"@, opt_string(e.generation_ms));
    let t = put_number_v(s, "tokens_per_second"@, opt_string(e.tokens_per_second));
    let u = put_text_v(t, "provider_id"@, opt_string(e.provider_id));
    let v = put_text_v(u, "model"@, opt_string(e.model));
    put_long_v(v, "total_tokens"@, e.total_tokens)
}

/// The event as an object.
pub open spec fn event_v(e: SSEEvent) -> JsonV {
    JsonV::Obj(members_map(event_members(e)))
}

fn event_entries(e: &SSEEvent) -> (r: Vec<(String, Json)>)
    ensures
        members_of(r@) == event_members(*e),
{
    let mut m: Vec<(String, Json)> = Vec::new();
    put(&mut m, "type", Json::string(e.event_type.as_str()));
    proof {
        assert(members_of(m@) =~= seq![("type"@, JsonV::Str(e.event_type.name()))]);
    }
    put_text(&mut m, "content", &e.content);
    put_text(&mut m, "tool_name", &e.tool_name);
    put_json(&mut m, "tool_args", &e.tool_args);
    put_text(&mut m, "tool_result", &e.tool_result);
    put_long(&mut m, "duration_ms", e.duration_ms);
    put_text(&mut m, "session_id", &e.session_id);
    put_json(&mut m, "usage", &e.usage);
    put_text(&mut m, "action_id", &e.action_id);
    if e.is_last {
        put(&mut m, "is_last", Json::Bool(true));
    }
    put_text(&mut m, "error_code", &e.error_code);
    put_text(&mut m, "error_message", &e.error_message);
    if !e.recoverable {
        put(&mut m, "recoverable", Json::Bool(false));
    }
    put_text(&mut m, "error_type", &e.error_type);
    put_number(&mut m, "ttfb_ms", &e.ttfb_ms);
    put_number(&mut m, "ttft_ms", &e.ttft_ms);
    put_number(&mut m, "generation_ms", &e.generation_ms);
    put_number(&mut m, "tokens_per_second", &e.tokens_per_second);
    put_text(&mut m, "provider_id", &e.provider_id);
    put_text(&mut m, "model", &e.model);
    put_long(&mut m, "total_tokens", e.total_tokens);
    m
}

/// The event as an object.
pub fn event_json(e: &SSEEvent) -> (r: Json)
    ensures
        r@ == event_v(*e),
{
    let m = event_entries(e);
    proof {
        entries_are_members(m, m@.len());
        assert(m@.take(m@.len() as int) =~= m@);
    }
    Json::Obj(m)
}

/// The event as it is sent: one data line, with the members in the order of the event's
/// fields, and an empty one. Nothing in the event can end the line early, and the data says
/// the event again.
pub fn serialize_sse(event: &SSEEvent) -> (r: String)
    ensures
        r@ == "data: "@ + object_text(event_members(*event)) + "\n\n"@,
        is_one_line(object_text(event_members(*event))),
        are_plain(event_members(*event)) ==> json_of_text(object_text(event_members(*event)))
            == Some(event_v(*event)),
{
    let payload = print_in_order(&event_entries(event));
    join3("data: ", payload.as_str(), "\n\n")
}

/// Each kind of event is sent under its own name.
pub proof fn kinds_have_their_names()
    ensures
        SSEEventType::LlmDelta.name() == "llm_delta"@,
        SSEEventType::ReasoningDelta.name() == "reasoning_delta"@,
        SSEEventType::LlmStop.name() == "llm_stop"@,
        SSEEventType::ToolStart.name() == "tool_start"@,
        SSEEventType::ToolFinish.name() == "tool_finish"@,
        SSEEventType::HitlPause.name() == "hitl_pause"@,
        SSEEventType::HitlResolved.name() == "hitl_resolved"@,
        SSEEventType::Error.name() == "error"@,
        SSEEventType::ModelFailover.name() == "model_failover"@,
        SSEEventType::SubagentStatus.name() == "subagent_status"@,
        SSEEventType::SessionStatus.name() == "session_status"@,
        SSEEventType::SessionTitle.name() == "session_title"@,
        SSEEventType::Compaction.name() == "compaction"@,
        SSEEventType::ProviderError.name() == "provider_error"@,
        SSEEventType::LlmTiming.name() == "llm_timing"@,
{
}

/// A member that is among the first members of an event.
pub open spec fn is_sent(m: MembersV, key: Seq<char>, v: JsonV) -> bool {
    m.contains((key, v))
}

proof fn stays_sent(a: MembersV, b: MembersV, key: Seq<char>, v: JsonV)
    requires
        a.is_prefix_of(b),
        a.len() > 0,
        a.last() == (key, v),
    ensures
        is_sent(b, key, v),
{
    assert(b.take(a.len() as int)[a.len() - 1] == b[a.len() - 1]);
}

proof fn texts_grow(m: MembersV, key: Seq<char>, t: Option<Seq<char>>, end: MembersV)
    requires
        put_text_v(m, key, t).is_prefix_of(end),
    ensures
        m.is_prefix_of(end),
        put_text_v(m, key, t).len() == m.len() + one_if(t is Some),
        t matches Some(s) ==> is_sent(end, key, JsonV::Str(s)),
{
    let now = put_text_v(m, key, t);
    if t is Some {
        stays_sent(now, end, key, JsonV::Str(t->0));
        assert(now.take(m.len() as int) =~= m);
        assert(end.take(now.len() as int).take(m.len() as int) =~= end.take(m.len() as int));
    }
}

proof fn values_grow(m: MembersV, key: Seq<char>, v: Option<Json>, end: MembersV)
    requires
        put_json_v(m, key, v).is_prefix_of(end),
    ensures
        m.is_prefix_of(end),
        put_json_v(m, key, v).len() == m.len() + one_if(v is Some),
        v matches Some(x) ==> is_sent(end, key, x@),
{
    let now = put_json_v(m, key, v);
    if v is Some {
        stays_sent(now, end, key, v->0@);
        assert(now.take(m.len() as int) =~= m);
        assert(end.take(now.len() as int).take(m.len() as int) =~= end.take(m.len() as int));
    }
}

proof fn longs_grow(m: MembersV, key: Seq<char>, n: Option<i64>, end: MembersV)
    requires
        put_long_v(m, key, n).is_prefix_of(end),
    ensures
        m.is_prefix_of(end),
        put_long_v(m, key, n).len() == m.len() + one_if(n is Some),
        n matches Some(k) ==> is_sent(end, key, JsonV::Int(k as int)),
{
    let now = put_long_v(m, key, n);
    if n is Some {
        stays_sent(now, end, key, JsonV::Int(n->0 as int));
        assert(now.take(m.len() as int) =~= m);
        assert(end.take(now.len() as int).take(m.len() as int) =~= end.take(m.len() as int));
    }
}

proof fn numbers_grow(m: MembersV, key: Seq<char>, t: Option<Seq<char>>, end: MembersV)
    requires
        put_number_v(m, key, t).is_prefix_of(end),
    ensures
        m.is_prefix_of(end),
        put_number_v(m, key, t).len() == m.len() + one_if(t is Some),
        t matches Some(s) ==> is_sent(end, key, decimal_json(s)),
{
    let now = put_number_v(m, key, t);
    if t is Some {
        stays_sent(now, end, key, decimal_json(t->0));
        assert(now.take(m.len() as int) =~= m);
        assert(end.take(now.len() as int).take(m.len() as int) =~= end.take(m.len() as int));
    }
}

/// One where something is set, none where it is not.
pub open spec fn one_if(b: bool) -> int {
    if b {
        1
    } else {
        0
    }
}

/// How many of the optional members an event has.
pub open spec fn set_members(e: SSEEvent) -> int {
    one_if(e.content is Some) + one_if(e.tool_name is Some) + one_if(e.tool_args is Some) + one_if(
        e.tool_result is Some,
    ) + one_if(e.duration_ms is Some) + one_if(e.session_id is Some) + one_if(e.usage is Some)
        + one_if(e.action_id is Some) + one_if(e.is_last) + one_if(e.error_code is Some) + one_if(
        e.error_message is Some,
    ) + one_if(!e.recoverable) + one_if(e.error_type is Some) + one_if(e.ttfb_ms is Some) + one_if(
        e.ttft_ms is Some,
    ) + one_if(e.generation_ms is Some) + one_if(e.tokens_per_second is Some) + one_if(
        e.provider_id is Some,
    ) + one_if(e.model is Some) + one_if(e.total_tokens is Some)
}

#[verifier::opaque]
spec fn first_members(e: SSEEvent) -> MembersV {
    let a = seq![("type"@, JsonV::Str(e.event_type.name()))];
    let b = put_text_v(a, "content"@, opt_string(e.content));
    let c = put_text_v(b, "tool_name"@, opt_string(e.tool_name));
    let d = put_json_v(c, "tool_args"@, e.tool_args);
    let f = put_text_v(d, "tool_result"@, opt_string(e.tool_result));
    let g = put_long_v(f, "duration_ms"@, e.duration_ms);
    let h = put_text_v(g, "session_id"@, opt_string(e.session_id));
    let i = put_json_v(h, "usage"@, e.usage);
    put_text_v(i, "action_id"@, opt_string(e.action_id))
}

#[verifier::opaque]
spec fn middle_members(e: SSEEvent, k: MembersV) -> MembersV {
    let l = if e.is_last {
        k.push(("is_last"@, JsonV::Bool(true)))
    } else {
        k
    };
    let m = put_text_v(l, "error_code"@, opt_string(e.error_code));
    let n = put_text_v(m, "error_message"@, opt_string(e.error_message));
    let o = if e.recoverable {
        n
    } else {
        n.push(("recoverable"@, JsonV::Bool(false)))
    };
    put_text_v(o, "error_type"@, opt_string(e.error_type))
}

#[verifier::opaque]
spec fn last_members(e: SSEEvent, p: MembersV) -> MembersV {
    let q = put_number_v(p, "ttfb_ms"@, opt_string(e.ttfb_ms));
    let r = put_number_v(q, "ttft_ms"@, opt_string(e.ttft_ms));
    let s = put_number_v(r, "generation_ms"@, opt_string(e.generation_ms));
    let t = put_number_v(s, "tokens_per_second"@, opt_string(e.tokens_per_second));
    let u = put_text_v(t, "provider_id"@, opt_string(e.provider_id));
    let v = put_text_v(u, "model"@, opt_string(e.model));
    put_long_v(v, "total_tokens"@, e.total_tokens)
}

proof fn last_are_sent(e: SSEEvent, p: MembersV, all: MembersV)
    requires
        last_members(e, p).is_prefix_of(all),
    ensures
        p.is_prefix_of(all),
        last_members(e, p).len() == p.len() + one_if(e.ttfb_ms is Some) + one_if(
            e.ttft_ms is Some,
        ) + one_if(e.generation_ms is Some) + one_if(e.tokens_per_second is Some) + one_if(
            e.provider_id is Some,
        ) + one_if(e.model is Some) + one_if(e.total_tokens is Some),
        e.ttfb_ms matches Some(t) ==> is_sent(all, "ttfb_ms"@, decimal_json(t@)),
        e.ttft_ms matches Some(t) ==> is_sent(all, "ttft_ms"@, decimal_json(t@)),
        e.generation_ms matches Some(t) ==> is_sent(all, "generation_ms"@, decimal_json(t@)),
        e.tokens_per_second matches Some(t) ==> is_sent(
            all,
            "tokens_per_second"@,
            decimal_json(t@),
        ),
        e.provider_id matches Some(t) ==> is_sent(all, "provider_id"@, JsonV::Str(t@)),
        e.model matches Some(t) ==> is_sent(all, "model"@, JsonV::Str(t@)),
        e.total_tokens matches Some(n) ==> is_sent(all, "total_tokens"@, JsonV::Int(n as int)),
{
    reveal(last_members);
    let q = put_number_v(p, "ttfb_ms"@, opt_string(e.ttfb_ms));
    let r = put_number_v(q, "ttft_ms"@, opt_string(e.ttft_ms));
    let s = put_number_v(r, "generation_ms"@, opt_string(e.generation_ms));
    let t = put_number_v(s, "tokens_per_second"@, opt_string(e.tokens_per_second));
    let u = put_text_v(t, "provider_id"@, opt_string(e.provider_id));
    let v = put_text_v(u, "model"@, opt_string(e.model));
    longs_grow(v, "total_tokens"@, e.total_tokens, all);
    texts_grow(u, "model"@, opt_string(e.model), all);
    texts_grow(t, "provider_id"@, opt_string(e.provider_id), all);
    numbers_grow(s, "tokens_per_second"@, opt_string(e.tokens_per_second), all);
    numbers_grow(r, "generation_ms"@, opt_string(e.generation_ms), all);
    numbers_grow(q, "ttft_ms"@, opt_string(e.ttft_ms), all);
    numbers_grow(p, "ttfb_ms"@, opt_string(e.ttfb_ms), all);
}

proof fn flags_grow(m: MembersV, key: Seq<char>, b: bool, end: MembersV)
    requires
        m.push((key, JsonV::Bool(b))).is_prefix_of(end),
    ensures
        m.is_prefix_of(end),
        is_sent(end, key, JsonV::Bool(b)),
{
    let now = m.push((key, JsonV::Bool(b)));
    stays_sent(now, end, key, JsonV::Bool(b));
    assert(now.take(m.len() as int) =~= m);
    assert(end.take(now.len() as int).take(m.len() as int) =~= end.take(m.len() as int));
}

proof fn middle_are_sent(e: SSEEvent, k: MembersV, all: MembersV)
    requires
        middle_members(e, k).is_prefix_of(all),
    ensures
        k.is_prefix_of(all),
        middle_members(e, k).len() == k.len() + one_if(e.is_last) + one_if(e.error_code is Some)
            + one_if(e.error_message is Some) + one_if(!e.recoverable) + one_if(
            e.error_type is Some,
        ),
        e.is_last ==> is_sent(all, "is_last"@, JsonV::Bool(true)),
        e.error_code matches Some(t) ==> is_sent(all, "error_code"@, JsonV::Str(t@)),
        e.error_message matches Some(t) ==> is_sent(all, "error_message"@, JsonV::Str(t@)),
        !e.recoverable ==> is_sent(all, "recoverable"@, JsonV::Bool(false)),
        e.error_type matches Some(t) ==> is_sent(all, "error_type"@, JsonV::Str(t@)),
{
    reveal(middle_members);
    let l = if e.is_last {
        k.push(("is_last"@, JsonV::Bool(true)))
    } else {
        k
    };
    let m = put_text_v(l, "error_code"@, opt_string(e.error_code));
    let n = put_text_v(m, "error_message"@, opt_string(e.error_message));
    let o = if e.recoverable {
        n
    } else {
        n.push(("recoverable"@, JsonV::Bool(false)))
    };
    texts_grow(o, "error_type"@, opt_string(e.error_type), all);
    if !e.recoverable {
        flags_grow(n, "recoverable"@, false, all);
    }
    texts_grow(m, "error_message"@, opt_string(e.error_message), all);
    texts_grow(l, "error_code"@, opt_string(e.error_code), all);
    if e.is_last {
        flags_grow(k, "is_last"@, true, all);
    }
}

proof fn first_are_sent(e: SSEEvent, all: MembersV)
    requires
        first_members(e).is_prefix_of(all),
    ensures
        first_members(e).len() == 1 + one_if(e.content is Some) + one_if(e.tool_name is Some)
            + one_if(e.tool_args is Some) + one_if(e.tool_result is Some) + one_if(
            e.duration_ms is Some,
        ) + one_if(e.session_id is Some) + one_if(e.usage is Some) + one_if(e.action_id is Some),
        all.len() > 0,
        all[0] == ("type"@, JsonV::Str(e.event_type.name())),
        e.content matches Some(t) ==> is_sent(all, "content"@, JsonV::Str(t@)),
        e.tool_name matches Some(t) ==> is_sent(all, "tool_name"@, JsonV::Str(t@)),
        e.tool_args matches Some(v) ==> is_sent(all, "tool_args"@, v@),
        e.tool_result matches Some(t) ==> is_sent(all, "tool_result"@, JsonV::Str(t@)),
        e.duration_ms matches Some(n) ==> is_sent(all, "duration_ms"@, JsonV::Int(n as int)),
        e.session_id matches Some(t) ==> is_sent(all, "session_id"@, JsonV::Str(t@)),
        e.usage matches Some(v) ==> is_sent(all, "usage"@, v@),
        e.action_id matches Some(t) ==> is_sent(all, "action_id"@, JsonV::Str(t@)),
{
    reveal(first_members);
    let a = seq![("type"@, JsonV::Str(e.event_type.name()))];
    let b = put_text_v(a, "content"@, opt_string(e.content));
    let c = put_text_v(b, "tool_name"@, opt_string(e.tool_name));
    let d = put_json_v(c, "tool_args"@, e.tool_args);
    let f = put_text_v(d, "tool_result"@, opt_string(e.tool_result));
    let g = put_long_v(f, "duration_ms"@, e.duration_ms);
    let h = put_text_v(g, "session_id"@, opt_string(e.session_id));
    let i = put_json_v(h, "usage"@, e.usage);
    texts_grow(i, "action_id"@, opt_string(e.action_id), all);
    values_grow(h, "usage"@, e.usage, all);
    texts_grow(g, "session_id"@, opt_string(e.session_id), all);
    longs_grow(f, "duration_ms"@, e.duration_ms, all);
    texts_grow(d, "tool_result"@, opt_string(e.tool_result), all);
    values_grow(c, "tool_args"@, e.tool_args, all);
    texts_grow(b, "tool_name"@, opt_string(e.tool_name), all);
    texts_grow(a, "content"@, opt_string(e.content), all);
    assert(all.take(1)[0] == a[0]);
}

spec fn is_sent_whole(e: SSEEvent, m: MembersV) -> bool {
    &&& m.len() == 1 + set_members(e)
    &&& m[0] == ("type"@, JsonV::Str(e.event_type.name()))
    &&& e.content matches Some(t) ==> is_sent(m, "content"@, JsonV::Str(t@))
    &&& e.tool_name matches Some(t) ==> is_sent(m, "tool_name"@, JsonV::Str(t@))
    &&& e.tool_args matches Some(v) ==> is_sent(m, "tool_args"@, v@)
    &&& e.tool_result matches Some(t) ==> is_sent(m, "tool_result"@, JsonV::Str(t@))
    &&& e.duration_ms matches Some(n) ==> is_sent(m, "duration_ms"@, JsonV::Int(n as int))
    &&& e.session_id matches Some(t) ==> is_sent(m, "session_id"@, JsonV::Str(t@))
    &&& e.usage matches Some(v) ==> is_sent(m, "usage"@, v@)
    &&& e.action_id matches Some(t) ==> is_sent(m, "action_id"@, JsonV::Str(t@))
    &&& e.is_last ==> is_sent(m, "is_last"@, JsonV::Bool(true))
    &&& e.error_code matches Some(t) ==> is_sent(m, "error_code"@, JsonV::Str(t@))
    &&& e.error_message matches Some(t) ==> is_sent(m, "error_message"@, JsonV::Str(t@))
    &&& !e.recoverable ==> is_sent(m, "recoverable"@, JsonV::Bool(false))
    &&& e.error_type matches Some(t) ==> is_sent(m, "error_type"@, JsonV::Str(t@))
    &&& e.ttfb_ms matches Some(t) ==> is_sent(m, "ttfb_ms"@, decimal_json(t@))
    &&& e.ttft_ms matches Some(t) ==> is_sent(m, "ttft_ms"@, decimal_json(t@))
    &&& e.generation_ms matches Some(t) ==> is_sent(m, "generation_ms"@, decimal_json(t@))
    &&& e.tokens_per_second matches Some(t) ==> is_sent(
        m,
        "tokens_per_second"@,
        decimal_json(t@),
    )
    &&& e.provider_id matches Some(t) ==> is_sent(m, "provider_id"@, JsonV::Str(t@))
    &&& e.model matches Some(t) ==> is_sent(m, "model"@, JsonV::Str(t@))
    &&& e.total_tokens matches Some(n) ==> is_sent(m, "total_tokens"@, JsonV::Int(n as int))
}

proof fn parts_are_sent_whole(e: SSEEvent, all: MembersV)
    requires
        all == last_members(e, middle_members(e, first_members(e))),
    ensures
        is_sent_whole(e, all),
{
    let k = first_members(e);
    let p = middle_members(e, k);
    assert(all.take(all.len() as int) =~= all);
    last_are_sent(e, p, all);
    middle_are_sent(e, k, all);
    first_are_sent(e, all);
}

proof fn members_have_three_parts(e: SSEEvent)
    ensures
        event_members(e) == last_members(e, middle_members(e, first_members(e))),
{
    reveal(first_members);
    reveal(middle_members);
    reveal(last_members);
}

/// An event is sent with its kind first and then with all that is set, each under its own name,
/// and with nothing else.
pub proof fn events_are_sent_whole(e: SSEEvent)
    ensures
        ({
            let m = event_members(e);
            &&& m.len() == 1 + set_members(e)
            &&& m[0] == ("type"@, JsonV::Str(e.event_type.name()))
            &&& e.content matches Some(t) ==> is_sent(m, "content"@, JsonV::Str(t@))
            &&& e.tool_name matches Some(t) ==> is_sent(m, "tool_name"@, JsonV::Str(t@))
            &&& e.tool_args matches Some(v) ==> is_sent(m, "tool_args"@, v@)
            &&& e.tool_result matches Some(t) ==> is_sent(m, "tool_result"@, JsonV::Str(t@))
            &&& e.duration_ms matches Some(n) ==> is_sent(m, "duration_ms"@, JsonV::Int(n as int))
            &&& e.session_id matches Some(t) ==> is_sent(m, "session_id"@, JsonV::Str(t@))
            &&& e.usage matches Some(v) ==> is_sent(m, "usage"@, v@)
            &&& e.action_id matches Some(t) ==> is_sent(m, "action_id"@, JsonV::Str(t@))
            &&& e.is_last ==> is_sent(m, "is_last"@, JsonV::Bool(true))
            &&& e.error_code matches Some(t) ==> is_sent(m, "error_code"@, JsonV::Str(t@))
            &&& e.error_message matches Some(t) ==> is_sent(m, "error_message"@, JsonV::Str(t@))
            &&& !e.recoverable ==> is_sent(m, "recoverable"@, JsonV::Bool(false))
            &&& e.error_type matches Some(t) ==> is_sent(m, "error_type"@, JsonV::Str(t@))
            &&& e.ttfb_ms matches Some(t) ==> is_sent(m, "ttfb_ms"@, decimal_json(t@))
            &&& e.ttft_ms matches Some(t) ==> is_sent(m, "ttft_ms"@, decimal_json(t@))
            &&& e.generation_ms matches Some(t) ==> is_sent(m, "generation_ms"@, decimal_json(t@))
            &&& e.tokens_per_second matches Some(t) ==> is_sent(
                m,
                "tokens_per_second"@,
                decimal_json(t@),
            )
            &&& e.provider_id matches Some(t) ==> is_sent(m, "provider_id"@, JsonV::Str(t@))
            &&& e.model matches Some(t) ==> is_sent(m, "model"@, JsonV::Str(t@))
            &&& e.total_tokens matches Some(n) ==> is_sent(m, "total_tokens"@, JsonV::Int(n as int))
        }),
{
    members_have_three_parts(e);
    parts_are_sent_whole(e, event_members(e));
}

/// A piece is sent as its kind and its text; an end as its kind, why, what was used where that is
/// known, and that it is the last.
pub proof fn pieces_and_ends_are_sent(
    a: SSEEvent,
    b: SSEEvent,
    c: SSEEvent,
    text: Seq<char>,
    usage: Option<Json>,
)
    requires
        is_piece(a, SSEEventType::LlmDelta, text),
        is_piece(b, SSEEventType::ReasoningDelta, text),
        is_end(c, text, usage),
    ensures
        event_members(a) == seq![
            ("type"@, JsonV::Str("llm_delta"@)),
            ("content"@, JsonV::Str(text)),
        ],
        event_members(b) == seq![
            ("type"@, JsonV::Str("reasoning_delta"@)),
            ("content"@, JsonV::Str(text)),
        ],
        usage is None ==> event_members(c) == seq![
            ("type"@, JsonV::Str("llm_stop"@)),
            ("content"@, JsonV::Str(text)),
            ("is_last"@, JsonV::Bool(true)),
        ],
        usage is Some ==> event_members(c) == seq![
            ("type"@, JsonV::Str("llm_stop"@)),
            ("content"@, JsonV::Str(text)),
            ("usage"@, usage->0@),
            ("is_last"@, JsonV::Bool(true)),
        ],
{
    assert(event_members(a) =~= seq![
        ("type"@, JsonV::Str("llm_delta"@)),
        ("content"@, JsonV::Str(text)),
    ]);
    assert(event_members(b) =~= seq![
        ("type"@, JsonV::Str("reasoning_delta"@)),
        ("content"@, JsonV::Str(text)),
    ]);
    if usage is None {
        assert(event_members(c) =~= seq![
            ("type"@, JsonV::Str("llm_stop"@)),
            ("content"@, JsonV::Str(text)),
            ("is_last"@, JsonV::Bool(true)),
        ]);
    } else {
        assert(event_members(c) =~= seq![
            ("type"@, JsonV::Str("llm_stop"@)),
            ("content"@, JsonV::Str(text)),
            ("usage"@, usage->0@),
            ("is_last"@, JsonV::Bool(true)),
        ]);
    }
}

} // verus!
