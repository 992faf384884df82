//! Requests to OpenAI-compatible services.

use crate::config::ProviderConfig;
use crate::json::{is_text, jsons, opt_text, owned_opt, put_decimal, put_decimal_v, reads_back, text_of_json, Json, JsonV};
use crate::provider::base::{Effort, EffortV, ModelInfo, ModelInfoV, SamplingParams, SamplingV};
use crate::text::{join, joined, owned, same, texts};
use vstd::prelude::*;

verus! {

/// OpenRouter's `reasoning` object for a level of effort.
pub open spec fn openrouter_reasoning_v(e: EffortV) -> JsonV {
    match e.hosted() {
        None => JsonV::empty().put("enabled"@, JsonV::Bool(false)),
        Some(level) => JsonV::empty().put("effort"@, JsonV::Str(level)),
    }
}

/// OpenRouter's `reasoning` object for a level of effort. It can switch reasoning off.
pub fn openrouter_reasoning(e: &Effort) -> (r: Json)
    ensures
        r@ == openrouter_reasoning_v(e@),
{
    match e.hosted_level() {
        None => Json::object().with("enabled", Json::Bool(false)),
        Some(level) => Json::object().with("effort", Json::string(level)),
    }
}

/// A system message.
pub open spec fn is_system(m: JsonV) -> bool {
    m.at("role"@) == JsonV::Str("system"@)
}

/// The texts of the system messages that have one, in order.
pub open spec fn system_texts(ms: Seq<JsonV>) -> Seq<Seq<char>>
    decreases ms.len(),
{
    if ms.len() == 0 {
        Seq::empty()
    } else {
        let before = system_texts(ms.drop_last());
        if is_system(ms.last()) && ms.last().text_at("content"@) is Some {
            before.push(ms.last().text_at("content"@)->0)
        } else {
            before
        }
    }
}

/// The messages that are not system messages, in order.
pub open spec fn others(ms: Seq<JsonV>) -> Seq<JsonV>
    decreases ms.len(),
{
    if ms.len() == 0 {
        Seq::empty()
    } else if is_system(ms.last()) {
        others(ms.drop_last())
    } else {
        others(ms.drop_last()).push(ms.last())
    }
}

/// One system message of several texts.
pub open spec fn system_block(parts: Seq<Seq<char>>) -> JsonV {
    JsonV::empty().put("role"@, JsonV::Str("system"@)).put(
        "content"@,
        JsonV::Str(joined(parts, "\n\n"@)),
    )
}

/// Messages with a system message of the given texts before them, where there are any.
pub open spec fn headed(parts: Seq<Seq<char>>, rest: Seq<JsonV>) -> Seq<JsonV> {
    if parts.len() > 0 {
        seq![system_block(parts)] + rest
    } else {
        rest
    }
}

/// How many system messages stand at the front.
pub open spec fn lead(ms: Seq<JsonV>) -> int
    decreases ms.len(),
{
    if ms.len() > 0 && is_system(ms[0]) {
        1 + lead(ms.skip(1))
    } else {
        0
    }
}

/// The system messages at the front as one, the rest as it is.
pub open spec fn merged(ms: Seq<JsonV>) -> Seq<JsonV> {
    headed(system_texts(ms.take(lead(ms))), ms.skip(lead(ms)))
}

/// All system messages as one at the front, the rest in its order.
pub open spec fn hoisted(ms: Seq<JsonV>) -> Seq<JsonV> {
    headed(system_texts(ms), others(ms))
}

fn block_of(parts: &Vec<String>) -> (r: Json)
    ensures
        r@ == system_block(texts(parts@)),
{
    let content = join(parts, "\n\n");
    Json::object().with("role", Json::string("system")).with("content", Json::Str(content))
}

proof fn lead_bounds(ms: Seq<JsonV>)
    ensures
        0 <= lead(ms) <= ms.len(),
        forall|i: int| 0 <= i < lead(ms) ==> is_system(#[trigger] ms[i]),
        lead(ms) < ms.len() ==> !is_system(ms[lead(ms)]),
    decreases ms.len(),
{
    if ms.len() > 0 && is_system(ms[0]) {
        let rest = ms.skip(1);
        lead_bounds(rest);
        assert forall|i: int| 0 <= i < lead(ms) implies is_system(#[trigger] ms[i]) by {
            if i > 0 {
                assert(rest[i - 1] == ms[i]);
            }
        }
    }
}

proof fn lead_is(ms: Seq<JsonV>, n: int)
    requires
        0 <= n <= ms.len(),
        forall|i: int| 0 <= i < n ==> is_system(#[trigger] ms[i]),
        n < ms.len() ==> !is_system(ms[n]),
    ensures
        lead(ms) == n,
{
    lead_bounds(ms);
    if lead(ms) < n {
        assert(is_system(ms[lead(ms)]));
    }
    if n < lead(ms) {
        assert(is_system(ms[n]));
    }
}

/// The system messages at the front as one, the rest as it is: what comes later keeps its
/// place.
pub fn merge_system_messages(messages: Vec<Json>) -> (r: Vec<Json>)
    ensures
        jsons(r@) == merged(jsons(messages@)),
{
    let ghost ms = jsons(messages@);
    let mut parts: Vec<String> = Vec::new();
    let mut n: usize = 0;
    proof {
        assert(texts(parts@) =~= system_texts(ms.take(0)));
    }
    while n < messages.len() && is_text(messages[n].get("role"), "system")
        invariant
            n <= messages@.len(),
            ms == jsons(messages@),
            forall|i: int| 0 <= i < n ==> is_system(#[trigger] ms[i]),
            texts(parts@) == system_texts(ms.take(n as int)),
        decreases messages@.len() - n,
    {
        let ghost before = parts@;
        proof {
            assert(ms[n as int] == messages@[n as int]@);
            assert(ms.take(n + 1).drop_last() =~= ms.take(n as int));
        }
        match messages[n].get_str("content") {
            Some(c) => {
                parts.push(owned(c));
                proof {
                    assert(texts(parts@) =~= texts(before).push(c@));
                }
            },
            None => {},
        }
        n += 1;
    }
    proof {
        if n < ms.len() {
            assert(ms[n as int] == messages@[n as int]@);
        }
        lead_is(ms, n as int);
    }
    let mut all = messages;
    let mut rest = all.split_off(n);
    proof {
        assert(jsons(rest@) =~= ms.skip(n as int));
    }
    let mut out: Vec<Json> = Vec::new();
    if parts.len() > 0 {
        out.push(block_of(&parts));
    }
    let ghost head = out@;
    out.append(&mut rest);
    proof {
        assert(jsons(out@) =~= merged(ms));
    }
    out
}

/// All system messages as one at the front, the rest in its order: for templates that
/// take a system message nowhere else.
pub fn hoist_all_system_messages(messages: Vec<Json>) -> (r: Vec<Json>)
    ensures
        jsons(r@) == hoisted(jsons(messages@)),
{
    let ghost ms = jsons(messages@);
    let mut parts: Vec<String> = Vec::new();
    let mut rest: Vec<Json> = Vec::new();
    let mut i: usize = 0;
    proof {
        assert(texts(parts@) =~= system_texts(ms.take(0)));
        assert(jsons(rest@) =~= others(ms.take(0)));
    }
    while i < messages.len()
        invariant
            i <= messages@.len(),
            ms == jsons(messages@),
            texts(parts@) == system_texts(ms.take(i as int)),
            jsons(rest@) == others(ms.take(i as int)),
        decreases messages@.len() - i,
    {
        let m = &messages[i];
        let ghost parts0 = parts@;
        let ghost rest0 = rest@;
        proof {
            assert(ms[i as int] == m@);
            assert(ms.take(i + 1).drop_last() =~= ms.take(i as int));
        }
        if is_text(m.get("role"), "system") {
            match m.get_str("content") {
                Some(c) => {
                    parts.push(owned(c));
                    proof {
                        assert(texts(parts@) =~= texts(parts0).push(c@));
                    }
                },
                None => {},
            }
        } else {
            rest.push(m.copy());
            proof {
                assert(jsons(rest@) =~= jsons(rest0).push(m@));
            }
        }
        i += 1;
    }
    proof {
        assert(ms.take(i as int) =~= ms);
    }
    let mut out: Vec<Json> = Vec::new();
    if parts.len() > 0 {
        out.push(block_of(&parts));
    }
    out.append(&mut rest);
    proof {
        assert(jsons(out@) =~= hoisted(ms));
    }
    out
}

proof fn others_have_no_system(ms: Seq<JsonV>)
    ensures
        forall|i: int| 0 <= i < others(ms).len() ==> !is_system(#[trigger] others(ms)[i]),
    decreases ms.len(),
{
    if ms.len() > 0 {
        others_have_no_system(ms.drop_last());
        let prev = others(ms.drop_last());
        assert forall|i: int| 0 <= i < others(ms).len() implies !is_system(
            #[trigger] others(ms)[i],
        ) by {
            if i < prev.len() {
                assert(others(ms)[i] == prev[i]);
            }
        }
    }
}

proof fn no_system_is_all_others(ms: Seq<JsonV>)
    requires
        forall|i: int| 0 <= i < ms.len() ==> !is_system(#[trigger] ms[i]),
    ensures
        others(ms) == ms,
        system_texts(ms) == Seq::<Seq<char>>::empty(),
    decreases ms.len(),
{
    if ms.len() > 0 {
        no_system_is_all_others(ms.drop_last());
        assert(!is_system(ms[ms.len() - 1]));
        assert(ms.drop_last().push(ms.last()) =~= ms);
    }
}

proof fn headed_splits(b: JsonV, rest: Seq<JsonV>)
    requires
        is_system(b),
        b.text_at("content"@) is Some,
        forall|i: int| 0 <= i < rest.len() ==> !is_system(#[trigger] rest[i]),
    ensures
        others(seq![b] + rest) == rest,
        system_texts(seq![b] + rest) == seq![b.text_at("content"@)->0],
    decreases rest.len(),
{
    let ms = seq![b] + rest;
    if rest.len() > 0 {
        let shorter = rest.drop_last();
        assert(ms.drop_last() =~= seq![b] + shorter);
        assert(!is_system(rest[rest.len() - 1]));
        headed_splits(b, shorter);
        assert(shorter.push(rest.last()) =~= rest);
    } else {
        assert(ms.drop_last() =~= Seq::empty());
        assert(system_texts(ms.drop_last()) =~= Seq::empty());
        assert(system_texts(ms) =~= seq![b.text_at("content"@)->0]);
        assert(others(ms.drop_last()) =~= Seq::empty());
        assert(ms.last() == b);
        assert(others(ms) =~= rest);
    }
}

proof fn block_reads_back(parts: Seq<Seq<char>>)
    ensures
        is_system(system_block(parts)),
        system_block(parts).text_at("content"@) == Some(joined(parts, "\n\n"@)),
{
    reveal_strlit("role");
    reveal_strlit("content");
    assert("role"@.len() != "content"@.len());
}

/// After hoisting, a system message stands nowhere but at the front, and hoisting again
/// changes nothing.
pub proof fn hoisting_settles(ms: Seq<JsonV>)
    ensures
        forall|i: int| 1 <= i < hoisted(ms).len() ==> !is_system(#[trigger] hoisted(ms)[i]),
        hoisted(hoisted(ms)) == hoisted(ms),
{
    let parts = system_texts(ms);
    let rest = others(ms);
    others_have_no_system(ms);
    if parts.len() > 0 {
        let b = system_block(parts);
        block_reads_back(parts);
        headed_splits(b, rest);
        assert(joined(seq![joined(parts, "\n\n"@)], "\n\n"@) == joined(parts, "\n\n"@));
        assert forall|i: int| 1 <= i < hoisted(ms).len() implies !is_system(
            #[trigger] hoisted(ms)[i],
        ) by {
            assert(hoisted(ms)[i] == rest[i - 1]);
        }
    } else {
        no_system_is_all_others(rest);
    }
}

/// Merging again changes nothing.
pub proof fn merging_settles(ms: Seq<JsonV>)
    ensures
        merged(merged(ms)) == merged(ms),
{
    lead_bounds(ms);
    let n = lead(ms);
    let parts = system_texts(ms.take(n));
    let rest = ms.skip(n);
    let out = merged(ms);
    if rest.len() > 0 {
        assert(rest[0] == ms[n]);
    }
    if parts.len() > 0 {
        let b = system_block(parts);
        block_reads_back(parts);
        assert(out[0] == b);
        if rest.len() > 0 {
            assert(out[1] == rest[0]);
        }
        lead_is(out, 1);
        assert(out.take(1) =~= seq![b] + Seq::<JsonV>::empty());
        headed_splits(b, Seq::empty());
        assert(out.skip(1) =~= rest);
        assert(joined(seq![joined(parts, "\n\n"@)], "\n\n"@) == joined(parts, "\n\n"@));
    } else {
        lead_is(out, 0);
        assert(out.take(0) =~= Seq::empty());
        assert(system_texts(out.take(0)) =~= Seq::empty());
        assert(out.skip(0) =~= out);
    }
}

/// A tool call with its arguments as the text of a JSON value.
pub open spec fn string_args(tc: JsonV) -> JsonV {
    match tc.get("function"@) {
        Some(f) => match f.get("arguments"@) {
            Some(a) => if a is Str {
                tc
            } else {
                tc.put("function"@, f.put("arguments"@, JsonV::Str(text_of_json(a))))
            },
            None => tc,
        },
        None => tc,
    }
}

/// A message of the assistant with the arguments of its calls as text; any other message
/// as it is.
pub open spec fn string_message(m: JsonV) -> JsonV {
    if m.at("role"@) == JsonV::Str("assistant"@) {
        match m.get("tool_calls"@) {
            Some(JsonV::Arr(calls)) => m.put(
                "tool_calls"@,
                JsonV::Arr(calls.map_values(|c: JsonV| string_args(c))),
            ),
            _ => m,
        }
    } else {
        m
    }
}

/// The arguments of a call, where it has any that are not text.
pub open spec fn args_to_print(tc: JsonV) -> Option<JsonV> {
    match tc.get("function"@) {
        Some(f) => match f.get("arguments"@) {
            Some(JsonV::Str(_)) => None,
            other => other,
        },
        None => None,
    }
}

/// The text of a call's arguments says them again.
pub open spec fn args_read_back(tc: JsonV) -> bool {
    args_to_print(tc) matches Some(a) ==> reads_back(a)
}

/// The texts of the arguments of a message's calls say them again.
pub open spec fn message_reads_back(m: JsonV) -> bool {
    m.at("role"@) == JsonV::Str("assistant"@) ==> match m.get("tool_calls"@) {
        Some(JsonV::Arr(calls)) => forall|i: int|
            0 <= i < calls.len() ==> args_read_back(#[trigger] calls[i]),
        _ => true,
    }
}

fn stringify_call(tc: &Json) -> (r: Json)
    ensures
        r@ == string_args(tc@),
        args_read_back(tc@),
{
    match tc.get("function") {
        Some(f) => match f.get("arguments") {
            Some(a) => if a.as_str().is_some() {
                tc.copy()
            } else {
                let text = a.print();
                tc.copy().with("function", f.copy().with("arguments", Json::Str(text)))
            },
            None => tc.copy(),
        },
        None => tc.copy(),
    }
}

fn stringify_message(m: &Json) -> (r: Json)
    ensures
        r@ == string_message(m@),
        message_reads_back(m@),
{
    if !is_text(m.get("role"), "assistant") {
        return m.copy();
    }
    match m.get_array("tool_calls") {
        Some(calls) => {
            let mut out: Vec<Json> = Vec::new();
            let mut i: usize = 0;
            while i < calls.len()
                invariant
                    i <= calls@.len(),
                    out@.len() == i,
                    forall|k: int| 0 <= k < i ==> (#[trigger] out@[k])@ == string_args(calls@[k]@),
                    forall|k: int| 0 <= k < i ==> args_read_back((#[trigger] calls@[k])@),
                decreases calls@.len() - i,
            {
                out.push(stringify_call(&calls[i]));
                i += 1;
            }
            proof {
                assert(jsons(out@) =~= jsons(calls@).map_values(|c: JsonV| string_args(c)));
                assert forall|i: int| 0 <= i < jsons(calls@).len() implies args_read_back(
                    #[trigger] jsons(calls@)[i],
                ) by {
                    assert(args_read_back(calls@[i]@));
                }
            }
            m.copy().with("tool_calls", Json::array(out))
        },
        None => m.copy(),
    }
}

/// The messages with the arguments of tool calls as text, as the wire format asks. The
/// texts say the arguments again.
pub fn stringify_tool_call_arguments(messages: Vec<Json>) -> (r: Vec<Json>)
    ensures
        jsons(r@) == jsons(messages@).map_values(|m: JsonV| string_message(m)),
        forall|i: int| 0 <= i < messages@.len() ==> message_reads_back((#[trigger] messages@[i])@),
{
    let mut out: Vec<Json> = Vec::new();
    let mut i: usize = 0;
    while i < messages.len()
        invariant
            i <= messages@.len(),
            out@.len() == i,
            forall|k: int| 0 <= k < i ==> (#[trigger] out@[k])@ == string_message(messages@[k]@),
            forall|k: int| 0 <= k < i ==> message_reads_back((#[trigger] messages@[k])@),
        decreases messages@.len() - i,
    {
        out.push(stringify_message(&messages[i]));
        i += 1;
    }
    proof {
        assert(jsons(out@) =~= jsons(messages@).map_values(|m: JsonV| string_message(m)));
    }
    out
}

/// The arguments of a call, once text, stay as they are: a second pass changes nothing.
pub proof fn stringifying_settles(tc: JsonV)
    ensures
        string_args(string_args(tc)) == string_args(tc),
        tc.at("function"@).get("arguments"@) is Some ==> string_args(tc).at("function"@).at(
            "arguments"@,
        ) is Str,
{
}

/// The model to ask: the caller's choice, else the configured one, else the default.
pub open spec fn chosen_model(
    asked: Option<Seq<char>>,
    configured: Seq<char>,
    default: Seq<char>,
) -> Seq<char> {
    match asked {
        Some(m) => m,
        None => if configured.len() > 0 {
            configured
        } else {
            default
        },
    }
}

/// The model to ask: the caller's choice, else the configured one, else the default.
pub fn choose_model(asked: Option<&str>, configured: &str, default: &str) -> (r: String)
    ensures
        r@ == chosen_model(opt_text(asked), configured@, default@),
{
    match asked {
        Some(m) => owned(m),
        None => if !configured.is_empty() {
            owned(configured)
        } else {
            owned(default)
        },
    }
}

/// The services that run a model with llama.cpp.
pub open spec fn is_self_hosted(provider_type: Seq<char>) -> bool {
    provider_type == "ollama"@ || provider_type == "custom_openai"@
}

/// Whether a service runs its model with llama.cpp.
pub fn self_hosted(provider_type: &str) -> (r: bool)
    ensures
        r == is_self_hosted(provider_type@),
{
    same(provider_type, "ollama") || same(provider_type, "custom_openai")
}

/// The messages as they are sent.
pub open spec fn wire_messages(provider_type: Seq<char>, ms: Seq<JsonV>) -> Seq<JsonV> {
    (if is_self_hosted(provider_type) {
        hoisted(ms)
    } else {
        merged(ms)
    }).map_values(|m: JsonV| string_message(m))
}

/// The request with the level of effort, in the words of the service.
pub open spec fn put_effort(body: JsonV, provider_type: Seq<char>, effort: Option<EffortV>) -> JsonV {
    match effort {
        None => body,
        Some(e) => if provider_type == "openai"@ {
            match e.hosted() {
                Some(level) => body.put("reasoning_effort"@, JsonV::Str(level)),
                None => body,
            }
        } else if provider_type == "openrouter"@ {
            body.put("reasoning"@, openrouter_reasoning_v(e))
        } else if is_self_hosted(provider_type) {
            let on = JsonV::empty().put("enable_thinking"@, JsonV::Bool(!(e is Off)));
            match e.wire() {
                Some(level) => body.put(
                    "chat_template_kwargs"@,
                    on.put("reasoning_effort"@, JsonV::Str(level)),
                ).put("reasoning_effort"@, JsonV::Str(level)),
                None => body.put("chat_template_kwargs"@, on),
            }
        } else {
            body
        },
    }
}

/// The object with an integer set, where there is one.
pub open spec fn put_int_v(body: JsonV, key: Seq<char>, n: Option<i32>) -> JsonV {
    match n {
        Some(k) => body.put(key, JsonV::Int(k as int)),
        None => body,
    }
}

fn put_int(body: Json, key: &str, n: Option<i32>) -> (r: Json)
    ensures
        r@ == put_int_v(body@, key@, n),
{
    match n {
        Some(k) => body.with(key, Json::Int(k as i64)),
        None => body,
    }
}

/// A limit on tokens that a service takes.
pub open spec fn sane_limit(n: Option<i32>) -> Option<i32> {
    match n {
        Some(m) => if 1 <= m <= 65536 {
            Some(m)
        } else {
            None
        },
        None => None,
    }
}

/// The body of a chat request.
pub open spec fn chat_body_v(
    provider_type: Seq<char>,
    model: Seq<char>,
    messages: Seq<JsonV>,
    tools: Option<Seq<JsonV>>,
    s: SamplingV,
    id_slot: Option<i32>,
) -> JsonV {
    let a = JsonV::empty().put("model"@, JsonV::Str(model)).put(
        "messages"@,
        JsonV::Arr(wire_messages(provider_type, messages)),
    ).put("stream"@, JsonV::Bool(true)).put(
        "stream_options"@,
        JsonV::empty().put("include_usage"@, JsonV::Bool(true)),
    );
    let b = match tools {
        Some(t) => a.put("tools"@, JsonV::Arr(t)),
        None => a,
    };
    let c = put_decimal_v(b, "temperature"@, s.temperature);
    let d = put_decimal_v(c, "top_p"@, s.top_p);
    let e = put_decimal_v(d, "presence_penalty"@, s.presence_penalty);
    let f = put_decimal_v(e, "frequency_penalty"@, s.frequency_penalty);
    let g = put_int_v(f, "max_tokens"@, sane_limit(s.max_tokens));
    let h = if is_self_hosted(provider_type) {
        put_decimal_v(put_int_v(g, "top_k"@, s.top_k), "min_p"@, s.min_p)
    } else {
        g
    };
    put_int_v(put_effort(h, provider_type, s.effort), "id_slot"@, id_slot)
}

/// The models of optional tools.
pub open spec fn opt_jsons(t: Option<Vec<Json>>) -> Option<Seq<JsonV>> {
    match t {
        Some(v) => Some(jsons(v@)),
        None => None,
    }
}

/// The body of a chat request.
pub fn chat_body(
    provider_type: &str,
    model: &str,
    messages: Vec<Json>,
    tools: Option<Vec<Json>>,
    sampling: &SamplingParams,
    id_slot: Option<i32>,
) -> (r: Json)
    ensures
        r@ == chat_body_v(
            provider_type@,
            model@,
            jsons(messages@),
            opt_jsons(tools),
            sampling@,
            id_slot,
        ),
{
    let local = self_hosted(provider_type);
    let placed = if local {
        hoist_all_system_messages(messages)
    } else {
        merge_system_messages(messages)
    };
    let wired = stringify_tool_call_arguments(placed);
    let mut body = Json::object().with("model", Json::string(model)).with(
        "messages",
        Json::array(wired),
    ).with("stream", Json::Bool(true)).with(
        "stream_options",
        Json::object().with("include_usage", Json::Bool(true)),
    );
    match tools {
        Some(t) => {
            body = body.with("tools", Json::array(t));
        },
        None => {},
    }
    body = put_decimal(body, "temperature", &sampling.temperature);
    body = put_decimal(body, "top_p", &sampling.top_p);
    body = put_decimal(body, "presence_penalty", &sampling.presence_penalty);
    body = put_decimal(body, "frequency_penalty", &sampling.frequency_penalty);
    let limit = match sampling.max_tokens {
        Some(m) => if 1 <= m && m <= 65536 {
            Some(m)
        } else {
            None
        },
        None => None,
    };
    body = put_int(body, "max_tokens", limit);
    if local {
        body = put_int(body, "top_k", sampling.top_k);
        body = put_decimal(body, "min_p", &sampling.min_p);
    }
    match &sampling.effort {
        Some(e) => {
            if same(provider_type, "openai") {
                match e.hosted_level() {
                    Some(level) => {
                        body = body.with("reasoning_effort", Json::string(level));
                    },
                    None => {},
                }
            } else if same(provider_type, "openrouter") {
                body = body.with("reasoning", openrouter_reasoning(e));
            } else if local {
                let enable = !matches!(e, Effort::Off);
                let on = Json::object().with("enable_thinking", Json::Bool(enable));
                match e.wire_level() {
                    Some(level) => {
                        body = body.with(
                            "chat_template_kwargs",
                            on.with("reasoning_effort", Json::string(level)),
                        ).with("reasoning_effort", Json::string(level));
                    },
                    None => {
                        body = body.with("chat_template_kwargs", on);
                    },
                }
            }
        },
        None => {},
    }
    put_int(body, "id_slot", id_slot)
}

/// The entry of a model list that one item makes.
pub open spec fn model_entry(m: JsonV, provider_id: Seq<char>, length_keys: Seq<Seq<char>>) -> Option<
    ModelInfoV,
> {
    match m.text_at("id"@) {
        None => None,
        Some(id) => Some(
            ModelInfoV {
                id,
                name: m.text_at("name"@),
                provider_id: Some(provider_id),
                context_length: first_length(m, length_keys),
            },
        ),
    }
}

/// The context length under the first of the keys that has one.
pub open spec fn first_length(m: JsonV, keys: Seq<Seq<char>>) -> Option<i32>
    decreases keys.len(),
{
    if keys.len() == 0 {
        None
    } else {
        match m.at(keys[0]).signed() {
            Some(n) => Some(n as i32),
            None => first_length(m, keys.skip(1)),
        }
    }
}

/// The entries that a list makes, in order; an item without an identifier makes none.
pub open spec fn model_entries(
    items: Seq<JsonV>,
    provider_id: Seq<char>,
    keys: Seq<Seq<char>>,
) -> Seq<ModelInfoV>
    decreases items.len(),
{
    if items.len() == 0 {
        Seq::empty()
    } else {
        let before = model_entries(items.drop_last(), provider_id, keys);
        match model_entry(items.last(), provider_id, keys) {
            Some(e) => before.push(e),
            None => before,
        }
    }
}

/// The models of a list of model entries.
pub open spec fn models_model(v: Seq<ModelInfo>) -> Seq<ModelInfoV> {
    v.map_values(|m: ModelInfo| m@)
}

/// The models that an answer of `/v1/models` lists.
pub fn models_from(data: &Json, provider_id: &str, length_keys: &Vec<String>) -> (r: Vec<
    ModelInfo,
>)
    ensures
        models_model(r@) == (match data@.at("data"@) {
            JsonV::Arr(items) => model_entries(items, provider_id@, texts(length_keys@)),
            _ => Seq::empty(),
        }),
{
    let mut out: Vec<ModelInfo> = Vec::new();
    let ghost keys = texts(length_keys@);
    match data.get_array("data") {
        Some(items) => {
            let ghost all = jsons(items@);
            let mut i: usize = 0;
            proof {
                assert(models_model(out@) =~= model_entries(all.take(0), provider_id@, keys));
            }
            while i < items.len()
                invariant
                    i <= items@.len(),
                    all == jsons(items@),
                    keys == texts(length_keys@),
                    models_model(out@) == model_entries(all.take(i as int), provider_id@, keys),
                decreases items@.len() - i,
            {
                let m = &items[i];
                let ghost before = out@;
                proof {
                    assert(all.take(i + 1).drop_last() =~= all.take(i as int));
                    assert(all.take(i + 1).last() == m@);
                }
                match m.get_str("id") {
                    Some(id) => {
                        let mut context_length: Option<i32> = None;
                        let mut k: usize = 0;
                        proof {
                            assert(keys.skip(0) =~= keys);
                        }
                        while k < length_keys.len() && context_length.is_none()
                            invariant
                                k <= length_keys@.len(),
                                keys == texts(length_keys@),
                                context_length is None ==> first_length(m@, keys) == first_length(
                                    m@,
                                    keys.skip(k as int),
                                ),
                                context_length is Some ==> first_length(m@, keys)
                                    == context_length,
                            decreases length_keys@.len() - k,
                        {
                            proof {
                                assert(keys.skip(k as int)[0] == length_keys@[k as int]@);
                                assert(keys.skip(k as int).skip(1) =~= keys.skip(k + 1));
                            }
                            match m.get_i64(length_keys[k].as_str()) {
                                Some(n) => {
                                    context_length = Some(#[verifier::truncate] (n as i32));
                                },
                                None => {},
                            }
                            k += 1;
                        }
                        proof {
                            if context_length is None {
                                assert(keys.skip(k as int) =~= Seq::empty());
                            }
                        }
                        let e = ModelInfo {
                            id: owned(id),
                            name: owned_opt(m.get_str("name")),
                            provider_id: Some(owned(provider_id)),
                            context_length,
                        };
                        out.push(e);
                        proof {
                            assert(models_model(out@) =~= models_model(before).push(e@));
                        }
                    },
                    None => {},
                }
                i += 1;
            }
            proof {
                assert(all.take(i as int) =~= all);
            }
        },
        None => {
            proof {
                assert(models_model(out@) =~= Seq::empty());
            }
        },
    }
    out
}

/// An OpenAI-compatible service.
pub struct OpenAICompatibleProvider {
    pub provider_id: String,
    pub config: ProviderConfig,
}

impl OpenAICompatibleProvider {
    /// The model that is asked where neither the caller nor the configuration names one.
    pub const DEFAULT_MODEL: &'static str = "gpt-4o";

    /// A service under an identifier.
    pub fn new(provider_id: &str, config: ProviderConfig) -> (r: OpenAICompatibleProvider)
        ensures
            r.provider_id@ == provider_id@,
            r.config == config,
    {
        OpenAICompatibleProvider { provider_id: owned(provider_id), config }
    }

    /// The model to ask.
    pub fn resolve_model(&self, override_model: Option<&str>) -> (r: String)
        ensures
            r@ == chosen_model(opt_text(override_model), self.config.model@, Self::DEFAULT_MODEL@),
    {
        choose_model(override_model, self.config.model.as_str(), Self::DEFAULT_MODEL)
    }

    /// Whether a trailing message of the assistant is continued: only where it is
    /// configured.
    pub fn supports_assistant_prefill(&self) -> (r: bool)
        ensures
            r == self.config.experimental_prefill,
    {
        self.config.experimental_prefill
    }

    /// The body of a chat request.
    pub fn chat_request(
        &self,
        messages: Vec<Json>,
        tools: Option<Vec<Json>>,
        sampling: &SamplingParams,
        model: Option<&str>,
        id_slot: Option<i32>,
    ) -> (r: Json)
        ensures
            r@ == chat_body_v(
                self.config.provider_type@,
                chosen_model(opt_text(model), self.config.model@, Self::DEFAULT_MODEL@),
                jsons(messages@),
                opt_jsons(tools),
                sampling@,
                id_slot,
            ),
    {
        let m = self.resolve_model(model);
        chat_body(
            self.config.provider_type.as_str(),
            m.as_str(),
            messages,
            tools,
            sampling,
            id_slot,
        )
    }

    /// The models that an answer lists.
    pub fn listed_models(&self, data: &Json) -> (r: Vec<ModelInfo>)
        ensures
            models_model(r@) == (match data@.at("data"@) {
                JsonV::Arr(items) => model_entries(
                    items,
                    self.provider_id@,
                    seq!["max_model_len"@, "context_length"@],
                ),
                _ => Seq::empty(),
            }),
    {
        let mut keys: Vec<String> = Vec::new();
        keys.push(owned("max_model_len"));
        keys.push(owned("context_length"));
        proof {
            assert(texts(keys@) =~= seq!["max_model_len"@, "context_length"@]);
        }
        models_from(data, self.provider_id.as_str(), &keys)
    }
}

/// A service that takes no extension of llama.cpp is sent none: neither `top_k` nor
/// `min_p` stands in the request.
pub proof fn hosted_services_get_no_extensions(
    provider_type: Seq<char>,
    model: Seq<char>,
    messages: Seq<JsonV>,
    tools: Option<Seq<JsonV>>,
    s: SamplingV,
    id_slot: Option<i32>,
)
    requires
        !is_self_hosted(provider_type),
    ensures
        chat_body_v(provider_type, model, messages, tools, s, id_slot).get("top_k"@) is None,
        chat_body_v(provider_type, model, messages, tools, s, id_slot).get("min_p"@) is None,
{
    reveal_strlit("top_k");
    reveal_strlit("min_p");
    reveal_strlit("model");
    reveal_strlit("messages");
    reveal_strlit("stream");
    reveal_strlit("stream_options");
    reveal_strlit("tools");
    reveal_strlit("temperature");
    reveal_strlit("top_p");
    reveal_strlit("presence_penalty");
    reveal_strlit("frequency_penalty");
    reveal_strlit("max_tokens");
    reveal_strlit("reasoning_effort");
    reveal_strlit("reasoning");
    reveal_strlit("id_slot");
    let k = "top_k"@;
    let p = "min_p"@;
    assert(k[0] == 't' && k[4] == 'k');
    assert(p[0] == 'm' && p[4] == 'p' && p[1] == 'i');
    assert("model"@[1] == 'o');
    assert("tools"@[4] == 's' && "top_p"@[4] == 'p' && "top_p"@[0] == 't');
    assert("tools"@[0] == 't');
    assert(k.len() == 5 && p.len() == 5 && "messages"@.len() == 8 && "stream"@.len() == 6
        && "stream_options"@.len() == 14 && "temperature"@.len() == 11 && "presence_penalty"@.len()
        == 16 && "frequency_penalty"@.len() == 17 && "max_tokens"@.len() == 10
        && "reasoning_effort"@.len() == 16 && "reasoning"@.len() == 9 && "id_slot"@.len() == 7);
}

proof fn member_names_differ()
    ensures
        "model"@.len() == 5 && "model"@[0] == 'm' && "model"@[1] == 'o',
        "min_p"@.len() == 5 && "min_p"@[0] == 'm' && "min_p"@[1] == 'i',
        "tools"@.len() == 5 && "tools"@[0] == 't' && "tools"@[2] == 'o',
        "top_p"@.len() == 5 && "top_p"@[0] == 't' && "top_p"@[2] == 'p' && "top_p"@[4] == 'p',
        "top_k"@.len() == 5 && "top_k"@[0] == 't' && "top_k"@[2] == 'p' && "top_k"@[4] == 'k',
        "messages"@.len() == 8,
        "stream"@.len() == 6,
        "stream_options"@.len() == 14,
        "temperature"@.len() == 11,
        "presence_penalty"@.len() == 16 && "presence_penalty"@[0] == 'p',
        "reasoning_effort"@.len() == 16 && "reasoning_effort"@[0] == 'r',
        "frequency_penalty"@.len() == 17,
        "max_tokens"@.len() == 10,
        "reasoning"@.len() == 9,
        "chat_template_kwargs"@.len() == 20,
        "id_slot"@.len() == 7,
{
    reveal_strlit("model");
    reveal_strlit("min_p");
    reveal_strlit("tools");
    reveal_strlit("top_p");
    reveal_strlit("top_k");
    reveal_strlit("messages");
    reveal_strlit("stream");
    reveal_strlit("stream_options");
    reveal_strlit("temperature");
    reveal_strlit("presence_penalty");
    reveal_strlit("reasoning_effort");
    reveal_strlit("frequency_penalty");
    reveal_strlit("max_tokens");
    reveal_strlit("reasoning");
    reveal_strlit("chat_template_kwargs");
    reveal_strlit("id_slot");
}

proof fn decimals_keep(body: JsonV, name: Seq<char>, t: Option<Seq<char>>, key: Seq<char>)
    requires
        body is Obj,
    ensures
        put_decimal_v(body, name, t) is Obj,
        key != name || t is None ==> put_decimal_v(body, name, t).get(key) == body.get(key),
        t matches Some(d) ==> put_decimal_v(body, name, t).get(name) == Some(
            crate::json::decimal_json(d),
        ),
{
}

proof fn integers_keep(body: JsonV, name: Seq<char>, n: Option<i32>, key: Seq<char>)
    requires
        body is Obj,
    ensures
        put_int_v(body, name, n) is Obj,
        key != name || n is None ==> put_int_v(body, name, n).get(key) == body.get(key),
        n matches Some(k) ==> put_int_v(body, name, n).get(name) == Some(JsonV::Int(k as int)),
{
}

proof fn efforts_keep(body: JsonV, provider_type: Seq<char>, effort: Option<EffortV>, key: Seq<char>)
    requires
        body is Obj,
        key != "reasoning_effort"@,
        key != "reasoning"@,
        key != "chat_template_kwargs"@,
    ensures
        put_effort(body, provider_type, effort) is Obj,
        put_effort(body, provider_type, effort).get(key) == body.get(key),
{
}

/// What a member of a request is, by the number that is sent under its name, if any.
proof fn member_of_request(
    provider_type: Seq<char>,
    model: Seq<char>,
    messages: Seq<JsonV>,
    tools: Option<Seq<JsonV>>,
    s: SamplingV,
    id_slot: Option<i32>,
    key: Seq<char>,
)
    requires
        key != "reasoning_effort"@,
        key != "reasoning"@,
        key != "chat_template_kwargs"@,
        key != "top_k"@,
        key != "min_p"@,
    ensures
        ({
            let body = chat_body_v(provider_type, model, messages, tools, s, id_slot);
            let head = JsonV::empty().put("model"@, JsonV::Str(model)).put(
                "messages"@,
                JsonV::Arr(wire_messages(provider_type, messages)),
            ).put("stream"@, JsonV::Bool(true)).put(
                "stream_options"@,
                JsonV::empty().put("include_usage"@, JsonV::Bool(true)),
            );
            let tooled = match tools {
                Some(t) => head.put("tools"@, JsonV::Arr(t)),
                None => head,
            };
            &&& key != "temperature"@ && key != "top_p"@ && key != "presence_penalty"@ && key
                != "frequency_penalty"@ && key != "max_tokens"@ && key != "id_slot"@ ==> body.get(
                key,
            ) == tooled.get(key)
            &&& key == "temperature"@ ==> body.get(key) == (match s.temperature {
                Some(t) => Some(crate::json::decimal_json(t)),
                None => None,
            })
            &&& key == "top_p"@ ==> body.get(key) == (match s.top_p {
                Some(t) => Some(crate::json::decimal_json(t)),
                None => None,
            })
            &&& key == "presence_penalty"@ ==> body.get(key) == (match s.presence_penalty {
                Some(t) => Some(crate::json::decimal_json(t)),
                None => None,
            })
            &&& key == "frequency_penalty"@ ==> body.get(key) == (match s.frequency_penalty {
                Some(t) => Some(crate::json::decimal_json(t)),
                None => None,
            })
            &&& key == "max_tokens"@ ==> body.get(key) == (match sane_limit(s.max_tokens) {
                Some(n) => Some(JsonV::Int(n as int)),
                None => None,
            })
            &&& key == "id_slot"@ ==> body.get(key) == (match id_slot {
                Some(n) => Some(JsonV::Int(n as int)),
                None => None,
            })
        }),
{
    member_names_differ();
    let head = JsonV::empty().put("model"@, JsonV::Str(model)).put(
        "messages"@,
        JsonV::Arr(wire_messages(provider_type, messages)),
    ).put("stream"@, JsonV::Bool(true)).put(
        "stream_options"@,
        JsonV::empty().put("include_usage"@, JsonV::Bool(true)),
    );
    let b = match tools {
        Some(t) => head.put("tools"@, JsonV::Arr(t)),
        None => head,
    };
    let c = put_decimal_v(b, "temperature"@, s.temperature);
    let d = put_decimal_v(c, "top_p"@, s.top_p);
    let e = put_decimal_v(d, "presence_penalty"@, s.presence_penalty);
    let f = put_decimal_v(e, "frequency_penalty"@, s.frequency_penalty);
    let g = put_int_v(f, "max_tokens"@, sane_limit(s.max_tokens));
    let g2 = put_int_v(g, "top_k"@, s.top_k);
    let h = if is_self_hosted(provider_type) {
        put_decimal_v(g2, "min_p"@, s.min_p)
    } else {
        g
    };
    decimals_keep(b, "temperature"@, s.temperature, key);
    decimals_keep(c, "top_p"@, s.top_p, key);
    decimals_keep(d, "presence_penalty"@, s.presence_penalty, key);
    decimals_keep(e, "frequency_penalty"@, s.frequency_penalty, key);
    integers_keep(f, "max_tokens"@, sane_limit(s.max_tokens), key);
    integers_keep(g, "top_k"@, s.top_k, key);
    decimals_keep(g2, "min_p"@, s.min_p, key);
    efforts_keep(h, provider_type, s.effort, key);
    integers_keep(put_effort(h, provider_type, s.effort), "id_slot"@, id_slot, key);
}

/// A request names the model, asks for a stream that ends with its counts, and has the tools
/// that were given, as they are, or none. Each number is sent that is set, under its name, and
/// no other; a limit is sent where a service takes it.
pub proof fn requests_say_what_was_asked(
    provider_type: Seq<char>,
    model: Seq<char>,
    messages: Seq<JsonV>,
    tools: Option<Seq<JsonV>>,
    s: SamplingV,
    id_slot: Option<i32>,
)
    ensures
        ({
            let body = chat_body_v(provider_type, model, messages, tools, s, id_slot);
            &&& body.get("model"@) == Some(JsonV::Str(model))
            &&& body.get("stream"@) == Some(JsonV::Bool(true))
            &&& body.at("stream_options"@).get("include_usage"@) == Some(JsonV::Bool(true))
            &&& body.get("messages"@) == Some(JsonV::Arr(wire_messages(provider_type, messages)))
            &&& match tools {
                Some(t) => body.get("tools"@) == Some(JsonV::Arr(t)),
                None => body.get("tools"@) is None,
            }
            &&& match s.temperature {
                Some(t) => body.get("temperature"@) == Some(crate::json::decimal_json(t)),
                None => body.get("temperature"@) is None,
            }
            &&& match s.top_p {
                Some(t) => body.get("top_p"@) == Some(crate::json::decimal_json(t)),
                None => body.get("top_p"@) is None,
            }
            &&& match s.presence_penalty {
                Some(t) => body.get("presence_penalty"@) == Some(crate::json::decimal_json(t)),
                None => body.get("presence_penalty"@) is None,
            }
            &&& match s.frequency_penalty {
                Some(t) => body.get("frequency_penalty"@) == Some(crate::json::decimal_json(t)),
                None => body.get("frequency_penalty"@) is None,
            }
            &&& match s.max_tokens {
                Some(m) => body.get("max_tokens"@) == (if 1 <= m <= 65536 {
                    Some(JsonV::Int(m as int))
                } else {
                    None
                }),
                None => body.get("max_tokens"@) is None,
            }
            &&& match id_slot {
                Some(n) => body.get("id_slot"@) == Some(JsonV::Int(n as int)),
                None => body.get("id_slot"@) is None,
            }
        }),
{
    member_names_differ();
    member_of_request(provider_type, model, messages, tools, s, id_slot, "model"@);
    member_of_request(provider_type, model, messages, tools, s, id_slot, "messages"@);
    member_of_request(provider_type, model, messages, tools, s, id_slot, "stream"@);
    member_of_request(provider_type, model, messages, tools, s, id_slot, "stream_options"@);
    member_of_request(provider_type, model, messages, tools, s, id_slot, "tools"@);
    member_of_request(provider_type, model, messages, tools, s, id_slot, "temperature"@);
    member_of_request(provider_type, model, messages, tools, s, id_slot, "top_p"@);
    member_of_request(provider_type, model, messages, tools, s, id_slot, "presence_penalty"@);
    member_of_request(provider_type, model, messages, tools, s, id_slot, "frequency_penalty"@);
    member_of_request(provider_type, model, messages, tools, s, id_slot, "max_tokens"@);
    member_of_request(provider_type, model, messages, tools, s, id_slot, "id_slot"@);
}

proof fn provider_names_differ()
    ensures
        "openai"@.len() == 6 && "openai"@[1] == 'p',
        "ollama"@.len() == 6 && "ollama"@[1] == 'l',
        "openrouter"@.len() == 10,
        "custom_openai"@.len() == 13,
{
    reveal_strlit("openai");
    reveal_strlit("ollama");
    reveal_strlit("openrouter");
    reveal_strlit("custom_openai");
}

/// A model that is run with llama.cpp is sent the two numbers that only it takes, where they
/// are set.
pub proof fn own_models_get_their_extensions(
    provider_type: Seq<char>,
    model: Seq<char>,
    messages: Seq<JsonV>,
    tools: Option<Seq<JsonV>>,
    s: SamplingV,
    id_slot: Option<i32>,
)
    requires
        provider_type == "ollama"@ || provider_type == "custom_openai"@,
    ensures
        ({
            let body = chat_body_v(provider_type, model, messages, tools, s, id_slot);
            &&& match s.top_k {
                Some(n) => body.get("top_k"@) == Some(JsonV::Int(n as int)),
                None => body.get("top_k"@) is None,
            }
            &&& match s.min_p {
                Some(t) => body.get("min_p"@) == Some(crate::json::decimal_json(t)),
                None => body.get("min_p"@) is None,
            }
        }),
{
    member_names_differ();
}

/// The level of effort is said in the words of each service. OpenAI takes one of three levels,
/// and no word where none is to be spent; OpenRouter can be told to spend none; a model of
/// one's own is told whether to think, and how much under the level's own name. No other
/// service is told, and none is where no level is set.
pub proof fn effort_is_said_in_the_words_of_the_service(
    provider_type: Seq<char>,
    model: Seq<char>,
    messages: Seq<JsonV>,
    tools: Option<Seq<JsonV>>,
    s: SamplingV,
    id_slot: Option<i32>,
)
    ensures
        ({
            let body = chat_body_v(provider_type, model, messages, tools, s, id_slot);
            let level = match s.effort {
                Some(EffortV::Low) => Some("low"@),
                Some(EffortV::Medium) => Some("medium"@),
                Some(EffortV::High) => Some("high"@),
                Some(EffortV::Custom(_)) => Some("high"@),
                _ => None,
            };
            let own = match s.effort {
                Some(EffortV::Custom(name)) => Some(name),
                _ => level,
            };
            let kwargs = body.at("chat_template_kwargs"@);
            if s.effort is None {
                &&& body.get("reasoning_effort"@) is None
                &&& body.get("reasoning"@) is None
                &&& body.get("chat_template_kwargs"@) is None
            } else if provider_type == "openai"@ {
                &&& body.get("reasoning_effort"@) == (match level {
                    Some(l) => Some(JsonV::Str(l)),
                    None => None,
                })
                &&& body.get("reasoning"@) is None
                &&& body.get("chat_template_kwargs"@) is None
            } else if provider_type == "openrouter"@ {
                &&& match level {
                    Some(l) => body.at("reasoning"@).get("effort"@) == Some(JsonV::Str(l))
                        && body.at("reasoning"@).get("enabled"@) is None,
                    None => body.at("reasoning"@).get("enabled"@) == Some(JsonV::Bool(false))
                        && body.at("reasoning"@).get("effort"@) is None,
                }
                &&& body.get("reasoning_effort"@) is None
                &&& body.get("chat_template_kwargs"@) is None
            } else if provider_type == "ollama"@ || provider_type == "custom_openai"@ {
                &&& kwargs.get("enable_thinking"@) == Some(
                    JsonV::Bool(s.effort != Some(EffortV::Off)),
                )
                &&& body.get("reasoning_effort"@) == (match own {
                    Some(l) => Some(JsonV::Str(l)),
                    None => None,
                })
                &&& kwargs.get("reasoning_effort"@) == (match own {
                    Some(l) => Some(JsonV::Str(l)),
                    None => None,
                })
                &&& body.get("reasoning"@) is None
            } else {
                &&& body.get("reasoning_effort"@) is None
                &&& body.get("reasoning"@) is None
                &&& body.get("chat_template_kwargs"@) is None
            }
        }),
{
    member_names_differ();
    provider_names_differ();
    reveal_strlit("enabled");
    reveal_strlit("effort");
    reveal_strlit("enable_thinking");
    assert("enabled"@.len() == 7 && "effort"@.len() == 6 && "enable_thinking"@.len() == 15);
}

/// The messages that are not of the system, and the texts of those that are, are found
/// wherever they stand: those of two conversations are those of the one, then those of the
/// other.
pub proof fn messages_are_sorted_one_by_one(a: Seq<JsonV>, m: JsonV)
    ensures
        others(a.push(m)) == (if m.at("role"@) == JsonV::Str("system"@) {
            others(a)
        } else {
            others(a).push(m)
        }),
        system_texts(a.push(m)) == (match (m.at("role"@), m.at("content"@)) {
            (JsonV::Str(role), JsonV::Str(t)) => if role == "system"@ {
                system_texts(a).push(t)
            } else {
                system_texts(a)
            },
            _ => system_texts(a),
        }),
        others(Seq::empty()).len() == 0,
        system_texts(Seq::empty()).len() == 0,
{
    assert(a.push(m).drop_last() =~= a);
}

/// Where a service takes system messages anywhere, those at the front become one and the rest
/// is sent in its order. A model of one's own gets all of them at the front.
pub proof fn system_messages_go_to_the_front(provider_type: Seq<char>, ms: Seq<JsonV>, rest: Seq<JsonV>)
    requires
        forall|i: int| 0 <= i < ms.len() ==> is_system(#[trigger] ms[i]),
        rest.len() > 0 ==> !is_system(rest[0]),
        system_texts(ms).len() > 0,
    ensures
        merged(ms + rest).skip(1) == rest,
        merged(ms + rest)[0].at("role"@) == JsonV::Str("system"@),
        merged(ms + rest)[0].at("content"@) == JsonV::Str(joined(system_texts(ms), "\n\n"@)),
        hoisted(ms + rest).skip(1) == others(ms + rest),
        hoisted(ms + rest)[0].at("role"@) == JsonV::Str("system"@),
        hoisted(ms + rest)[0].at("content"@) == JsonV::Str(
            joined(system_texts(ms + rest), "\n\n"@),
        ),
        provider_type == "ollama"@ || provider_type == "custom_openai"@ ==> wire_messages(
            provider_type,
            ms + rest,
        ) == hoisted(ms + rest).map_values(|m: JsonV| string_message(m)),
        provider_type != "ollama"@ && provider_type != "custom_openai"@ ==> wire_messages(
            provider_type,
            ms + rest,
        ) == merged(ms + rest).map_values(|m: JsonV| string_message(m)),
{
    let all = ms + rest;
    let n = ms.len() as int;
    if rest.len() > 0 {
        assert(all[n] == rest[0]);
    }
    assert forall|i: int| 0 <= i < n implies is_system(#[trigger] all[i]) by {
        assert(all[i] == ms[i]);
    }
    lead_is(all, n);
    assert(all.take(n) =~= ms);
    assert(all.skip(n) =~= rest);
    block_reads_back(system_texts(ms));
    assert(merged(all).skip(1) =~= rest);
    more_texts(ms, rest);
    block_reads_back(system_texts(all));
    assert(hoisted(all).skip(1) =~= others(all));
}

proof fn more_texts(ms: Seq<JsonV>, rest: Seq<JsonV>)
    ensures
        system_texts(ms + rest).len() >= system_texts(ms).len(),
    decreases rest.len(),
{
    if rest.len() > 0 {
        more_texts(ms, rest.drop_last());
        assert((ms + rest).drop_last() =~= ms + rest.drop_last());
    } else {
        assert(ms + rest =~= ms);
    }
}

/// Without system messages a conversation is sent in its order; only the arguments of calls
/// become texts, and only in messages of the assistant. Everything else of a message is kept.
pub proof fn conversations_are_sent_as_they_are(provider_type: Seq<char>, ms: Seq<JsonV>, i: int)
    requires
        forall|k: int|
            0 <= k < ms.len() ==> (#[trigger] ms[k]).at("role"@) != JsonV::Str("system"@),
        0 <= i < ms.len(),
    ensures
        ({
            let sent = wire_messages(provider_type, ms);
            &&& sent.len() == ms.len()
            &&& forall|key: Seq<char>|
                key != "tool_calls"@ ==> #[trigger] sent[i].get(key) == ms[i].get(key)
            &&& ms[i].at("role"@) != JsonV::Str("assistant"@) ==> sent[i] == ms[i]
            &&& !(ms[i].at("tool_calls"@) is Arr) ==> sent[i] == ms[i]
        }),
{
    no_system_is_all_others(ms);
    lead_is(ms, 0);
    assert(ms.skip(0) =~= ms);
    assert(ms.take(0) =~= Seq::empty());
    assert(system_texts(ms.take(0)) =~= Seq::empty());
}

/// The arguments of a call are sent as the text of their value, unless they are a text
/// already. The call keeps its identifier, its kind and the name of its tool.
pub proof fn arguments_are_sent_as_texts(m: JsonV, calls: Seq<JsonV>, i: int)
    requires
        m.at("role"@) == JsonV::Str("assistant"@),
        m.at("tool_calls"@) == JsonV::Arr(calls),
        0 <= i < calls.len(),
        calls[i].at("function"@) is Obj,
    ensures
        string_message(m).at("tool_calls"@) matches JsonV::Arr(sent) && sent.len() == calls.len() && {
            let was = calls[i].at("function"@);
            let is = sent[i].at("function"@);
            &&& match was.get("arguments"@) {
                Some(JsonV::Str(t)) => is.get("arguments"@) == Some(JsonV::Str(t)),
                Some(v) => is.get("arguments"@) == Some(JsonV::Str(text_of_json(v))),
                None => is.get("arguments"@) is None,
            }
            &&& is.get("name"@) == was.get("name"@)
            &&& sent[i].get("id"@) == calls[i].get("id"@)
            &&& sent[i].get("type"@) == calls[i].get("type"@)
        },
{
    reveal_strlit("arguments");
    reveal_strlit("name");
    reveal_strlit("function");
    reveal_strlit("id");
    reveal_strlit("type");
    assert("arguments"@.len() == 9 && "name"@.len() == 4 && "function"@.len() == 8 && "id"@.len()
        == 2 && "type"@.len() == 4);
}

/// The model that is asked for is the caller's; without one it is the configured one, and the
/// default where that is empty too.
pub proof fn the_nearest_choice_of_model_counts(
    asked: Option<Seq<char>>,
    configured: Seq<char>,
    default: Seq<char>,
)
    ensures
        asked matches Some(m) ==> chosen_model(asked, configured, default) == m,
        asked is None && configured != Seq::<char>::empty() ==> chosen_model(
            asked,
            configured,
            default,
        ) == configured,
        asked is None && configured == Seq::<char>::empty() ==> chosen_model(
            asked,
            configured,
            default,
        ) == default,
{
    if asked is None && configured.len() == 0 {
        assert(configured =~= Seq::empty());
    }
}

/// A list of models has an entry for each item with an identifier, in order: under that
/// identifier, with the item's name, of the provider that was asked. Its context length is
/// the first that is told under the given keys.
pub proof fn models_are_listed_one_by_one(
    items: Seq<JsonV>,
    m: JsonV,
    provider_id: Seq<char>,
    first: Seq<char>,
    second: Seq<char>,
)
    ensures
        ({
            let keys = seq![first, second];
            let before = model_entries(items, provider_id, keys);
            let all = model_entries(items.push(m), provider_id, keys);
            match m.at("id"@) {
                JsonV::Str(id) => {
                    &&& all.len() == before.len() + 1
                    &&& all.drop_last() == before
                    &&& all.last().id == id
                    &&& all.last().name == (match m.at("name"@) {
                        JsonV::Str(n) => Some(n),
                        _ => None,
                    })
                    &&& all.last().provider_id == Some(provider_id)
                    &&& all.last().context_length == (match (m.at(first).signed(), m.at(
                        second,
                    ).signed()) {
                        (Some(n), _) => Some(n as i32),
                        (None, Some(n)) => Some(n as i32),
                        (None, None) => None,
                    })
                },
                _ => all == before,
            }
        }),
        model_entries(Seq::empty(), provider_id, seq![first, second]).len() == 0,
{
    let keys = seq![first, second];
    assert(items.push(m).drop_last() =~= items);
    let last = keys.skip(1);
    assert(last.len() == 1 && last[0] == second && keys[0] == first);
    assert(last.skip(1).len() == 0);
    assert(first_length(m, last.skip(1)) is None);
    assert(first_length(m, last) == (match m.at(second).signed() {
        Some(n) => Some(n as i32),
        None => None,
    }));
    let all = model_entries(items.push(m), provider_id, keys);
    if m.at("id"@) is Str {
        assert(all.drop_last() =~= model_entries(items, provider_id, keys));
    }
}

/// A list of models is modelled model by model, in its order; no tools are not the same as an
/// empty list of them.
pub proof fn lists_lose_nothing(v: Seq<ModelInfo>, i: int, t: Option<Vec<Json>>)
    requires
        0 <= i < v.len(),
    ensures
        models_model(v).len() == v.len() && models_model(v)[i] == v[i]@,
        opt_jsons(t) is Some <==> t is Some,
        t is Some ==> opt_jsons(t)->0.len() == t->0@.len(),
        forall|k: int| t is Some && 0 <= k < t->0@.len() ==> opt_jsons(t)->0[k] == #[trigger] t->0@[k]@,
{
    if let Some(l) = t {
        assert forall|k: int| 0 <= k < l@.len() implies opt_jsons(t)->0[k] == #[trigger] l@[k]@ by {
            assert(jsons(l@)[k] == l@[k]@);
        }
    }
}

} // verus!
