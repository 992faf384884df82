//! The in-process engine as a provider: the prompt it renders, the budget of a turn and
//! the fragments that a generation streams out.

use crate::config::LocalEngineConfig;
use crate::error::ProviderError;
use crate::json::{jsons, opt_string, opt_text, text_of_json, Json, JsonV};
use crate::local::engine::{registration_n_ctx, AUTO_N_CTX_FALLBACK};
use crate::local::history::{calls_were_shown, shown_turns_are_read_again, turn_is_read_again, was_shown};
use crate::local::tools::{block_head, tool_lines, tool_names, tool_system_block, CLOSE, OPEN, RESPONSE_CLOSE, RESPONSE_OPEN};
use crate::provider::base::{HealthStatus, ModelInfo, ModelInfoV};
use crate::provider::openai_compat::models_model;
use crate::routes::chat::filled;
use crate::text::{contains_text, debug_of, debug_text, file_stem, join, join2, joined, last_name, owned, same, same_everywhere, starts_with, stem_of, texts, trim, trim_left, trim_start, trimmed};
use vstd::prelude::*;

verus! {

/// The texts of the parts that have one, in order.
pub open spec fn part_texts(parts: Seq<JsonV>) -> Seq<Seq<char>>
    decreases parts.len(),
{
    if parts.len() == 0 {
        Seq::empty()
    } else {
        let before = part_texts(parts.drop_last());
        match parts.last().text_at("text"@) {
            Some(t) => before.push(t),
            None => before,
        }
    }
}

/// The text of a message: its content, or the texts of its parts on lines of their own.
pub open spec fn message_text(m: JsonV) -> Seq<char> {
    match m.get("content"@) {
        Some(JsonV::Str(s)) => s,
        Some(JsonV::Arr(parts)) => joined(part_texts(parts), "\n"@),
        _ => Seq::empty(),
    }
}

/// The text of a message.
pub fn text_content(m: &Json) -> (r: String)
    ensures
        r@ == message_text(m@),
{
    match m.get("content") {
        Some(c) => match c.as_str() {
            Some(s) => owned(s),
            None => match c.as_array() {
                Some(parts) => {
                    let mut found: Vec<String> = Vec::new();
                    let mut i: usize = 0;
                    proof {
                        assert(texts(found@) =~= part_texts(jsons(parts@).take(0)));
                    }
                    while i < parts.len()
                        invariant
                            i <= parts@.len(),
                            texts(found@) == part_texts(jsons(parts@).take(i as int)),
                        decreases parts@.len() - i,
                    {
                        let ghost before = found@;
                        match parts[i].get_str("text") {
                            Some(t) => {
                                found.push(owned(t));
                                proof {
                                    assert(texts(found@) =~= texts(before).push(t@));
                                }
                            },
                            None => {},
                        }
                        i += 1;
                        proof {
                            let t = jsons(parts@);
                            assert(t.take(i as int).drop_last() =~= t.take(i - 1));
                            assert(t.take(i as int).last() == parts@[i - 1]@);
                        }
                    }
                    proof {
                        assert(jsons(parts@).take(i as int) =~= jsons(parts@));
                    }
                    join(&found, "\n")
                },
                None => String::new(),
            },
        },
        None => String::new(),
    }
}

/// A tool's result as the prompt shows it.
pub open spec fn shown_result(m: JsonV) -> Seq<char> {
    let id = match m.text_at("tool_call_id"@) {
        Some(s) => s,
        None => ""@,
    };
    RESPONSE_OPEN@ + "{\"tool_call_id\": "@ + debug_text(id) + ", \"content\": "@ + debug_text(
        message_text(m),
    ) + "}"@ + RESPONSE_CLOSE@
}

fn render_result(m: &Json) -> (r: String)
    ensures
        r@ == shown_result(m@),
{
    let id = match m.get_str("tool_call_id") {
        Some(s) => owned(s),
        None => owned(""),
    };
    let body = text_content(m);
    let mut out = owned(RESPONSE_OPEN);
    out.push_str("{\"tool_call_id\": ");
    let q = debug_of(id.as_str());
    out.push_str(q.as_str());
    out.push_str(", \"content\": ");
    let q2 = debug_of(body.as_str());
    out.push_str(q2.as_str());
    out.push_str("}");
    out.push_str(RESPONSE_CLOSE);
    out
}

/// A call of a tool as the prompt shows it.
pub open spec fn shown_call(call: JsonV) -> Seq<char> {
    let f = crate::local::tools::tool_function(call);
    let name = match f.text_at("name"@) {
        Some(s) => s,
        None => ""@,
    };
    let args = match f.get("arguments"@) {
        Some(a) => a,
        None => JsonV::empty(),
    };
    OPEN@ + "{\"name\": "@ + debug_text(name) + ", \"arguments\": "@ + text_of_json(args) + "}"@
        + CLOSE@
}

fn render_call(call: &Json) -> (r: String)
    ensures
        r@ == shown_call(call@),
        was_shown(call@),
{
    let f = match call.get("function") {
        Some(f) => f,
        None => call,
    };
    let name = match f.get_str("name") {
        Some(s) => owned(s),
        None => owned(""),
    };
    let args = match f.get("arguments") {
        Some(a) => a.print(),
        None => Json::object().print(),
    };
    let mut out = owned(OPEN);
    out.push_str("{\"name\": ");
    let q = debug_of(name.as_str());
    out.push_str(q.as_str());
    out.push_str(", \"arguments\": ");
    out.push_str(args.as_str());
    out.push_str("}");
    out.push_str(CLOSE);
    out
}

/// A text followed by the calls, each on a line of its own.
pub open spec fn with_calls(content: Seq<char>, calls: Seq<JsonV>) -> Seq<char>
    decreases calls.len(),
{
    if calls.len() == 0 {
        content
    } else {
        let before = with_calls(content, calls.drop_last());
        (if before.len() > 0 {
            before + "\n"@
        } else {
            before
        }) + shown_call(calls.last())
    }
}

/// A turn of the assistant as the prompt shows it: its text and the calls it made.
pub open spec fn assistant_text(m: JsonV) -> Seq<char> {
    match m.at("tool_calls"@) {
        JsonV::Arr(calls) => with_calls(message_text(m), calls),
        _ => message_text(m),
    }
}

fn render_assistant(m: &Json) -> (r: String)
    ensures
        r@ == assistant_text(m@),
        calls_were_shown(m@),
{
    let mut content = text_content(m);
    let calls = match m.get("tool_calls") {
        Some(c) => match c.as_array() {
            Some(v) => v,
            None => return content,
        },
        None => return content,
    };
    let mut i: usize = 0;
    while i < calls.len()
        invariant
            i <= calls@.len(),
            content@ == with_calls(message_text(m@), jsons(calls@).take(i as int)),
            forall|k: int| 0 <= k < i ==> was_shown((#[trigger] calls@[k])@),
        decreases calls@.len() - i,
    {
        let ghost before = content@;
        if !content.as_str().is_empty() {
            content.push_str("\n");
        }
        let shown = render_call(&calls[i]);
        content.push_str(shown.as_str());
        i += 1;
        proof {
            let t = jsons(calls@);
            assert(t.take(i as int).drop_last() =~= t.take(i - 1));
            assert(t.take(i as int).last() == calls@[i - 1]@);
        }
    }
    proof {
        let t = jsons(calls@);
        assert(t.take(i as int) =~= t);
        assert forall|k: int| 0 <= k < t.len() implies was_shown(#[trigger] t[k]) by {
            assert(was_shown(calls@[k]@));
        }
    }
    content
}

/// A role and a text.
pub type PairV = (Seq<char>, Seq<char>);

/// The models of a list of roles and texts.
pub open spec fn pairs_model(v: Seq<(String, String)>) -> Seq<PairV> {
    v.map_values(|p: (String, String)| (p.0@, p.1@))
}

/// The turns so far, with one message added. `block` is what tells the model of its
/// tools, `None` when there are none or it stands already.
pub open spec fn add_message(pairs: Seq<PairV>, block: Option<Seq<char>>, m: JsonV) -> Seq<PairV> {
    match m.text_at("role"@) {
        None => pairs,
        Some(role) => if role == "tool"@ {
            if pairs.len() > 0 && pairs.last().0 == "user"@ && RESPONSE_OPEN@.is_prefix_of(
                pairs.last().1,
            ) {
                pairs.drop_last().push(("user"@, pairs.last().1 + "\n"@ + shown_result(m)))
            } else {
                pairs.push(("user"@, shown_result(m)))
            }
        } else if role == "assistant"@ {
            pairs.push(("assistant"@, assistant_text(m)))
        } else if role == "system"@ && block is Some {
            pairs.push(("system"@, message_text(m) + block->0))
        } else {
            pairs.push((role, message_text(m)))
        },
    }
}

/// Some message is a system message.
pub open spec fn has_system(messages: Seq<JsonV>) -> bool {
    exists|i: int|
        0 <= i < messages.len() && (#[trigger] messages[i]).text_at("role"@) == Some("system"@)
}

/// The messages as turns. The tool block goes on the first system message.
pub open spec fn flattened(messages: Seq<JsonV>, block: Option<Seq<char>>) -> Seq<PairV>
    decreases messages.len(),
{
    if messages.len() == 0 {
        Seq::empty()
    } else {
        let before = messages.drop_last();
        add_message(
            flattened(before, block),
            if has_system(before) {
                None
            } else {
                block
            },
            messages.last(),
        )
    }
}

/// What tells the model of its tools; `None` without tools.
pub open spec fn tools_block(tools: Seq<JsonV>) -> Option<Seq<char>> {
    if tools.len() > 0 {
        Some(block_head() + tool_lines(tools))
    } else {
        None
    }
}

/// The turns that the chat template renders. Where no system message can carry the tool
/// block, it comes first in one of its own.
pub open spec fn template_turns(messages: Seq<JsonV>, tools: Seq<JsonV>) -> Seq<PairV> {
    let block = tools_block(tools);
    let pairs = flattened(messages, block);
    if block is Some && !has_system(messages) {
        seq![("system"@, trim_start(block->0))] + pairs
    } else {
        pairs
    }
}

proof fn has_system_step(messages: Seq<JsonV>, i: int)
    requires
        0 <= i < messages.len(),
    ensures
        has_system(messages.take(i + 1)) == (has_system(messages.take(i))
            || messages[i].text_at("role"@) == Some("system"@)),
        messages.take(i + 1).drop_last() == messages.take(i),
        messages.take(i + 1).last() == messages[i],
{
    let a = messages.take(i);
    let b = messages.take(i + 1);
    assert(b.drop_last() =~= a);
    assert(b[i] == messages[i]);
    if has_system(a) {
        let k = choose|k: int|
            0 <= k < a.len() && (#[trigger] a[k]).text_at("role"@) == Some("system"@);
        assert(b[k] == a[k]);
    }
    if has_system(b) {
        let k = choose|k: int|
            0 <= k < b.len() && (#[trigger] b[k]).text_at("role"@) == Some("system"@);
        if k < i {
            assert(a[k] == b[k]);
        }
    }
}

/// The messages of a conversation as the roles and texts that a chat template takes. A turn
/// that made calls is shown in such a way that it is read as those calls again.
pub fn flatten_for_template(messages: &[Json], tools: &[Json]) -> (r: Vec<(String, String)>)
    ensures
        pairs_model(r@) == template_turns(jsons(messages@), jsons(tools@)),
        forall|i: int|
            0 <= i < messages@.len() ==> turn_is_read_again(
                (#[trigger] messages@[i])@,
                tool_names(jsons(tools@)),
            ),
{
    let mut pairs: Vec<(String, String)> = Vec::new();
    let mut injected = false;
    let ghost ms = jsons(messages@);
    let ghost block = tools_block(jsons(tools@));
    let mut i: usize = 0;
    proof {
        assert(pairs_model(pairs@) =~= flattened(ms.take(0), block));
        assert(!has_system(ms.take(0)));
    }
    while i < messages.len()
        invariant
            i <= messages@.len(),
            ms == jsons(messages@),
            block == tools_block(jsons(tools@)),
            pairs_model(pairs@) == flattened(ms.take(i as int), block),
            injected == (block is Some && has_system(ms.take(i as int))),
            forall|k: int|
                0 <= k < i ==> turn_is_read_again(
                    (#[trigger] messages@[k])@,
                    tool_names(jsons(tools@)),
                ),
        decreases messages@.len() - i,
    {
        let m = &messages[i];
        let ghost before = pairs@;
        let ghost live = if has_system(ms.take(i as int)) {
            None
        } else {
            block
        };
        proof {
            has_system_step(ms, i as int);
        }
        match m.get_str("role") {
            None => {},
            Some(role) => {
                if same(role, "tool") {
                    let rendered = render_result(m);
                    let n: usize = pairs.len();
                    if n > 0 && same(pairs[n - 1].0.as_str(), "user") && starts_with(
                        pairs[n - 1].1.as_str(),
                        RESPONSE_OPEN,
                    ) {
                        let mut text = owned(pairs[n - 1].1.as_str());
                        text.push_str("\n");
                        text.push_str(rendered.as_str());
                        pairs.pop();
                        pairs.push((owned("user"), text));
                        proof {
                            assert(pairs_model(pairs@) =~= pairs_model(before).drop_last().push(
                                ("user"@, text@),
                            ));
                        }
                    } else {
                        pairs.push((owned("user"), rendered));
                        proof {
                            assert(pairs_model(pairs@) =~= pairs_model(before).push(
                                ("user"@, rendered@),
                            ));
                        }
                    }
                } else if same(role, "assistant") {
                    let text = render_assistant(m);
                    pairs.push((owned("assistant"), text));
                    proof {
                        shown_turns_are_read_again(m@, tool_names(jsons(tools@)));
                        assert(pairs_model(pairs@) =~= pairs_model(before).push(
                            ("assistant"@, text@),
                        ));
                    }
                } else if same(role, "system") && !injected && tools.len() > 0 {
                    injected = true;
                    let mut text = text_content(m);
                    let b = tool_system_block(tools);
                    text.push_str(b.as_str());
                    pairs.push((owned("system"), text));
                    proof {
                        assert(pairs_model(pairs@) =~= pairs_model(before).push(
                            ("system"@, text@),
                        ));
                    }
                } else {
                    let text = text_content(m);
                    pairs.push((owned(role), text));
                    proof {
                        assert(pairs_model(pairs@) =~= pairs_model(before).push((role@, text@)));
                    }
                }
            },
        }
        proof {
            reveal_strlit("tool");
            reveal_strlit("system");
            reveal_strlit("assistant");
            assert("tool"@.len() == 4 && "system"@.len() == 6 && "assistant"@.len() == 9);
            assert(add_message(pairs_model(before), live, m@) == pairs_model(pairs@));
        }
        i += 1;
    }
    proof {
        assert(ms.take(i as int) =~= ms);
    }
    if !injected && tools.len() > 0 {
        let ghost before = pairs@;
        let b = tool_system_block(tools);
        let t = trim_left(b.as_str());
        pairs.insert(0, (owned("system"), t));
        proof {
            assert(pairs_model(pairs@) =~= seq![("system"@, t@)] + pairs_model(before));
        }
    }
    pairs
}

/// No turn keeps the `tool` role, which most templates cannot render.
pub proof fn no_tool_turns(messages: Seq<JsonV>, tools: Seq<JsonV>)
    ensures
        forall|i: int|
            0 <= i < template_turns(messages, tools).len() ==> (#[trigger] template_turns(
                messages,
                tools,
            )[i]).0 != "tool"@,
{
    flattened_has_no_tool(messages, tools_block(tools));
    reveal_strlit("tool");
    reveal_strlit("system");
    assert("tool"@.len() != "system"@.len());
}

proof fn flattened_has_no_tool(messages: Seq<JsonV>, block: Option<Seq<char>>)
    ensures
        forall|i: int|
            0 <= i < flattened(messages, block).len() ==> (#[trigger] flattened(
                messages,
                block,
            )[i]).0 != "tool"@,
    decreases messages.len(),
{
    reveal_strlit("tool");
    reveal_strlit("user");
    reveal_strlit("system");
    reveal_strlit("assistant");
    assert("tool"@[0] != "user"@[0]);
    assert("tool"@.len() != "system"@.len() && "tool"@.len() != "assistant"@.len());
    if messages.len() > 0 {
        let prev = flattened(messages.drop_last(), block);
        let out = flattened(messages, block);
        flattened_has_no_tool(messages.drop_last(), block);
        assert forall|i: int| 0 <= i < out.len() implies (#[trigger] out[i]).0 != "tool"@ by {
            if i < prev.len() {
                assert(prev[i].0 != "tool"@);
            }
        }
    }
}

/// Where a turn offers tools, the prompt tells the model of them in a system turn.
pub proof fn tools_are_announced(messages: Seq<JsonV>, tools: Seq<JsonV>)
    requires
        tools.len() > 0,
    ensures
        exists|i: int|
            0 <= i < template_turns(messages, tools).len() && (#[trigger] template_turns(
                messages,
                tools,
            )[i]).0 == "system"@ && (tools_block(tools)->0.is_suffix_of(
                template_turns(messages, tools)[i].1,
            ) || template_turns(messages, tools)[i].1 == trim_start(tools_block(tools)->0)),
{
    let block = tools_block(tools);
    let out = template_turns(messages, tools);
    if has_system(messages) {
        flattened_announces(messages, block);
        let i = choose|i: int|
            0 <= i < flattened(messages, block).len() && (#[trigger] flattened(
                messages,
                block,
            )[i]).0 == "system"@ && block->0.is_suffix_of(flattened(messages, block)[i].1);
        assert(out[i].0 == "system"@);
    } else {
        assert(out[0].0 == "system"@);
    }
}

proof fn flattened_announces(messages: Seq<JsonV>, block: Option<Seq<char>>)
    requires
        block is Some,
        has_system(messages),
    ensures
        exists|i: int|
            0 <= i < flattened(messages, block).len() && (#[trigger] flattened(
                messages,
                block,
            )[i]).0 == "system"@ && block->0.is_suffix_of(flattened(messages, block)[i].1),
    decreases messages.len(),
{
    reveal_strlit("tool");
    reveal_strlit("user");
    reveal_strlit("system");
    reveal_strlit("assistant");
    assert("user"@.len() != "system"@.len());
    assert("tool"@.len() != "system"@.len());
    assert("assistant"@.len() != "system"@.len());
    let before = messages.drop_last();
    let prev = flattened(before, block);
    let out = flattened(messages, block);
    assert(messages.take(messages.len() as int) =~= messages);
    has_system_step(messages, messages.len() - 1);
    assert(messages.take(messages.len() - 1) =~= before);
    if has_system(before) {
        flattened_announces(before, block);
        let i = choose|i: int|
            0 <= i < prev.len() && (#[trigger] prev[i]).0 == "system"@ && block->0.is_suffix_of(
                prev[i].1,
            );
        assert(out[i] == prev[i]);
    } else {
        let n = prev.len() as int;
        let own = message_text(messages.last());
        assert(out[n].0 == "system"@);
        assert((own + block->0).skip(own.len() as int) =~= block->0);
        assert((own + block->0).subrange(own.len() as int, (own + block->0).len() as int)
            =~= block->0);
    }
}

/// The turns as a plain transcript that ends where the assistant speaks.
pub open spec fn transcript(pairs: Seq<PairV>) -> Seq<char>
    decreases pairs.len(),
{
    if pairs.len() == 0 {
        Seq::empty()
    } else {
        transcript(pairs.drop_last()) + pairs.last().0 + ": "@ + pairs.last().1 + "\n"@
    }
}

/// The prompt for a model that has no chat template.
pub fn plain_transcript(pairs: &Vec<(String, String)>) -> (r: String)
    ensures
        r@ == transcript(pairs_model(pairs@)) + "assistant: "@,
{
    let mut s = String::new();
    let mut i: usize = 0;
    while i < pairs.len()
        invariant
            i <= pairs@.len(),
            s@ == transcript(pairs_model(pairs@).take(i as int)),
        decreases pairs@.len() - i,
    {
        s.push_str(pairs[i].0.as_str());
        s.push_str(": ");
        s.push_str(pairs[i].1.as_str());
        s.push_str("\n");
        i += 1;
        proof {
            let t = pairs_model(pairs@);
            assert(t.take(i as int).drop_last() =~= t.take(i - 1));
            assert(t.take(i as int).last() == (pairs@[i - 1].0@, pairs@[i - 1].1@));
        }
    }
    proof {
        assert(pairs_model(pairs@).take(i as int) =~= pairs_model(pairs@));
    }
    s.push_str("assistant: ");
    s
}

/// The turns to render; an error where there is none.
pub fn prompt_turns(messages: &[Json], tools: &[Json]) -> (r: Result<
    Vec<(String, String)>,
    ProviderError,
>)
    ensures
        match r {
            Ok(pairs) => pairs_model(pairs@) == template_turns(jsons(messages@), jsons(tools@))
                && pairs@.len() > 0,
            Err(e) => template_turns(jsons(messages@), jsons(tools@)).len() == 0 && (
            e matches ProviderError::Other {
                user_message,
                raw_message,
                http_status,
                retry_after_secs,
            } && user_message@ == "no messages to send"@ && raw_message@ == "empty message list"@
                && http_status == 400 && retry_after_secs is None),
        },
{
    let pairs = flatten_for_template(messages, tools);
    if pairs.len() == 0 {
        return Err(
            ProviderError::Other {
                user_message: owned("no messages to send"),
                raw_message: owned("empty message list"),
                http_status: 400,
                retry_after_secs: None,
            },
        );
    }
    Ok(pairs)
}

/// The in-process engine as a provider.
pub struct LocalProvider {
    pub provider_id: String,
    pub cfg: LocalEngineConfig,
    /// The name under which the model is reported.
    pub model_label: String,
}

/// The state of the provider, from whether the model is resident and whether its file is there.
pub open spec fn is_health(r: HealthStatus, cfg: LocalEngineConfig, resident: bool, is_file: bool) -> bool {
    let path = trimmed(cfg.model_path@);
    if !cfg.enabled {
        r.status@ == "disconnected"@ && r.latency_ms is None && opt_string(r.error) == Some(
            "local engine disabled"@,
        )
    } else if path.len() == 0 {
        r.status@ == "disconnected"@ && r.latency_ms is None && opt_string(r.error) == Some(
            "no local model configured"@,
        )
    } else if resident {
        r.status@ == "connected"@ && opt_string(r.latency_ms) == Some("0.0"@) && r.error is None
    } else if is_file {
        r.status@ == "connected"@ && r.latency_ms is None && r.error is None
    } else {
        r.status@ == "disconnected"@ && r.latency_ms is None && opt_string(r.error) == Some(
            "model file not found: "@ + path,
        )
    }
}

/// The model that is reported.
pub open spec fn reported_model(asked: Option<Seq<char>>, label: Seq<char>) -> Seq<char> {
    match filled(asked) {
        Some(m) => m,
        None => label,
    }
}

/// The tools of a turn.
pub open spec fn turn_tools(tool_calls: bool, tools: Option<Seq<JsonV>>) -> Seq<JsonV> {
    if tool_calls && tools is Some {
        tools->0
    } else {
        Seq::empty()
    }
}

/// The models that are offered.
pub open spec fn offered_models(
    cfg: LocalEngineConfig,
    label: Seq<char>,
    provider_id: Seq<char>,
    resident_n_ctx: Option<u32>,
) -> Seq<ModelInfoV> {
    if trimmed(cfg.model_path@).len() == 0 {
        Seq::empty()
    } else {
        seq![
            ModelInfoV {
                id: label,
                name: Some(label),
                provider_id: Some(provider_id),
                context_length: Some(
                    (match resident_n_ctx {
                        Some(n) => n,
                        None => if cfg.n_ctx > 0 {
                            cfg.n_ctx
                        } else {
                            AUTO_N_CTX_FALLBACK
                        },
                    }) as i32,
                ),
            },
        ]
    }
}

impl LocalProvider {
    /// The provider of a model whose file has the given name.
    pub fn with_stem(provider_id: &str, cfg: LocalEngineConfig, stem: Option<String>) -> (r:
        LocalProvider)
        ensures
            r.provider_id@ == provider_id@,
            r.cfg == cfg,
            r.model_label@ == (match stem {
                Some(s) => s@,
                None => "local"@,
            }),
    {
        let model_label = match stem {
            Some(s) => s,
            None => owned("local"),
        };
        LocalProvider { provider_id: owned(provider_id), cfg, model_label }
    }

    /// The provider of the configured model, which is reported under the name of its file.
    pub fn new(provider_id: &str, cfg: LocalEngineConfig) -> (r: LocalProvider)
        ensures
            r.provider_id@ == provider_id@,
            r.cfg == cfg,
            contains_text(cfg.model_path@, r.model_label@) || r.model_label@ == "local"@,
            same_everywhere(cfg.model_path@) ==> r.model_label@ == stem_of(
                last_name(cfg.model_path@),
            ),
    {
        let stem = file_stem(cfg.model_path.as_str());
        LocalProvider::with_stem(provider_id, cfg, stem)
    }

    /// The model that is reported: the caller's name for it, else its own.
    pub fn resolve_model(&self, override_model: Option<&str>) -> (r: String)
        ensures
            r@ == reported_model(opt_text(override_model), self.model_label@),
    {
        match override_model {
            Some(m) => if m.is_empty() {
                self.model_label.clone()
            } else {
                owned(m)
            },
            None => self.model_label.clone(),
        }
    }

    /// Whether tools can be called, which the operator may turn off.
    pub fn supports_tools(&self) -> (r: bool)
        ensures
            r == self.cfg.tool_calls,
    {
        self.cfg.tool_calls
    }

    /// The tools of a turn: none where calling is turned off, whatever the caller sent.
    pub fn tools_for_turn(&self, tools: Option<Vec<Json>>) -> (r: Vec<Json>)
        ensures
            jsons(r@) == turn_tools(self.cfg.tool_calls, crate::provider::openai_compat::opt_jsons(tools)),
    {
        if self.cfg.tool_calls {
            match tools {
                Some(t) => {
                    return t;
                },
                None => {},
            }
        }
        let none: Vec<Json> = Vec::new();
        proof {
            assert(jsons(none@) =~= Seq::empty());
        }
        none
    }

    /// The one model that is offered, where one is configured. Its context is that of the
    /// resident model, or what is advertised before it is loaded.
    pub fn discover_models(&self, resident_n_ctx: Option<u32>) -> (r: Vec<ModelInfo>)
        ensures
            models_model(r@) == offered_models(
                self.cfg,
                self.model_label@,
                self.provider_id@,
                resident_n_ctx,
            ),
    {
        let mut out: Vec<ModelInfo> = Vec::new();
        let t = trim(self.cfg.model_path.as_str());
        if t.as_str().is_empty() {
            proof {
                assert(models_model(out@) =~= Seq::empty());
            }
            return out;
        }
        let n: u32 = match resident_n_ctx {
            Some(n) => n,
            None => registration_n_ctx(&self.cfg),
        };
        let m = ModelInfo {
            id: self.model_label.clone(),
            name: Some(self.model_label.clone()),
            provider_id: Some(self.provider_id.clone()),
            context_length: Some(#[verifier::truncate] (n as i32)),
        };
        out.push(m);
        proof {
            assert(models_model(out@) =~= seq![m@]);
        }
        out
    }

    /// The state of the provider, from whether the model is resident and whether its file is
    /// there. Nothing is loaded to find out.
    pub fn check_health(&self, resident: bool, is_file: bool) -> (r: HealthStatus)
        ensures
            is_health(r, self.cfg, resident, is_file),
    {
        let path = trim(self.cfg.model_path.as_str());
        if !self.cfg.enabled {
            HealthStatus {
                status: owned("disconnected"),
                latency_ms: None,
                error: Some(owned("local engine disabled")),
            }
        } else if path.as_str().is_empty() {
            HealthStatus {
                status: owned("disconnected"),
                latency_ms: None,
                error: Some(owned("no local model configured")),
            }
        } else if resident {
            HealthStatus { status: owned("connected"), latency_ms: Some(owned("0.0")), error: None }
        } else if is_file {
            HealthStatus { status: owned("connected"), latency_ms: None, error: None }
        } else {
            HealthStatus {
                status: owned("disconnected"),
                latency_ms: None,
                error: Some(join2("model file not found: ", path.as_str())),
            }
        }
    }
}

/// The error of a model that cannot be had.
pub fn unavailable(reason: &str) -> (r: ProviderError)
    ensures
        r matches ProviderError::Other {
            user_message,
            raw_message,
            http_status,
            retry_after_secs,
        } && user_message@ == "local model unavailable: "@ + reason@ && raw_message@ == reason@
            && http_status == 503 && retry_after_secs is None,
{
    ProviderError::Other {
        user_message: join2("local model unavailable: ", reason),
        raw_message: owned(reason),
        http_status: 503,
        retry_after_secs: None,
    }
}

/// The text of a message is its content, or the texts of its parts, in order and each on a line
/// of its own; a message without content has none.
pub proof fn messages_have_their_text(m: JsonV, parts: Seq<JsonV>, part: JsonV)
    ensures
        m.at("content"@) matches JsonV::Str(s) ==> message_text(m) == s,
        m.at("content"@) matches JsonV::Arr(ps) ==> message_text(m) == joined(part_texts(ps), "\n"@),
        m.get("content"@) is None ==> message_text(m).len() == 0,
        part_texts(Seq::empty()).len() == 0,
        part.at("text"@) matches JsonV::Str(t) ==> part_texts(parts.push(part)) == part_texts(
            parts,
        ).push(t),
        !(part.at("text"@) is Str) ==> part_texts(parts.push(part)) == part_texts(parts),
{
    assert(parts.push(part).drop_last() =~= parts);
}

/// A result is shown between its tags, under the call that it answers; a call is shown between
/// its tags as it would be made: its name and its arguments.
pub proof fn results_and_calls_are_shown_in_tags(m: JsonV, call: JsonV, content: Seq<char>, calls: Seq<JsonV>)
    ensures
        shown_result(m) == "<tool_response>"@ + "{\"tool_call_id\": "@ + debug_text(
            match m.at("tool_call_id"@) {
                JsonV::Str(id) => id,
                _ => ""@,
            },
        ) + ", \"content\": "@ + debug_text(message_text(m)) + "}"@ + "</tool_response>"@,
        call.at("function"@) is Obj ==> shown_call(call) == "<tool_call>"@ + "{\"name\": "@
            + debug_text(
            match call.at("function"@).at("name"@) {
                JsonV::Str(n) => n,
                _ => ""@,
            },
        ) + ", \"arguments\": "@ + text_of_json(
            match call.at("function"@).get("arguments"@) {
                Some(a) => a,
                None => JsonV::empty(),
            },
        ) + "}"@ + "</tool_call>"@,
        with_calls(content, Seq::empty()) == content,
        with_calls(content, calls.push(call)) == (if with_calls(content, calls).len() > 0 {
            with_calls(content, calls) + "\n"@ + shown_call(call)
        } else {
            with_calls(content, calls) + shown_call(call)
        }),
        m.at("tool_calls"@) matches JsonV::Arr(made) ==> assistant_text(m) == with_calls(
            message_text(m),
            made,
        ),
        !(m.at("tool_calls"@) is Arr) ==> assistant_text(m) == message_text(m),
{
    assert(calls.push(call).drop_last() =~= calls);
}

/// A message becomes a turn of its role with its text: a turn of the assistant with the calls
/// that it made, a result as a turn of the user. Results that follow one another are one turn.
/// A system message carries what tells of the tools, where that is still to be told. A message
/// without a role is passed over.
pub proof fn messages_become_turns(pairs: Seq<PairV>, block: Option<Seq<char>>, m: JsonV)
    ensures
        ({
            let now = add_message(pairs, block, m);
            let role = m.at("role"@);
            &&& !(role is Str) ==> now == pairs
            &&& role == JsonV::Str("assistant"@) ==> now == pairs.push(
                ("assistant"@, assistant_text(m)),
            )
            &&& role == JsonV::Str("user"@) ==> now == pairs.push(("user"@, message_text(m)))
            &&& role == JsonV::Str("system"@) && block is None ==> now == pairs.push(
                ("system"@, message_text(m)),
            )
            &&& role == JsonV::Str("system"@) && block is Some ==> now == pairs.push(
                ("system"@, message_text(m) + block->0),
            )
            &&& role == JsonV::Str("tool"@) ==> (if pairs.len() > 0 && pairs.last().0 == "user"@
                && "<tool_response>"@.is_prefix_of(pairs.last().1) {
                now == pairs.drop_last().push(("user"@, pairs.last().1 + "\n"@ + shown_result(m)))
            } else {
                now == pairs.push(("user"@, shown_result(m)))
            })
        }),
{
    reveal_strlit("tool");
    reveal_strlit("user");
    reveal_strlit("system");
    reveal_strlit("assistant");
    assert("tool"@[0] == 't' && "user"@[0] == 'u' && "system"@.len() == 6 && "assistant"@.len() == 9
        && "tool"@.len() == 4 && "user"@.len() == 4);
}

/// The messages become turns in their order, and the tools are told once: on the first system
/// message, or in a system turn of their own that comes first. Without tools nothing is told.
pub proof fn conversations_become_turns(messages: Seq<JsonV>, m: JsonV, tools: Seq<JsonV>)
    ensures
        flattened(Seq::empty(), tools_block(tools)).len() == 0,
        flattened(messages.push(m), tools_block(tools)) == add_message(
            flattened(messages, tools_block(tools)),
            if exists|i: int|
                0 <= i < messages.len() && (#[trigger] messages[i]).text_at("role"@) == Some(
                    "system"@,
                ) {
                None
            } else {
                tools_block(tools)
            },
            m,
        ),
        tools.len() == 0 ==> template_turns(messages, tools) == flattened(messages, None),
        tools.len() > 0 ==> tools_block(tools) == Some(block_head() + tool_lines(tools)),
        tools.len() > 0 && has_system(messages) ==> template_turns(messages, tools) == flattened(
            messages,
            tools_block(tools),
        ),
        tools.len() > 0 && !has_system(messages) ==> template_turns(messages, tools) == seq![
            ("system"@, trim_start(block_head() + tool_lines(tools))),
        ] + flattened(messages, tools_block(tools)),
{
    assert(messages.push(m).drop_last() =~= messages);
    assert(messages.push(m).last() == m);
}

/// A transcript names who speaks before each text, one turn a line.
pub proof fn transcripts_name_who_speaks(pairs: Seq<PairV>, role: Seq<char>, text: Seq<char>)
    ensures
        transcript(Seq::empty()).len() == 0,
        transcript(pairs.push((role, text))) == transcript(pairs) + role + ": "@ + text + "\n"@,
{
    assert(pairs.push((role, text)).drop_last() =~= pairs);
}

/// The engine is up just where it is on, a model is configured, and the model is resident or its
/// file is there; else it is told why not.
pub proof fn the_engine_is_up_where_its_model_is(
    r: HealthStatus,
    cfg: LocalEngineConfig,
    resident: bool,
    is_file: bool,
)
    requires
        is_health(r, cfg, resident, is_file),
    ensures
        r.status@ == "connected"@ <==> cfg.enabled && trimmed(cfg.model_path@).len() > 0 && (
        resident || is_file),
        r.status@ == "connected"@ || r.status@ == "disconnected"@,
        r.error is None <==> r.status@ == "connected"@,
{
    reveal_strlit("connected");
    reveal_strlit("disconnected");
    assert("connected"@.len() == 9 && "disconnected"@.len() == 12);
}

/// The model is reported under the caller's name for it, where there is one; the tools of a turn
/// are the caller's, where calling is not turned off; and the one model that is offered has the
/// context that it was loaded with, or the one that is configured.
pub proof fn the_engine_offers_its_model(
    cfg: LocalEngineConfig,
    label: Seq<char>,
    provider_id: Seq<char>,
    n_ctx: u32,
    asked: Seq<char>,
    tools: Seq<JsonV>,
)
    requires
        trimmed(cfg.model_path@).len() > 0,
        n_ctx <= i32::MAX,
        0 < cfg.n_ctx <= i32::MAX,
    ensures
        asked.len() > 0 ==> reported_model(Some(asked), label) == asked,
        reported_model(None, label) == label,
        turn_tools(true, Some(tools)) == tools,
        turn_tools(false, Some(tools)).len() == 0,
        turn_tools(true, None).len() == 0,
        ({
            let m = offered_models(cfg, label, provider_id, Some(n_ctx));
            &&& m.len() == 1
            &&& m[0].id == label && m[0].name == Some(label)
            &&& m[0].provider_id == Some(provider_id)
            &&& m[0].context_length == Some(n_ctx as i32)
        }),
        offered_models(cfg, label, provider_id, None)[0].context_length == Some(cfg.n_ctx as i32),
{
}

/// A list of turns is modelled turn by turn, in its order: who speaks, then what is said.
pub proof fn lists_of_turns_lose_nothing(v: Seq<(String, String)>, i: int)
    requires
        0 <= i < v.len(),
    ensures
        pairs_model(v).len() == v.len(),
        pairs_model(v)[i].0 == v[i].0@ && pairs_model(v)[i].1 == v[i].1@,
{
}

} // verus!
