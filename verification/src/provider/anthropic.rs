//! Requests to Anthropic's Messages service.

use crate::config::ProviderConfig;
use crate::json::{is_text, jsons, opt_text, put_decimal, put_decimal_v, Json, JsonV};
use crate::provider::base::{ModelInfo, SamplingParams, SamplingV};
use crate::provider::openai_compat::{choose_model, chosen_model, model_entries, models_from, models_model, opt_jsons, others, system_texts};
use crate::text::{join, joined, owned, texts};
use vstd::prelude::*;

verus! {

/// A tool's result as a block of content.
pub open spec fn result_block(m: JsonV) -> JsonV {
    JsonV::empty().put("type"@, JsonV::Str("tool_result"@)).put(
        "tool_use_id"@,
        JsonV::Str(
            match m.text_at("tool_call_id"@) {
                Some(s) => s,
                None => ""@,
            },
        ),
    ).put(
        "content"@,
        match m.text_at("content"@) {
            Some(s) => JsonV::Str(s),
            None => JsonV::Null,
        },
    )
}

/// A message of tool results.
pub open spec fn results_message(blocks: Seq<JsonV>) -> JsonV {
    JsonV::empty().put("role"@, JsonV::Str("user"@)).put("content"@, JsonV::Arr(blocks))
}

/// A tool message.
pub open spec fn is_tool(m: JsonV) -> bool {
    m.at("role"@) == JsonV::Str("tool"@)
}

/// The messages before the tool results at the end, grouped, and those results.
pub open spec fn grouping(ms: Seq<JsonV>) -> (Seq<JsonV>, Seq<JsonV>)
    decreases ms.len(),
{
    if ms.len() == 0 {
        (Seq::empty(), Seq::empty())
    } else {
        let (done, open) = grouping(ms.drop_last());
        if is_tool(ms.last()) {
            (done, open.push(result_block(ms.last())))
        } else {
            (closed_group(done, open).push(ms.last()), Seq::empty())
        }
    }
}

/// The messages with a group of results after them, where there is one.
pub open spec fn closed_group(done: Seq<JsonV>, open: Seq<JsonV>) -> Seq<JsonV> {
    if open.len() > 0 {
        done.push(results_message(open))
    } else {
        done
    }
}

/// The messages with each run of tool results as one message of the user.
pub open spec fn grouped(ms: Seq<JsonV>) -> Seq<JsonV> {
    closed_group(grouping(ms).0, grouping(ms).1)
}

fn block_for(m: &Json) -> (r: Json)
    ensures
        r@ == result_block(m@),
{
    let id = match m.get_str("tool_call_id") {
        Some(s) => Json::string(s),
        None => Json::string(""),
    };
    let content = match m.get_str("content") {
        Some(s) => Json::string(s),
        None => Json::Null,
    };
    Json::object().with("type", Json::string("tool_result")).with("tool_use_id", id).with(
        "content",
        content,
    )
}

fn close_group(done: &mut Vec<Json>, open: Vec<Json>)
    ensures
        jsons(final(done)@) == closed_group(jsons(old(done)@), jsons(open@)),
{
    if open.len() > 0 {
        let ghost before = done@;
        let m = Json::object().with("role", Json::string("user")).with(
            "content",
            Json::array(open),
        );
        done.push(m);
        proof {
            assert(jsons(done@) =~= jsons(before).push(m@));
        }
    }
}

/// The messages with each run of tool results as one message of the user.
pub fn group_tool_results(messages: &Vec<Json>) -> (r: Vec<Json>)
    ensures
        jsons(r@) == grouped(jsons(messages@)),
{
    let ghost ms = jsons(messages@);
    let mut result: Vec<Json> = Vec::new();
    let mut open: Vec<Json> = Vec::new();
    let mut i: usize = 0;
    proof {
        assert(jsons(result@) =~= Seq::empty());
        assert(jsons(open@) =~= Seq::empty());
    }
    while i < messages.len()
        invariant
            i <= messages@.len(),
            ms == jsons(messages@),
            grouping(ms.take(i as int)) == (jsons(result@), jsons(open@)),
        decreases messages@.len() - i,
    {
        let m = &messages[i];
        proof {
            assert(ms.take(i + 1).drop_last() =~= ms.take(i as int));
            assert(ms.take(i + 1).last() == m@);
        }
        if is_text(m.get("role"), "tool") {
            let ghost before = open@;
            let b = block_for(m);
            open.push(b);
            proof {
                assert(jsons(open@) =~= jsons(before).push(b@));
            }
        } else {
            close_group(&mut result, open);
            open = Vec::new();
            let ghost before = result@;
            let c = m.copy();
            result.push(c);
            proof {
                assert(jsons(result@) =~= jsons(before).push(m@));
                assert(jsons(open@) =~= Seq::empty());
            }
        }
        i += 1;
    }
    proof {
        assert(ms.take(i as int) =~= ms);
    }
    close_group(&mut result, open);
    result
}

/// After grouping no message has the `tool` role, which the service does not know.
pub proof fn grouping_leaves_no_tool(ms: Seq<JsonV>)
    ensures
        forall|i: int| 0 <= i < grouped(ms).len() ==> !is_tool(#[trigger] grouped(ms)[i]),
{
    groups_have_no_tool(ms);
    results_are_no_tool(grouping(ms).1);
}

proof fn results_are_no_tool(blocks: Seq<JsonV>)
    ensures
        !is_tool(results_message(blocks)),
{
    reveal_strlit("role");
    reveal_strlit("content");
    reveal_strlit("tool");
    reveal_strlit("user");
    assert("role"@.len() != "content"@.len());
    assert("tool"@[0] != "user"@[0]);
}

proof fn groups_have_no_tool(ms: Seq<JsonV>)
    ensures
        forall|i: int| 0 <= i < grouping(ms).0.len() ==> !is_tool(#[trigger] grouping(ms).0[i]),
    decreases ms.len(),
{
    if ms.len() > 0 {
        groups_have_no_tool(ms.drop_last());
        results_are_no_tool(grouping(ms.drop_last()).1);
    }
}

/// A tool call as a block of content.
pub open spec fn use_block(tc: JsonV) -> JsonV {
    JsonV::empty().put("type"@, JsonV::Str("tool_use"@)).put(
        "id"@,
        JsonV::Str(
            match tc.text_at("id"@) {
                Some(s) => s,
                None => ""@,
            },
        ),
    ).put(
        "name"@,
        JsonV::Str(
            match tc.at("function"@).text_at("name"@) {
                Some(s) => s,
                None => ""@,
            },
        ),
    ).put("input"@, tc.at("function"@).at("arguments"@))
}

/// A message with its tool calls as blocks of content; a message without calls as it is.
pub open spec fn converted(m: JsonV) -> JsonV {
    match m.at("tool_calls"@) {
        JsonV::Arr(calls) => JsonV::empty().put("role"@, JsonV::Str("assistant"@)).put(
            "content"@,
            JsonV::Arr(calls.map_values(|c: JsonV| use_block(c))),
        ),
        _ => m,
    }
}

fn use_block_for(tc: &Json) -> (r: Json)
    ensures
        r@ == use_block(tc@),
{
    let id = match tc.get_str("id") {
        Some(s) => Json::string(s),
        None => Json::string(""),
    };
    let name = match tc.get_str2("function", "name") {
        Some(s) => Json::string(s),
        None => Json::string(""),
    };
    let input = match tc.get("function") {
        Some(f) => match f.get("arguments") {
            Some(a) => a.copy(),
            None => Json::Null,
        },
        None => Json::Null,
    };
    Json::object().with("type", Json::string("tool_use")).with("id", id).with("name", name).with(
        "input",
        input,
    )
}

/// A message with its tool calls as blocks of content.
pub fn convert_tool_calls(m: &Json) -> (r: Json)
    ensures
        r@ == converted(m@),
{
    match m.get_array("tool_calls") {
        Some(calls) => {
            let mut content: Vec<Json> = Vec::new();
            let mut i: usize = 0;
            while i < calls.len()
                invariant
                    i <= calls@.len(),
                    content@.len() == i,
                    forall|k: int|
                        0 <= k < i ==> (#[trigger] content@[k])@ == use_block(calls@[k]@),
                decreases calls@.len() - i,
            {
                content.push(use_block_for(&calls[i]));
                i += 1;
            }
            proof {
                assert(jsons(content@) =~= jsons(calls@).map_values(|c: JsonV| use_block(c)));
            }
            Json::object().with("role", Json::string("assistant")).with(
                "content",
                Json::array(content),
            )
        },
        None => m.copy(),
    }
}

/// The system prompt: all system texts as one, marked for the cache where that is asked.
pub open spec fn system_field(text: Seq<char>, cache_control: bool) -> JsonV {
    if cache_control {
        JsonV::Arr(
            seq![
                JsonV::empty().put("type"@, JsonV::Str("text"@)).put("text"@, JsonV::Str(text)).put(
                    "cache_control"@,
                    JsonV::empty().put("type"@, JsonV::Str("ephemeral"@)),
                ),
            ],
        )
    } else {
        JsonV::Str(text)
    }
}

/// The body of a chat request. Of temperature and `top_p` at most one is sent.
pub open spec fn chat_body_v(
    model: Seq<char>,
    messages: Seq<JsonV>,
    tools: Option<Seq<JsonV>>,
    s: SamplingV,
    cache_control: bool,
) -> JsonV {
    let ms = messages.map_values(|m: JsonV| converted(m));
    let a = JsonV::empty().put("model"@, JsonV::Str(model)).put(
        "messages"@,
        JsonV::Arr(grouped(others(ms))),
    ).put(
        "max_tokens"@,
        JsonV::Int(
            match s.max_tokens {
                Some(n) => n as int,
                None => 4096,
            },
        ),
    ).put("stream"@, JsonV::Bool(true));
    let b = if others(ms).len() < ms.len() {
        a.put("system"@, system_field(joined(system_texts(ms), "\n\n"@), cache_control))
    } else {
        a
    };
    let c = put_decimal_v(b, "temperature"@, s.temperature);
    let d = if s.temperature is None {
        put_decimal_v(c, "top_p"@, s.top_p)
    } else {
        c
    };
    match tools {
        Some(t) => d.put("tools"@, JsonV::Arr(t)),
        None => d,
    }
}

/// The body of a chat request.
pub fn chat_body(
    model: &str,
    messages: Vec<Json>,
    tools: Option<Vec<Json>>,
    sampling: &SamplingParams,
    cache_control: bool,
) -> (r: Json)
    ensures
        r@ == chat_body_v(model@, jsons(messages@), opt_jsons(tools), sampling@, cache_control),
{
    let ghost ms = jsons(messages@).map_values(|m: JsonV| converted(m));
    let mut system: Vec<String> = Vec::new();
    let mut rest: Vec<Json> = Vec::new();
    let mut any_system = false;
    let mut i: usize = 0;
    proof {
        assert(texts(system@) =~= system_texts(ms.take(0)));
        assert(jsons(rest@) =~= others(ms.take(0)));
    }
    while i < messages.len()
        invariant
            i <= messages@.len(),
            ms == jsons(messages@).map_values(|m: JsonV| converted(m)),
            texts(system@) == system_texts(ms.take(i as int)),
            jsons(rest@) == others(ms.take(i as int)),
            jsons(rest@).len() <= i,
            any_system == (others(ms.take(i as int)).len() < i),
        decreases messages@.len() - i,
    {
        let m = convert_tool_calls(&messages[i]);
        let ghost system0 = system@;
        let ghost rest0 = rest@;
        proof {
            assert(ms[i as int] == m@);
            assert(ms.take(i + 1).drop_last() =~= ms.take(i as int));
        }
        if is_text(m.get("role"), "system") {
            any_system = true;
            match m.get_str("content") {
                Some(c) => {
                    system.push(owned(c));
                    proof {
                        assert(texts(system@) =~= texts(system0).push(c@));
                    }
                },
                None => {},
            }
        } else {
            rest.push(m);
            proof {
                assert(jsons(rest@) =~= jsons(rest0).push(m@));
            }
        }
        i += 1;
    }
    proof {
        assert(ms.take(i as int) =~= ms);
    }
    let groups = group_tool_results(&rest);
    let max_tokens: i64 = match sampling.max_tokens {
        Some(n) => n as i64,
        None => 4096,
    };
    let mut body = Json::object().with("model", Json::string(model)).with(
        "messages",
        Json::array(groups),
    ).with("max_tokens", Json::Int(max_tokens)).with("stream", Json::Bool(true));
    if any_system {
        let text = join(&system, "\n\n");
        let field = if cache_control {
            let mut blocks: Vec<Json> = Vec::new();
            let b = Json::object().with("type", Json::string("text")).with(
                "text",
                Json::Str(text),
            ).with("cache_control", Json::object().with("type", Json::string("ephemeral")));
            blocks.push(b);
            proof {
                assert(jsons(blocks@) =~= seq![b@]);
            }
            Json::array(blocks)
        } else {
            Json::Str(text)
        };
        body = body.with("system", field);
    }
    body = put_decimal(body, "temperature", &sampling.temperature);
    if sampling.temperature.is_none() {
        body = put_decimal(body, "top_p", &sampling.top_p);
    }
    match tools {
        Some(t) => {
            body = body.with("tools", Json::array(t));
        },
        None => {},
    }
    body
}

/// The service takes a temperature or a nucleus, not both: a request never names both, and
/// the temperature wins.
pub proof fn temperature_or_nucleus(
    model: Seq<char>,
    messages: Seq<JsonV>,
    tools: Option<Seq<JsonV>>,
    sampling: SamplingV,
    cache_control: bool,
)
    ensures
        ({
            let body = chat_body_v(model, messages, tools, sampling, cache_control);
            &&& body.get("temperature"@) is None || body.get("top_p"@) is None
            &&& sampling.temperature is None ==> body.get("temperature"@) is None
            &&& sampling.temperature is Some ==> body.get("top_p"@) is None
        }),
{
    reveal_strlit("temperature");
    reveal_strlit("top_p");
    reveal_strlit("model");
    reveal_strlit("messages");
    reveal_strlit("max_tokens");
    reveal_strlit("stream");
    reveal_strlit("system");
    reveal_strlit("tools");
    assert("temperature"@.len() == 11 && "top_p"@.len() == 5);
    assert("top_p"@[2] == 'p' && "model"@[2] == 'd' && "tools"@[2] == 'o');
}

/// Anthropic's Messages service.
pub struct AnthropicProvider {
    pub provider_id: String,
    pub config: ProviderConfig,
    /// Whether the system prompt is marked for the cache.
    pub anthropic_cache_control: bool,
    /// The model that is asked where neither the caller nor the configuration names one.
    pub default_model: String,
}

impl AnthropicProvider {
    /// The service under an identifier.
    pub fn new(
        provider_id: &str,
        config: ProviderConfig,
        anthropic_cache_control: bool,
        default_model: &str,
    ) -> (r: AnthropicProvider)
        ensures
            r.provider_id@ == provider_id@,
            r.config == config,
            r.anthropic_cache_control == anthropic_cache_control,
            r.default_model@ == default_model@,
    {
        AnthropicProvider {
            provider_id: owned(provider_id),
            config,
            anthropic_cache_control,
            default_model: owned(default_model),
        }
    }

    /// The model to ask.
    pub fn resolve_model(&self, override_model: Option<&str>) -> (r: String)
        ensures
            r@ == chosen_model(opt_text(override_model), self.config.model@, self.default_model@),
    {
        choose_model(override_model, self.config.model.as_str(), self.default_model.as_str())
    }

    /// Whether a trailing message of the assistant is continued: always.
    pub fn supports_assistant_prefill(&self) -> (r: bool)
        ensures
            r,
    {
        true
    }

    /// The body of a chat request.
    pub fn chat_request(
        &self,
        messages: Vec<Json>,
        tools: Option<Vec<Json>>,
        sampling: &SamplingParams,
        model: Option<&str>,
    ) -> (r: Json)
        ensures
            r@ == chat_body_v(
                chosen_model(opt_text(model), self.config.model@, self.default_model@),
                jsons(messages@),
                opt_jsons(tools),
                sampling@,
                self.anthropic_cache_control,
            ),
    {
        let m = self.resolve_model(model);
        chat_body(m.as_str(), messages, tools, sampling, self.anthropic_cache_control)
    }

    /// The models that an answer lists.
    pub fn listed_models(&self, data: &Json) -> (r: Vec<ModelInfo>)
        ensures
            models_model(r@) == (match data@.at("data"@) {
                JsonV::Arr(items) => model_entries(
                    items,
                    self.provider_id@,
                    seq!["max_model_len"@],
                ),
                _ => Seq::empty(),
            }),
    {
        let mut keys: Vec<String> = Vec::new();
        keys.push(owned("max_model_len"));
        proof {
            assert(texts(keys@) =~= seq!["max_model_len"@]);
        }
        models_from(data, self.provider_id.as_str(), &keys)
    }
}

proof fn member_names_differ()
    ensures
        "model"@.len() == 5,
        "messages"@.len() == 8,
        "max_tokens"@.len() == 10,
        "stream"@.len() == 6,
        "system"@.len() == 6,
        "temperature"@.len() == 11,
        "top_p"@.len() == 5,
        "tools"@.len() == 5,
        "model"@[0] == 'm',
        "top_p"@[0] == 't',
        "tools"@[0] == 't',
        "top_p"@[2] == 'p',
        "tools"@[2] == 'o',
        "stream"@[1] == 't',
        "system"@[1] == 'y',
{
    reveal_strlit("model");
    reveal_strlit("messages");
    reveal_strlit("max_tokens");
    reveal_strlit("stream");
    reveal_strlit("system");
    reveal_strlit("temperature");
    reveal_strlit("top_p");
    reveal_strlit("tools");
}

/// A request names the model, asks for a stream, and has the tools that were given, as they
/// are, or none. The limit is the one that is set, or the service's need of one is met. The
/// temperature is the one that is set; the nucleus is too, where there is no temperature. What
/// is not set is not sent.
pub proof fn requests_say_what_was_asked(
    model: Seq<char>,
    messages: Seq<JsonV>,
    tools: Option<Seq<JsonV>>,
    s: SamplingV,
    cache_control: bool,
)
    ensures
        ({
            let body = chat_body_v(model, messages, tools, s, cache_control);
            &&& body.get("model"@) == Some(JsonV::Str(model))
            &&& body.get("stream"@) == Some(JsonV::Bool(true))
            &&& match tools {
                Some(t) => body.get("tools"@) == Some(JsonV::Arr(t)),
                None => body.get("tools"@) is None,
            }
            &&& body.get("max_tokens"@) == Some(
                match s.max_tokens {
                    Some(n) => JsonV::Int(n as int),
                    None => JsonV::Int(4096),
                },
            )
            &&& match s.temperature {
                Some(t) => body.get("temperature"@) == Some(crate::json::decimal_json(t)),
                None => body.get("temperature"@) is None,
            }
            &&& match (s.temperature, s.top_p) {
                (None, Some(p)) => body.get("top_p"@) == Some(crate::json::decimal_json(p)),
                _ => body.get("top_p"@) is None,
            }
        }),
{
    member_names_differ();
}

/// A message that asks for no tools, in the roles of a conversation.
pub open spec fn is_plain_message(m: JsonV) -> bool {
    &&& !(m.at("tool_calls"@) is Arr)
    &&& m.at("role"@) != JsonV::Str("system"@)
    &&& m.at("role"@) != JsonV::Str("tool"@)
}

proof fn plain_messages_pass(ms: Seq<JsonV>)
    requires
        forall|i: int| 0 <= i < ms.len() ==> is_plain_message(#[trigger] ms[i]),
    ensures
        ms.map_values(|m: JsonV| converted(m)) == ms,
        others(ms) == ms,
        grouping(ms) == (ms, Seq::<JsonV>::empty()),
    decreases ms.len(),
{
    if ms.len() > 0 {
        let before = ms.drop_last();
        assert(forall|i: int| 0 <= i < before.len() ==> #[trigger] before[i] == ms[i]);
        plain_messages_pass(before);
        assert(is_plain_message(ms[ms.len() - 1]));
        assert(before.push(ms.last()) =~= ms);
    }
    assert(grouping(ms).0 =~= ms);
    assert(grouping(ms).1 =~= Seq::empty());
    assert(others(ms) =~= ms);
    assert(ms.map_values(|m: JsonV| converted(m)) =~= ms) by {
        assert forall|i: int| 0 <= i < ms.len() implies #[trigger] converted(ms[i]) == ms[i] by {
            assert(is_plain_message(ms[i]));
        }
    }
}

/// A conversation without system messages and tools is sent as it is, in its order, and
/// without a system prompt.
pub proof fn conversations_are_sent_as_they_are(
    model: Seq<char>,
    messages: Seq<JsonV>,
    tools: Option<Seq<JsonV>>,
    s: SamplingV,
    cache_control: bool,
)
    requires
        forall|i: int| 0 <= i < messages.len() ==> is_plain_message(#[trigger] messages[i]),
    ensures
        ({
            let body = chat_body_v(model, messages, tools, s, cache_control);
            &&& body.get("messages"@) == Some(JsonV::Arr(messages))
            &&& body.get("system"@) is None
        }),
{
    member_names_differ();
    plain_messages_pass(messages);
}

/// System messages leave the conversation and become the system prompt: all their texts, in
/// order, with an empty line between, as a text or, where the cache is asked for, as one block
/// that is marked for it. The others stay.
pub proof fn system_texts_become_the_system_prompt(
    model: Seq<char>,
    system: Seq<JsonV>,
    messages: Seq<JsonV>,
    tools: Option<Seq<JsonV>>,
    s: SamplingV,
    cache_control: bool,
    said: Seq<Seq<char>>,
)
    requires
        system.len() > 0,
        said.len() == system.len(),
        forall|i: int|
            #![trigger system[i]]
            0 <= i < system.len() ==> system[i].at("role"@) == JsonV::Str("system"@)
                && !(system[i].at("tool_calls"@) is Arr) && system[i].at("content"@)
                == JsonV::Str(said[i]),
        forall|i: int| 0 <= i < messages.len() ==> is_plain_message(#[trigger] messages[i]),
    ensures
        ({
            let body = chat_body_v(model, system + messages, tools, s, cache_control);
            let prompt = joined(said, "\n\n"@);
            &&& body.get("messages"@) == Some(JsonV::Arr(messages))
            &&& !cache_control ==> body.get("system"@) == Some(JsonV::Str(prompt))
            &&& cache_control ==> (body.get("system"@) matches Some(JsonV::Arr(blocks))
                && blocks.len() == 1 && blocks[0].at("type"@) == JsonV::Str("text"@)
                && blocks[0].at("text"@) == JsonV::Str(prompt) && blocks[0].at(
                "cache_control"@,
            ).at("type"@) == JsonV::Str("ephemeral"@))
        }),
{
    member_names_differ();
    plain_messages_pass(messages);
    reveal_strlit("type");
    reveal_strlit("text");
    reveal_strlit("cache_control");
    assert("type"@[1] == 'y' && "text"@[1] == 'e' && "cache_control"@.len() == 13);
    let all = system + messages;
    assert(all.map_values(|m: JsonV| converted(m)) =~= all) by {
        assert forall|i: int| 0 <= i < all.len() implies #[trigger] converted(all[i]) == all[i] by {
            if i < system.len() {
                assert(all[i] == system[i]);
            } else {
                assert(all[i] == messages[i - system.len()]);
                assert(is_plain_message(messages[i - system.len()]));
            }
        }
    }
    system_then_others(system, messages, said);
}

proof fn system_then_others(system: Seq<JsonV>, messages: Seq<JsonV>, said: Seq<Seq<char>>)
    requires
        said.len() == system.len(),
        forall|i: int|
            #![trigger system[i]]
            0 <= i < system.len() ==> system[i].at("role"@) == JsonV::Str("system"@)
                && system[i].at("content"@) == JsonV::Str(said[i]),
        forall|i: int| 0 <= i < messages.len() ==> is_plain_message(#[trigger] messages[i]),
    ensures
        others(system + messages) == messages,
        system_texts(system + messages) == said,
    decreases system.len() + messages.len(),
{
    let all = system + messages;
    if messages.len() > 0 {
        let before = messages.drop_last();
        assert(all.drop_last() =~= system + before);
        assert(all.last() == messages.last());
        assert(is_plain_message(messages[messages.len() - 1]));
        assert(forall|i: int| 0 <= i < before.len() ==> #[trigger] before[i] == messages[i]);
        system_then_others(system, before, said);
        assert(before.push(messages.last()) =~= messages);
    } else if system.len() > 0 {
        let n = system.len() - 1;
        let before = system.drop_last();
        assert(all =~= system);
        assert(before + messages =~= before);
        assert(forall|i: int| 0 <= i < before.len() ==> #[trigger] before[i] == system[i]);
        assert(forall|i: int| 0 <= i < n ==> #[trigger] said.drop_last()[i] == said[i]);
        system_then_others(before, messages, said.drop_last());
        assert(all.last() == system[n]);
        assert(said.drop_last().push(said[n]) =~= said);
        assert(all.drop_last() =~= before);
        assert(others(all) =~= messages);
    } else {
        assert(all =~= Seq::empty());
        assert(others(all) =~= messages);
        assert(system_texts(all) =~= said);
    }
}

/// A run of tool results becomes one message of the user that holds them all, in order, each
/// under the call that it answers and with its text; what stands before and after is kept.
pub proof fn results_are_sent_together(ms: Seq<JsonV>, results: Seq<JsonV>)
    requires
        results.len() > 0,
        forall|i: int|
            0 <= i < results.len() ==> (#[trigger] results[i]).at("role"@) == JsonV::Str("tool"@),
        ms.len() > 0 ==> ms.last().at("role"@) != JsonV::Str("tool"@),
    ensures
        ({
            let all = grouped(ms + results);
            &&& all.len() == grouped(ms).len() + 1
            &&& all.drop_last() == grouped(ms)
            &&& all.last().at("role"@) == JsonV::Str("user"@)
            &&& all.last().at("content"@) matches JsonV::Arr(blocks) && blocks.len()
                == results.len() && forall|i: int|
                #![trigger blocks[i]]
                0 <= i < results.len() ==> {
                    &&& blocks[i].at("type"@) == JsonV::Str("tool_result"@)
                    &&& blocks[i].at("tool_use_id"@) == JsonV::Str(
                        match results[i].at("tool_call_id"@) {
                            JsonV::Str(id) => id,
                            _ => ""@,
                        },
                    )
                    &&& blocks[i].at("content"@) == (match results[i].at("content"@) {
                        JsonV::Str(t) => JsonV::Str(t),
                        _ => JsonV::Null,
                    })
                }
        }),
{
    results_gather(ms, results);
    let open = grouping(ms + results).1;
    assert(grouped(ms + results).drop_last() =~= grouped(ms));
    reveal_strlit("role");
    reveal_strlit("content");
    reveal_strlit("type");
    reveal_strlit("tool_use_id");
    assert("role"@.len() == 4 && "content"@.len() == 7 && "type"@.len() == 4 && "tool_use_id"@.len()
        == 11);
    assert forall|i: int| 0 <= i < results.len() implies #[trigger] open[i] == result_block(
        results[i],
    ) by {}
}

proof fn results_gather(ms: Seq<JsonV>, results: Seq<JsonV>)
    requires
        forall|i: int|
            0 <= i < results.len() ==> (#[trigger] results[i]).at("role"@) == JsonV::Str("tool"@),
        ms.len() > 0 ==> ms.last().at("role"@) != JsonV::Str("tool"@),
    ensures
        grouping(ms + results).0 == grouped(ms),
        grouping(ms + results).1 == results.map_values(|m: JsonV| result_block(m)),
    decreases results.len(),
{
    let all = ms + results;
    if results.len() > 0 {
        let before = results.drop_last();
        assert(forall|i: int| 0 <= i < before.len() ==> #[trigger] before[i] == results[i]);
        results_gather(ms, before);
        assert(all.drop_last() =~= ms + before);
        assert(all.last() == results[results.len() - 1]);
        assert(before.map_values(|m: JsonV| result_block(m)).push(result_block(results.last()))
            =~= results.map_values(|m: JsonV| result_block(m)));
    } else {
        assert(all =~= ms);
        assert(results.map_values(|m: JsonV| result_block(m)) =~= Seq::empty());
        assert(grouping(ms).1 =~= Seq::empty());
    }
}

/// A message that is no tool result is kept as it is, after what was grouped before it.
pub proof fn other_messages_end_a_group(ms: Seq<JsonV>, m: JsonV)
    requires
        m.at("role"@) != JsonV::Str("tool"@),
    ensures
        grouped(ms.push(m)) == grouped(ms).push(m),
{
    assert(ms.push(m).drop_last() =~= ms);
}

/// The calls of a message become blocks of the assistant: one for each call, in order, under
/// its identifier, with the name of its tool and its arguments. A message without calls is
/// kept as it is.
pub proof fn calls_become_blocks(m: JsonV)
    ensures
        match m.at("tool_calls"@) {
            JsonV::Arr(calls) => {
                &&& converted(m).at("role"@) == JsonV::Str("assistant"@)
                &&& converted(m).at("content"@) matches JsonV::Arr(blocks) && blocks.len()
                    == calls.len() && forall|i: int|
                    #![trigger blocks[i]]
                    0 <= i < calls.len() ==> {
                        &&& blocks[i].at("type"@) == JsonV::Str("tool_use"@)
                        &&& blocks[i].at("id"@) == JsonV::Str(
                            match calls[i].at("id"@) {
                                JsonV::Str(t) => t,
                                _ => ""@,
                            },
                        )
                        &&& blocks[i].at("name"@) == JsonV::Str(
                            match calls[i].at("function"@).at("name"@) {
                                JsonV::Str(t) => t,
                                _ => ""@,
                            },
                        )
                        &&& blocks[i].at("input"@) == calls[i].at("function"@).at("arguments"@)
                    }
            },
            _ => converted(m) == m,
        },
{
    reveal_strlit("role");
    reveal_strlit("content");
    reveal_strlit("type");
    reveal_strlit("id");
    reveal_strlit("name");
    reveal_strlit("input");
    assert("role"@.len() == 4 && "content"@.len() == 7 && "type"@[0] == 't' && "name"@[0] == 'n'
        && "id"@.len() == 2 && "input"@.len() == 5);
}

} // verus!
