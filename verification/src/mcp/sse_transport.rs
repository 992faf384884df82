//! JSON-RPC over plain POST requests: what is sent and what an answer says.

use crate::error::MCPServerError;
use crate::json::{jsons, Json, JsonV};
use crate::mcp::tools::{content_text, extract_content_from_json_sized};
use crate::models::mcp::{ToolDefinition, ToolV};
use crate::text::{contains_text, find_from_is_first, join2, occurrences_are_replaced, occurs_at, owned, replace_all, replaced_all, strip_suffix};
use vstd::prelude::*;

verus! {

/// The version of the protocol that is spoken.
pub const PROTOCOL_VERSION: &'static str = "2024-11-05";

/// The name under which this client introduces itself.
pub const CLIENT_NAME: &'static str = "bigtiny";

/// The version under which this client introduces itself.
pub const CLIENT_VERSION: &'static str = "0.1.0";

/// The address for messages of a configured address: its last segment `/sse` becomes
/// `/message`. An address that does not end in `/sse` has every `/sse` replaced.
pub open spec fn message_url(url: Seq<char>) -> Seq<char> {
    if "/sse"@.is_suffix_of(url) {
        url.take(url.len() - "/sse"@.len()) + "/message"@
    } else {
        replaced_all(url, "/sse"@, "/message"@)
    }
}

/// The address for messages of a configured address.
pub fn sse_url_to_message_url(url: &str) -> (r: String)
    ensures
        r@ == message_url(url@),
{
    match strip_suffix(url, "/sse") {
        Some(base) => join2(base.as_str(), "/message"),
        None => {
            proof {
                reveal_strlit("/sse");
                assert("/sse"@.len() == 4);
            }
            replace_all(url, "/sse", "/message")
        },
    }
}

/// Only the last segment of an address that ends in `/sse` changes: what stands before it
/// stays, whatever it holds.
pub proof fn only_the_last_segment_changes(base: Seq<char>)
    ensures
        message_url(base + "/sse"@) == base + "/message"@,
{
    let url = base + "/sse"@;
    assert(url.subrange(base.len() as int, url.len() as int) =~= "/sse"@);
    assert(url.take(base.len() as int) =~= base);
}

/// A request.
pub open spec fn request_v(id: i64, method: Seq<char>, params: JsonV) -> JsonV {
    JsonV::empty().put("jsonrpc"@, JsonV::Str("2.0"@)).put("id"@, JsonV::Int(id as int)).put(
        "method"@,
        JsonV::Str(method),
    ).put("params"@, params)
}

/// A notification.
pub open spec fn notification_v(method: Seq<char>, params: JsonV) -> JsonV {
    JsonV::empty().put("jsonrpc"@, JsonV::Str("2.0"@)).put("method"@, JsonV::Str(method)).put(
        "params"@,
        params,
    )
}

/// The parameters of a call.
pub open spec fn call_params_v(tool_name: Seq<char>, args: JsonV) -> JsonV {
    JsonV::empty().put("name"@, JsonV::Str(tool_name)).put("arguments"@, args)
}

/// What the client says of itself.
pub open spec fn introduction() -> JsonV {
    JsonV::empty().put("protocolVersion"@, JsonV::Str(PROTOCOL_VERSION@)).put(
        "capabilities"@,
        JsonV::empty(),
    ).put(
        "clientInfo"@,
        JsonV::empty().put("name"@, JsonV::Str(CLIENT_NAME@)).put(
            "version"@,
            JsonV::Str(CLIENT_VERSION@),
        ),
    )
}

/// The tools that a result lists.
pub open spec fn listed_tools(result: JsonV, server_id: Seq<char>) -> Seq<ToolV> {
    match result.at("tools"@) {
        JsonV::Arr(items) => items.map_values(|t: JsonV| listed_tool(t, server_id)),
        _ => Seq::empty(),
    }
}

/// A notification, to which no answer comes.
pub fn notification(method: &str, params: Json) -> (r: Json)
    ensures
        r@ == notification_v(method@, params@),
{
    Json::object().with("jsonrpc", Json::string("2.0")).with("method", Json::string(method)).with(
        "params",
        params,
    )
}

/// What the client says of itself.
pub fn initialize_params() -> (r: Json)
    ensures
        r@ == introduction(),
{
    Json::object().with("protocolVersion", Json::string(PROTOCOL_VERSION)).with(
        "capabilities",
        Json::object(),
    ).with(
        "clientInfo",
        Json::object().with("name", Json::string(CLIENT_NAME)).with(
            "version",
            Json::string(CLIENT_VERSION),
        ),
    )
}

/// The parameters of a call.
pub fn call_params(tool_name: &str, args: &Json) -> (r: Json)
    ensures
        r@ == call_params_v(tool_name@, args@),
{
    Json::object().with("name", Json::string(tool_name)).with("arguments", args.copy())
}

/// What an answer says.
pub open spec fn is_answer(r: Result<Json, MCPServerError>, data: JsonV) -> bool {
    match data.get("error"@) {
        Some(err) => r matches Err(e) && (e matches MCPServerError::Protocol { code, message }
            && code == (match err.at("code"@).signed() {
            Some(n) => n,
            None => 0,
        }) && message@ == (match err.text_at("message"@) {
            Some(s) => s,
            None => "unknown error"@,
        })),
        None => r matches Ok(j) && j@ == (match data.get("result"@) {
            Some(v) => v,
            None => JsonV::empty(),
        }),
    }
}

/// What an answer says: its result, an empty object where it has none, or its error.
pub fn read_answer(data: &Json) -> (r: Result<Json, MCPServerError>)
    ensures
        is_answer(r, data@),
{
    match data.get("error") {
        Some(err) => {
            let code: i64 = match err.get_i64("code") {
                Some(n) => n,
                None => 0,
            };
            let message = match err.get_str("message") {
                Some(s) => owned(s),
                None => owned("unknown error"),
            };
            Err(MCPServerError::Protocol { code, message })
        },
        None => match data.get("result") {
            Some(v) => Ok(v.copy()),
            None => Ok(Json::object()),
        },
    }
}

/// The definition that one listed tool makes.
pub open spec fn listed_tool(t: JsonV, server_id: Seq<char>) -> ToolV {
    ToolV {
        name: match t.text_at("name"@) {
            Some(s) => s,
            None => ""@,
        },
        description: match t.text_at("description"@) {
            Some(s) => s,
            None => ""@,
        },
        input_schema: match t.get("inputSchema"@) {
            Some(v) => v,
            None => JsonV::empty(),
        },
        server_id,
    }
}

/// The models of a list of tools.
pub open spec fn tools_model(v: Seq<ToolDefinition>) -> Seq<ToolV> {
    v.map_values(|t: ToolDefinition| t@)
}

/// The tools that a result lists.
pub fn tools_from_result(result: &Json, server_id: &str) -> (r: Vec<ToolDefinition>)
    ensures
        tools_model(r@) == listed_tools(result@, server_id@),
{
    let mut out: Vec<ToolDefinition> = Vec::new();
    match result.get_array("tools") {
        Some(items) => {
            let mut i: usize = 0;
            while i < items.len()
                invariant
                    i <= items@.len(),
                    out@.len() == i,
                    forall|k: int|
                        0 <= k < i ==> (#[trigger] out@[k])@ == listed_tool(
                            items@[k]@,
                            server_id@,
                        ),
                decreases items@.len() - i,
            {
                let t = &items[i];
                let name = match t.get_str("name") {
                    Some(s) => owned(s),
                    None => owned(""),
                };
                let description = match t.get_str("description") {
                    Some(s) => owned(s),
                    None => owned(""),
                };
                let input_schema = match t.get("inputSchema") {
                    Some(v) => v.copy(),
                    None => Json::object(),
                };
                out.push(
                    ToolDefinition { name, description, input_schema, server_id: owned(server_id) },
                );
                i += 1;
            }
            proof {
                assert(tools_model(out@) =~= jsons(items@).map_values(
                    |t: JsonV| listed_tool(t, server_id@),
                ));
            }
        },
        None => {
            proof {
                assert(tools_model(out@) =~= Seq::empty());
            }
        },
    }
    out
}

/// What the result of a call holds.
pub open spec fn result_content(result: JsonV) -> JsonV {
    match result.get("content"@) {
        Some(c) => c,
        None => JsonV::Arr(Seq::empty()),
    }
}

/// The result of a call is an error.
pub open spec fn says_error(result: JsonV) -> bool {
    result.at("isError"@).truth() == Some(true)
}

/// Whether the result of a call is an error, its text, and how many bytes that had before
/// it was cut.
pub fn call_result(result: &Json) -> (r: (bool, String, usize))
    ensures
        r.0 == says_error(result@),
        r.1@ == content_text(result_content(result@)).out,
        r.2 == content_text(result_content(result@)).seen,
{
    let is_error = match result.get_bool("isError") {
        Some(b) => b,
        None => false,
    };
    let (text, size) = match result.get("content") {
        Some(c) => extract_content_from_json_sized(c),
        None => (String::new(), 0),
    };
    (is_error, text, size)
}

/// A connection that sends requests one after another.
pub struct SseTransport {
    pub message_url: String,
    /// The identifier of the last request, 0 before the first.
    pub last_id: i64,
}

impl SseTransport {
    /// A connection to a configured address.
    pub fn new(url: &str) -> (r: SseTransport)
        ensures
            r.message_url@ == message_url(url@),
            r.last_id == 0,
    {
        SseTransport { message_url: sse_url_to_message_url(url), last_id: 0 }
    }

    /// The next request. Each request has an identifier one higher than the one before.
    pub fn request(&mut self, method: &str, params: Json) -> (r: Json)
        ensures
            final(self).last_id == old(self).last_id.wrapping_add(1),
            final(self).message_url == old(self).message_url,
            r@ == request_v(final(self).last_id, method@, params@),
    {
        self.last_id = self.last_id.wrapping_add(1);
        Json::object().with("jsonrpc", Json::string("2.0")).with("id", Json::Int(self.last_id)).with(
            "method",
            Json::string(method),
        ).with("params", params)
    }
}

/// A request says what is asked of the server, under its own identifier.
pub proof fn requests_say_what_is_asked(id: i64, method: Seq<char>, params: JsonV)
    ensures
        request_v(id, method, params).get("jsonrpc"@) == Some(JsonV::Str("2.0"@)),
        request_v(id, method, params).get("id"@) == Some(JsonV::Int(id as int)),
        request_v(id, method, params).get("method"@) == Some(JsonV::Str(method)),
        request_v(id, method, params).get("params"@) == Some(params),
{
    reveal_strlit("jsonrpc");
    reveal_strlit("id");
    reveal_strlit("method");
    reveal_strlit("params");
    assert("jsonrpc"@.len() == 7 && "id"@.len() == 2 && "method"@[0] == 'm' && "params"@[0] == 'p');
}

/// A listed tool is defined as the server lists it, under the server that lists it; without a
/// schema it takes anything.
pub proof fn tools_are_defined_as_listed(t: JsonV, server_id: Seq<char>)
    ensures
        listed_tool(t, server_id).name == (match t.at("name"@) {
            JsonV::Str(s) => s,
            _ => ""@,
        }),
        listed_tool(t, server_id).description == (match t.at("description"@) {
            JsonV::Str(s) => s,
            _ => ""@,
        }),
        t.get("inputSchema"@) matches Some(v) ==> listed_tool(t, server_id).input_schema == v,
        t.get("inputSchema"@) is None ==> listed_tool(t, server_id).input_schema == JsonV::empty(),
        listed_tool(t, server_id).server_id == server_id,
{
}

/// What a call gave is the content of its result, nothing where there is none.
pub proof fn results_hold_their_content(result: JsonV)
    ensures
        result.get("content"@) matches Some(c) ==> result_content(result) == c,
        result.get("content"@) is None ==> result_content(result) == JsonV::Arr(Seq::empty()),
{
}

/// An answer with an error is that error, with its code and its message; any other is its
/// result.
pub proof fn answers_are_results_or_errors(r: Result<Json, MCPServerError>, data: JsonV)
    requires
        is_answer(r, data),
    ensures
        r is Err <==> data.get("error"@) is Some,
        data.get("error"@) matches Some(err) ==> (r matches Err(
            MCPServerError::Protocol { code, message },
        ) && (err.at("code"@).signed() matches Some(n) ==> code == n) && (err.at("message"@)
            matches JsonV::Str(t) ==> message@ == t)),
        data.get("error"@) is None ==> (r matches Ok(j) && (data.get("result"@) matches Some(v)
            ==> j@ == v)),
{
}

/// A result is an error just where it says so.
pub proof fn errors_say_that_they_are(result: JsonV)
    ensures
        says_error(result) <==> result.at("isError"@) == JsonV::Bool(true),
{
}

/// A notification has no identifier, a call names its tool and has its arguments, and the client
/// introduces itself with the version that it speaks.
pub proof fn messages_say_what_they_are_for(method: Seq<char>, params: JsonV, tool_name: Seq<char>, args: JsonV)
    ensures
        notification_v(method, params).get("jsonrpc"@) == Some(JsonV::Str("2.0"@)),
        notification_v(method, params).get("method"@) == Some(JsonV::Str(method)),
        notification_v(method, params).get("params"@) == Some(params),
        notification_v(method, params).get("id"@) is None,
        call_params_v(tool_name, args).get("name"@) == Some(JsonV::Str(tool_name)),
        call_params_v(tool_name, args).get("arguments"@) == Some(args),
        introduction().get("protocolVersion"@) == Some(JsonV::Str("2024-11-05"@)),
        introduction().get("capabilities"@) == Some(JsonV::empty()),
        introduction().at("clientInfo"@).get("name"@) == Some(JsonV::Str("bigtiny"@)),
        introduction().at("clientInfo"@).get("version"@) == Some(JsonV::Str("0.1.0"@)),
{
    reveal_strlit("jsonrpc");
    reveal_strlit("id");
    reveal_strlit("method");
    reveal_strlit("params");
    reveal_strlit("name");
    reveal_strlit("arguments");
    reveal_strlit("protocolVersion");
    reveal_strlit("capabilities");
    reveal_strlit("clientInfo");
    reveal_strlit("version");
    assert("jsonrpc"@.len() == 7 && "id"@.len() == 2 && "method"@[0] == 'm' && "params"@[0] == 'p'
        && "name"@.len() == 4 && "arguments"@.len() == 9 && "protocolVersion"@.len() == 15
        && "capabilities"@.len() == 12 && "clientInfo"@.len() == 10 && "version"@.len() == 7);
}

/// All tools that a result lists are defined, in order.
pub proof fn all_listed_tools_are_defined(items: Seq<JsonV>, result: JsonV, server_id: Seq<char>, i: int)
    requires
        result.at("tools"@) == JsonV::Arr(items),
    ensures
        listed_tools(result, server_id).len() == items.len(),
        0 <= i < items.len() ==> listed_tools(result, server_id)[i] == listed_tool(
            items[i],
            server_id,
        ),
{
}

/// A list of tools is modelled tool by tool, in its order.
pub proof fn lists_of_tools_lose_nothing(v: Seq<ToolDefinition>, i: int)
    requires
        0 <= i < v.len(),
    ensures
        tools_model(v).len() == v.len(),
        tools_model(v)[i] == v[i]@,
{
}

/// In an address that does not end in `/sse`, that segment becomes `/message` wherever it
/// stands, and an address without it stays as it is.
pub proof fn segments_are_replaced_elsewhere(a: Seq<char>, b: Seq<char>, url: Seq<char>)
    requires
        !"/sse"@.is_suffix_of(a + "/sse"@ + b),
        forall|j: int| 0 <= j < a.len() ==> !occurs_at(a + "/sse"@ + b, "/sse"@, j),
    ensures
        !contains_text(b, "/sse"@) ==> message_url(a + "/sse"@ + b) == a + "/message"@ + b,
        !contains_text(url, "/sse"@) ==> message_url(url) == url,
{
    reveal_strlit("/sse");
    assert("/sse"@.len() == 4);
    occurrences_are_replaced(a, "/sse"@, b, "/message"@);
    if !contains_text(url, "/sse"@) {
        if "/sse"@.is_suffix_of(url) {
            let base = url.take(url.len() - 4);
            assert(base + "/sse"@ =~= url);
            assert(url.subrange(url.len() - 4, url.len() as int) =~= "/sse"@);
            assert(occurs_at(url, "/sse"@, url.len() - 4));
        }
        find_from_is_first(url, "/sse"@, 0);
    }
}

} // verus!
