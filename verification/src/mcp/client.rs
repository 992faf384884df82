//! A connection to a tool server: what it needs, and what a call comes to.

use crate::dict::Dict;
use crate::error::MCPServerError;
use crate::ids::{is_hex, random_id};
use crate::json::{entries_model, Json, JsonV};
use crate::mcp::tools::{
    args_pass, compiles, cut_output, is_empty_schema, schema_accepts, schema_compiles,
    truncate_output,
};
use crate::mcp::sse_transport::tools_model;
use crate::models::mcp::{MCPServerConfig, ToolDefinition, ToolResult, ToolV, TransportType};
use crate::routes::mcp::texts_in;
use crate::text::{chars_of, decimal, decimal_text, join3, owned, string_of};
use vstd::prelude::*;

verus! {

/// What a call of a tool came to.
pub enum CallOutcome {
    /// The server answered: whether with an error, what, and how many bytes that had
    /// before it was cut.
    Done(bool, String, usize),
    /// The call failed, for a reason.
    Failed(String),
    /// No answer came in so many seconds.
    TimedOut(u64),
}

/// The result is what a call came to.
pub open spec fn is_result_of(r: ToolResult, tool_name: Seq<char>, outcome: CallOutcome) -> bool {
    match outcome {
        CallOutcome::Done(is_error, content, size) => (r.content@, r.truncated) == cut_output(
            content@,
        ) && r.output_size_bytes == size as i32 && r.is_error == is_error,
        CallOutcome::Failed(e) => r.content@ == "[Tool '"@ + tool_name + "' error: "@ + e@ + "]"@
            && r.output_size_bytes == 0 && r.is_error && !r.truncated,
        CallOutcome::TimedOut(secs) => r.content@ == "[Tool '"@ + tool_name
            + "' timed out after "@ + decimal(secs as nat) + "s]"@ && r.output_size_bytes == 0
            && r.is_error && !r.truncated,
    }
}

/// The result of a call under an identifier. Every failure is a result too, so that one
/// call that fails cannot stop the others.
pub fn call_outcome(tool_name: &str, tool_call_id: String, outcome: CallOutcome, duration_ms: i32) -> (r:
    ToolResult)
    ensures
        r.tool_call_id@ == tool_call_id@,
        r.duration_ms == duration_ms,
        is_result_of(r, tool_name@, outcome),
{
    match outcome {
        CallOutcome::Done(is_error, content, size) => {
            let (text, truncated) = truncate_output(content.as_str());
            ToolResult {
                content: text,
                tool_call_id,
                duration_ms,
                output_size_bytes: #[verifier::truncate] (size as i32),
                is_error,
                truncated,
            }
        },
        CallOutcome::Failed(e) => {
            let mut m = join3("[Tool '", tool_name, "' error: ");
            m.push_str(e.as_str());
            m.push_str("]");
            ToolResult {
                content: m,
                tool_call_id,
                duration_ms,
                output_size_bytes: 0,
                is_error: true,
                truncated: false,
            }
        },
        CallOutcome::TimedOut(secs) => {
            let mut m = join3("[Tool '", tool_name, "' timed out after ");
            let n = decimal_text(secs);
            m.push_str(n.as_str());
            m.push_str("s]");
            ToolResult {
                content: m,
                tool_call_id,
                duration_ms,
                output_size_bytes: 0,
                is_error: true,
                truncated: false,
            }
        },
    }
}

/// The form of a short identifier: eight hexadecimal digits.
pub open spec fn short_shaped(s: Seq<char>) -> bool {
    s.len() == 8 && forall|i: int| 0 <= i < 8 ==> is_hex(#[trigger] s[i])
}

/// The first eight digits of a random identifier.
pub fn short_id() -> (r: String)
    ensures
        short_shaped(r@),
{
    let id = random_id();
    let c = chars_of(id.as_str());
    string_of(&c, 0, 8)
}

/// The form of the identifier of a call: the tool's name and a short identifier.
pub open spec fn call_id_of(id: Seq<char>, tool_name: Seq<char>) -> bool {
    &&& id.len() == tool_name.len() + 9
    &&& id.take(tool_name.len() as int) == tool_name
    &&& id[tool_name.len() as int] == '_'
    &&& short_shaped(id.skip(tool_name.len() as int + 1))
}

/// The identifier of a connection: that of its server, a random one where it has none.
pub fn connection_id(config: &MCPServerConfig) -> (r: String)
    ensures
        config.id@.len() > 0 ==> r@ == config.id@,
        config.id@.len() == 0 ==> short_shaped(r@),
{
    if config.id.as_str().is_empty() {
        short_id()
    } else {
        config.id.clone()
    }
}

/// A tool may be offered: its schema says nothing or can be used.
pub open spec fn is_registrable(t: ToolV) -> bool {
    is_empty_schema(t.input_schema) || schema_compiles(t.input_schema)
}

/// The tools of a list that may be offered, in its order.
pub open spec fn registrable(list: Seq<ToolV>) -> Seq<ToolV>
    decreases list.len(),
{
    if list.len() == 0 {
        Seq::empty()
    } else if is_registrable(list.last()) {
        registrable(list.drop_last()).push(list.last())
    } else {
        registrable(list.drop_last())
    }
}

/// The tools that a server lists, without those whose schema cannot be used: such a tool
/// would take any arguments.
pub fn registrable_tools(listed: &Vec<ToolDefinition>) -> (r: Vec<ToolDefinition>)
    ensures
        tools_model(r@) == registrable(tools_model(listed@)),
{
    let ghost all = tools_model(listed@);
    let mut out: Vec<ToolDefinition> = Vec::new();
    let mut i: usize = 0;
    proof {
        assert(tools_model(out@) =~= registrable(all.take(0)));
    }
    while i < listed.len()
        invariant
            i <= listed@.len(),
            all == tools_model(listed@),
            tools_model(out@) == registrable(all.take(i as int)),
        decreases listed@.len() - i,
    {
        let ghost before = out@;
        proof {
            assert(all.take(i + 1).drop_last() =~= all.take(i as int));
            assert(all.take(i + 1).last() == listed@[i as int]@);
        }
        if compiles(&listed[i].input_schema) {
            let t = listed[i].copy();
            out.push(t);
            proof {
                assert(tools_model(out@) =~= tools_model(before).push(t@));
            }
        }
        i += 1;
    }
    proof {
        assert(all.take(i as int) =~= all);
    }
    out
}

/// The arguments of a tool that is offered are always held to its schema.
pub proof fn offered_tools_are_checked(list: Seq<ToolV>, t: ToolV, args: JsonV)
    requires
        registrable(list).contains(t),
    ensures
        args_pass(t, args) <==> is_empty_schema(t.input_schema) || schema_accepts(
            t.input_schema,
            args,
        ),
    decreases list.len(),
{
    if list.len() > 0 {
        let rest = registrable(list.drop_last());
        if is_registrable(list.last()) {
            let i = choose|i: int| 0 <= i < rest.len() + 1 && rest.push(list.last())[i] == t;
            if i < rest.len() {
                assert(rest[i] == t);
                offered_tools_are_checked(list.drop_last(), t, args);
            }
        } else {
            offered_tools_are_checked(list.drop_last(), t, args);
        }
    }
}

/// The identifier of a call: the tool's name and a random part.
pub fn new_call_id(tool_name: &str) -> (r: String)
    ensures
        call_id_of(r@, tool_name@),
{
    let part = short_id();
    let r = join3(tool_name, "_", part.as_str());
    proof {
        reveal_strlit("_");
        assert(r@.take(tool_name@.len() as int) =~= tool_name@);
        assert(r@.skip(tool_name@.len() as int + 1) =~= part@);
    }
    r
}

/// The result of a call that cannot be made.
pub fn error_result(tool_name: &str, content: String) -> (r: ToolResult)
    ensures
        r.content@ == content@,
        call_id_of(r.tool_call_id@, tool_name@),
        r.duration_ms == 0,
        r.output_size_bytes == 0,
        r.is_error,
        !r.truncated,
{
    ToolResult {
        content,
        tool_call_id: new_call_id(tool_name),
        duration_ms: 0,
        output_size_bytes: 0,
        is_error: true,
        truncated: false,
    }
}

/// The members of an object whose values are all texts.
pub open spec fn all_texts(v: JsonV) -> bool {
    v is Obj && forall|k: Seq<char>| v.get(k) is Some ==> #[trigger] v.text_at(k) is Some
}

/// The environment of a process as pairs: the members of an object whose values are all
/// texts, nothing otherwise.
pub fn env_pairs(env: Option<&Json>) -> (r: Vec<(String, String)>)
    ensures
        ({
            let e = match env {
                Some(j) => j@,
                None => JsonV::Null,
            };
            if all_texts(e) {
                &&& forall|i: int|
                    0 <= i < r@.len() ==> e.text_at((#[trigger] r@[i]).0@) == Some(r@[i].1@)
                &&& forall|k: Seq<char>|
                    #![trigger e.text_at(k)]
                    e.text_at(k) is Some ==> exists|i: int|
                        0 <= i < r@.len() && (#[trigger] r@[i]).0@ == k
            } else {
                r@.len() == 0
            }
        }),
{
    let mut out: Vec<(String, String)> = Vec::new();
    let j = match env {
        Some(j) => j,
        None => return out,
    };
    let entries = match j {
        Json::Obj(v) => v,
        _ => return out,
    };
    let mut i: usize = 0;
    while i < entries.len()
        invariant
            env == Some(j),
            *j == Json::Obj(*entries),
            i <= entries@.len(),
            out@.len() == i,
            forall|k: int|
                0 <= k < i ==> (#[trigger] out@[k]).0@ == entries@[k].0@ && j@.text_at(out@[k].0@)
                    == Some(out@[k].1@),
        decreases entries@.len() - i,
    {
        let key = entries[i].0.as_str();
        match j.get_str(key) {
            Some(s) => {
                out.push((owned(key), owned(s)));
            },
            None => {
                proof {
                    entry_is_key(*entries, entries@.len(), i as int);
                    assert(j@.get(key@) is Some);
                    assert(!all_texts(j@));
                }
                return Vec::new();
            },
        }
        i += 1;
    }
    proof {
        assert forall|k: Seq<char>| j@.get(k) is Some implies #[trigger] j@.text_at(k) is Some
            && exists|i: int| 0 <= i < out@.len() && (#[trigger] out@[i]).0@ == k by {
            key_is_entry(*entries, entries@.len(), k);
            let i = choose|i: int| 0 <= i < entries@.len() && (#[trigger] entries@[i]).0@ == k;
            assert(out@[i].0@ == k);
        }
        assert(all_texts(j@));
    }
    out
}

proof fn entry_is_key(v: Vec<(String, Json)>, n: nat, i: int)
    requires
        0 <= i < n <= v@.len(),
    ensures
        entries_model(v, n).contains_key(v@[i].0@),
    decreases n,
{
    if i < n - 1 {
        entry_is_key(v, (n - 1) as nat, i);
    }
}

proof fn key_is_entry(v: Vec<(String, Json)>, n: nat, k: Seq<char>)
    requires
        n <= v@.len(),
        entries_model(v, n).contains_key(k),
    ensures
        exists|i: int| 0 <= i < n && (#[trigger] v@[i]).0@ == k,
    decreases n,
{
    if n > 0 {
        if v@[n - 1].0@ == k {
            assert(v@[n - 1].0@ == k);
        } else {
            key_is_entry(v, (n - 1) as nat, k);
        }
    }
}

/// A character of a header's name.
pub open spec fn is_token_char(c: char) -> bool {
    ||| 'a' <= c <= 'z'
    ||| 'A' <= c <= 'Z'
    ||| '0' <= c <= '9'
    ||| "!#$%&'*+-.^_`|~"@.contains(c)
}

/// A text is a header's name.
pub open spec fn is_header_name(s: Seq<char>) -> bool {
    1 <= s.len() <= 65535 && forall|i: int| 0 <= i < s.len() ==> is_token_char(#[trigger] s[i])
}

/// A text is a header's value: it holds no control characters but tabs.
pub open spec fn is_header_value(s: Seq<char>) -> bool {
    forall|i: int|
        0 <= i < s.len() ==> #[trigger] s[i] == '\t' || (s[i] >= ' ' && s[i] != '\u{7f}')
}

/// Whether a name and a text make a header.
pub open spec fn header_fits(name: Seq<char>, value: Seq<char>) -> bool {
    is_header_name(name) && is_header_value(value)
}

/// `HeaderName::from_bytes` takes the names of one to 65535 token characters.
#[verifier::external_body]
fn takes_name(name: &str) -> (r: bool)
    ensures
        r == is_header_name(name@),
{
    reqwest::header::HeaderName::from_bytes(name.as_bytes()).is_ok()
}

/// `HeaderValue::from_str` takes the texts without control characters, tabs apart.
#[verifier::external_body]
fn takes_value(value: &str) -> (r: bool)
    ensures
        r == is_header_value(value@),
{
    reqwest::header::HeaderValue::from_str(value).is_ok()
}

/// The headers of a connection: the configured texts that make one. The others are left
/// out, and a server that needs them will refuse the connection.
pub fn valid_headers(headers: Option<&Json>) -> (r: Dict<String>)
    ensures
        forall|k: Seq<char>| #[trigger]
            r@.contains_key(k) <==> headers is Some && (headers->0@.text_at(k) matches Some(v)
                && header_fits(k, v)),
        forall|k: Seq<char>| #[trigger]
            r@.contains_key(k) ==> Some(r@[k]@) == headers->0@.text_at(k),
{
    let mut out: Dict<String> = Dict::new();
    let v = match headers {
        Some(v) => v,
        None => return out,
    };
    let all = texts_in(v);
    let mut i: usize = 0;
    while i < all.len()
        invariant
            i <= all.listed().len(),
            forall|k: Seq<char>| #[trigger] all@.contains_key(k) <==> v@.text_at(k) is Some,
            forall|k: Seq<char>| #[trigger]
                all@.contains_key(k) ==> Some(all@[k]@) == v@.text_at(k),
            forall|k: Seq<char>| #[trigger]
                out@.contains_key(k) ==> (v@.text_at(k) matches Some(t) && header_fits(k, t)
                    && out@[k]@ == t),
            forall|j: int|
                #![trigger all.listed()[j]]
                0 <= j < i && header_fits(all.listed()[j].0@, all.listed()[j].1@)
                    ==> out@.contains_key(all.listed()[j].0@),
        decreases all.listed().len() - i,
    {
        let (name, text) = all.entry(i);
        if takes_name(name) && takes_value(text.as_str()) {
            out.insert(name, owned(text.as_str()));
        }
        i += 1;
    }
    proof {
        assert forall|k: Seq<char>|
            (v@.text_at(k) matches Some(t) && header_fits(k, t)) implies #[trigger]
            out@.contains_key(k) by {
            assert(all@.contains_key(k));
            let j = crate::dict::key_at(all.listed(), k);
            assert(all.listed()[j].0@ == k);
        }
    }
    out
}

/// How a server is dialled.
pub enum Dial {
    /// A process: its command.
    Process(String),
    /// Streamable HTTP: the address.
    Http(String),
    /// Plain POST requests: the address.
    Post(String),
}

/// The way is that of a configured server, or what it lacks.
pub open spec fn is_dialled(r: Result<Dial, MCPServerError>, config: MCPServerConfig) -> bool {
    match config.transport {
        TransportType::Stdio => match config.command {
            Some(c) => r matches Ok(d) && (d matches Dial::Process(s) && s@ == c@),
            None => r matches Err(e) && (e matches MCPServerError::Generic(m) && m@
                == "stdio transport requires a command"@),
        },
        TransportType::StreamableHttp => match config.url {
            Some(u) => r matches Ok(d) && (d matches Dial::Http(s) && s@ == u@),
            None => r matches Err(e) && (e matches MCPServerError::Generic(m) && m@
                == "streamable_http transport requires a url"@),
        },
        TransportType::Sse => match config.url {
            Some(u) => r matches Ok(d) && (d matches Dial::Post(s) && s@ == u@),
            None => r matches Err(e) && (e matches MCPServerError::Generic(m) && m@
                == "sse transport requires a url"@),
        },
        TransportType::InProcess => r matches Err(e) && (e matches MCPServerError::Generic(m) && m@
            == "in_process transport must be connected via mcp::builtin, not MCPServerClient::connect"@),
    }
}

/// How a configured server is dialled; an error where it lacks what its transport needs.
pub fn dial(config: &MCPServerConfig) -> (r: Result<Dial, MCPServerError>)
    ensures
        is_dialled(r, *config),
{
    match config.transport {
        TransportType::Stdio => match &config.command {
            Some(c) => Ok(Dial::Process(c.clone())),
            None => Err(MCPServerError::Generic(owned("stdio transport requires a command"))),
        },
        TransportType::StreamableHttp => match &config.url {
            Some(u) => Ok(Dial::Http(u.clone())),
            None => Err(MCPServerError::Generic(owned("streamable_http transport requires a url"))),
        },
        TransportType::Sse => match &config.url {
            Some(u) => Ok(Dial::Post(u.clone())),
            None => Err(MCPServerError::Generic(owned("sse transport requires a url"))),
        },
        TransportType::InProcess => Err(
            MCPServerError::Generic(
                owned(
                    "in_process transport must be connected via mcp::builtin, not MCPServerClient::connect",
                ),
            ),
        ),
    }
}

/// Of the tools that a server lists, just those are offered, in its order, whose schema says
/// nothing or can be used.
pub proof fn usable_tools_are_offered(list: Seq<ToolV>, t: ToolV)
    ensures
        registrable(Seq::empty()).len() == 0,
        registrable(list.push(t)) == (if t.input_schema == JsonV::Null || t.input_schema
            == JsonV::empty() || schema_compiles(t.input_schema) {
            registrable(list).push(t)
        } else {
            registrable(list)
        }),
{
    assert(list.push(t).drop_last() =~= list);
}

/// The identifier of a call tells its tool: it is the tool's name, an underscore and eight
/// hexadecimal digits.
pub proof fn call_ids_tell_their_tool(id: Seq<char>, tool_name: Seq<char>)
    requires
        call_id_of(id, tool_name),
    ensures
        id == tool_name + seq!['_'] + id.skip(tool_name.len() as int + 1),
        id.len() == tool_name.len() + 9,
        forall|i: int|
            tool_name.len() < i < id.len() ==> '0' <= #[trigger] id[i] <= '9' || 'a' <= id[i] <= 'f',
{
    let n = tool_name.len() as int;
    let part = id.skip(n + 1);
    assert forall|i: int| n < i < id.len() implies '0' <= #[trigger] id[i] <= '9' || 'a' <= id[i]
        <= 'f' by {
        assert(part[i - n - 1] == id[i]);
        assert(is_hex(part[i - n - 1]));
    }
    assert(id =~= tool_name + seq!['_'] + part) by {
        assert(id.take(n) == tool_name);
        assert forall|i: int| 0 <= i < n implies id[i] == tool_name[i] by {
            assert(id.take(n)[i] == id[i]);
        }
    }
}

/// A name of letters, digits and hyphens with a text in plain sight makes a header; an empty
/// name, or a name or a text that would end a line, makes none.
pub proof fn headers_end_no_line(name: Seq<char>, value: Seq<char>, i: int)
    ensures
        1 <= name.len() <= 65535 && (forall|k: int|
            0 <= k < name.len() ==> 'a' <= #[trigger] name[k] <= 'z' || 'A' <= name[k] <= 'Z' || '0'
                <= name[k] <= '9' || name[k] == '-') && (forall|k: int|
            0 <= k < value.len() ==> ' ' <= #[trigger] value[k] <= '~') ==> header_fits(name, value),
        name.len() == 0 ==> !header_fits(name, value),
        0 <= i < value.len() && (value[i] == '\n' || value[i] == '\r') ==> !header_fits(name, value),
        0 <= i < name.len() && (name[i] == '\n' || name[i] == '\r' || name[i] == ':' || name[i]
            == ' ') ==> !header_fits(name, value),
{
    reveal_strlit("!#$%&'*+-.^_`|~");
    let signs = "!#$%&'*+-.^_`|~"@;
    assert(signs[8] == '-');
    assert(signs.contains('-'));
    assert(signs.len() == 15);
    assert(!signs.contains('\n') && !signs.contains('\r') && !signs.contains(':')
        && !signs.contains(' '));
}

/// An environment is taken where all its values are texts.
pub proof fn environments_are_texts(m: Map<Seq<char>, JsonV>)
    ensures
        all_texts(JsonV::Obj(m)) <==> forall|k: Seq<char>| #[trigger]
            m.contains_key(k) ==> m[k] is Str,
        !all_texts(JsonV::Null),
{
    let v = JsonV::Obj(m);
    if all_texts(v) {
        assert forall|k: Seq<char>| #[trigger] m.contains_key(k) implies m[k] is Str by {
            assert(v.get(k) is Some);
            assert(v.text_at(k) is Some);
        }
    }
}

/// What a server answers is the result, cut where it is too long and with the size that it had;
/// a call that failed or took too long is an error that names the tool and says why.
pub proof fn calls_come_to_their_result(r: ToolResult, tool_name: Seq<char>, outcome: CallOutcome)
    requires
        is_result_of(r, tool_name, outcome),
    ensures
        outcome matches CallOutcome::Done(is_error, content, size) ==> {
            &&& r.is_error == is_error
            &&& r.content@ == cut_output(content@).0
            &&& r.truncated == cut_output(content@).1
            &&& size <= i32::MAX ==> r.output_size_bytes == size
        },
        outcome matches CallOutcome::Failed(e) ==> r.is_error && r.content@ == "[Tool '"@
            + tool_name + "' error: "@ + e@ + "]"@,
        outcome matches CallOutcome::TimedOut(secs) ==> r.is_error && r.content@ == "[Tool '"@
            + tool_name + "' timed out after "@ + decimal(secs as nat) + "s]"@,
{
}

/// A server is dialled by its transport: a process by its command, and a server on the web at
/// its address; without what it needs, and for a server of this program, there is an error.
pub proof fn servers_are_dialled_by_their_transport(
    r: Result<Dial, MCPServerError>,
    config: MCPServerConfig,
)
    requires
        is_dialled(r, config),
    ensures
        config.transport == TransportType::Stdio ==> (config.command matches Some(c) ==> r
            matches Ok(Dial::Process(s)) && s@ == c@),
        config.transport == TransportType::StreamableHttp ==> (config.url matches Some(u) ==> r
            matches Ok(Dial::Http(s)) && s@ == u@),
        config.transport == TransportType::Sse ==> (config.url matches Some(u) ==> r matches Ok(
            Dial::Post(s),
        ) && s@ == u@),
        config.transport == TransportType::Stdio && config.command is None ==> r is Err,
        config.transport == TransportType::StreamableHttp && config.url is None ==> r is Err,
        config.transport == TransportType::Sse && config.url is None ==> r is Err,
        config.transport == TransportType::InProcess ==> r is Err,
{
}

} // verus!
