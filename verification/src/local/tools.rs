//! Tool calls of the in-process engine, in one syntax:
//! `<tool_call>{"name": "<tool>", "arguments": { … }}</tool_call>`.

use crate::ids::{random_id, uuid_shaped};
use crate::json::{json_error_of_text, json_of_text, jsons, text_of_json, Json, JsonV};
use crate::provider::base::ToolCall;
use crate::provider::tag_split::{find_after_hold, find_in_longer, hold_after_hold, hold_len, hold_len_is_longest, longest_tag_prefix_suffix};
use crate::text::{chars_of, find_chars, find_from, find_from_is_first, join2, join3, owned, same, string_all, string_of, texts, trim, trimmed};
use vstd::prelude::*;

verus! {

/// The tag before a call.
pub const OPEN: &'static str = "<tool_call>";

/// The tag after a call.
pub const CLOSE: &'static str = "</tool_call>";

/// The tag before a result.
pub const RESPONSE_OPEN: &'static str = "<tool_response>";

/// The tag after a result.
pub const RESPONSE_CLOSE: &'static str = "</tool_response>";

/// The definition of a tool without the envelope around it.
pub open spec fn tool_function(tool: JsonV) -> JsonV {
    match tool.get("function"@) {
        Some(f) => f,
        None => tool,
    }
}

/// The name of a tool without the white space around it, where it has one.
pub open spec fn tool_name(tool: JsonV) -> Option<Seq<char>> {
    match tool_function(tool).text_at("name"@) {
        Some(n) => if trimmed(n).len() > 0 {
            Some(trimmed(n))
        } else {
            None
        },
        None => None,
    }
}

/// The description of a tool, empty where it has none.
pub open spec fn tool_desc(tool: JsonV) -> Seq<char> {
    match tool_function(tool).text_at("description"@) {
        Some(d) => d,
        None => ""@,
    }
}

/// The schema of an object without properties.
pub open spec fn no_params() -> JsonV {
    JsonV::empty().put("type"@, JsonV::Str("object"@)).put("properties"@, JsonV::empty())
}

/// The schema of a tool's arguments.
pub open spec fn tool_params(tool: JsonV) -> JsonV {
    match tool_function(tool).get("parameters"@) {
        Some(p) => if p is Obj {
            p
        } else {
            no_params()
        },
        None => no_params(),
    }
}

/// The name, the description and the schema of the arguments of a tool, where it has a
/// name.
pub fn tool_parts(tool: &Json) -> (r: Option<(String, String, Json)>)
    ensures
        match r {
            Some((name, desc, params)) => tool_name(tool@) == Some(name@) && desc@ == tool_desc(
                tool@,
            ) && params@ == tool_params(tool@),
            None => tool_name(tool@) is None,
        },
{
    let f = match tool.get("function") {
        Some(f) => f,
        None => tool,
    };
    let name = match f.get_str("name") {
        Some(n) => trim(n),
        None => return None,
    };
    if name.as_str().is_empty() {
        return None;
    }
    let desc = match f.get_str("description") {
        Some(d) => owned(d),
        None => owned(""),
    };
    let params = match f.get("parameters") {
        Some(p) => if p.is_object() {
            p.copy()
        } else {
            Json::object().with("type", Json::string("object")).with("properties", Json::object())
        },
        None => Json::object().with("type", Json::string("object")).with(
            "properties",
            Json::object(),
        ),
    };
    Some((name, desc, params))
}

/// The lines that describe one tool; nothing for a tool without a name.
pub open spec fn tool_line(tool: JsonV) -> Seq<char> {
    match tool_name(tool) {
        Some(name) => {
            let desc = tool_desc(tool);
            let head = "- "@ + name + (if desc.len() > 0 {
                ": "@ + desc
            } else {
                Seq::empty()
            });
            head + "\n  parameters: "@ + text_of_json(tool_params(tool)) + "\n"@
        },
        None => Seq::empty(),
    }
}

/// The lines that describe the tools, in order.
pub open spec fn tool_lines(tools: Seq<JsonV>) -> Seq<char>
    decreases tools.len(),
{
    if tools.len() == 0 {
        Seq::empty()
    } else {
        tool_lines(tools.drop_last()) + tool_line(tools.last())
    }
}

/// How to call a tool, before the list of the tools.
pub open spec fn block_head() -> Seq<char> {
    "\n\nYou can call tools. To call one, emit exactly this and nothing else on the line:\n"@
        + OPEN@ + "{\"name\": \"<tool>\", \"arguments\": { ... }}"@ + CLOSE@
        + "\nAvailable tools:\n"@
}

/// What is added to the system message so that the model can call tools.
pub fn tool_system_block(tools: &[Json]) -> (r: String)
    ensures
        r@ == block_head() + tool_lines(jsons(tools@)),
{
    let mut s = owned(
        "\n\nYou can call tools. To call one, emit exactly this and nothing else on the line:\n",
    );
    s.push_str(OPEN);
    s.push_str("{\"name\": \"<tool>\", \"arguments\": { ... }}");
    s.push_str(CLOSE);
    s.push_str("\nAvailable tools:\n");
    let mut i: usize = 0;
    proof {
        assert(tool_lines(jsons(tools@).take(0)) =~= Seq::<char>::empty());
        assert(s@ =~= block_head() + tool_lines(jsons(tools@).take(0)));
    }
    while i < tools.len()
        invariant
            i <= tools@.len(),
            s@ == block_head() + tool_lines(jsons(tools@).take(i as int)),
        decreases tools@.len() - i,
    {
        let ghost before = s@;
        match tool_parts(&tools[i]) {
            Some((name, desc, params)) => {
                s.push_str("- ");
                s.push_str(name.as_str());
                if !desc.as_str().is_empty() {
                    s.push_str(": ");
                    s.push_str(desc.as_str());
                }
                s.push_str("\n  parameters: ");
                let p = params.print();
                s.push_str(p.as_str());
                s.push_str("\n");
            },
            None => {},
        }
        i += 1;
        proof {
            let t = jsons(tools@);
            assert(t.take(i as int).drop_last() =~= t.take(i - 1));
            assert(t.take(i as int).last() == tools@[i - 1]@);
            assert(s@ =~= before + tool_line(tools@[i - 1]@));
            assert(s@ =~= block_head() + (tool_lines(t.take(i - 1)) + tool_line(tools@[i - 1]@)));
        }
    }
    proof {
        assert(jsons(tools@).take(i as int) =~= jsons(tools@));
    }
    s
}

/// The schema of a call of one tool.
pub open spec fn call_schema(name: Seq<char>, params: JsonV) -> JsonV {
    JsonV::empty().put("type"@, JsonV::Str("object"@)).put(
        "properties"@,
        JsonV::empty().put(
            "name"@,
            JsonV::empty().put("enum"@, JsonV::Arr(seq![JsonV::Str(name)])),
        ).put("arguments"@, params),
    ).put("required"@, JsonV::Arr(seq![JsonV::Str("name"@), JsonV::Str("arguments"@)])).put(
        "additionalProperties"@,
        JsonV::Bool(false),
    )
}

/// The schemas of the calls of the tools that have a name, in order.
pub open spec fn call_schemas(tools: Seq<JsonV>) -> Seq<JsonV>
    decreases tools.len(),
{
    if tools.len() == 0 {
        Seq::empty()
    } else {
        let before = call_schemas(tools.drop_last());
        match tool_name(tools.last()) {
            Some(name) => before.push(call_schema(name, tool_params(tools.last()))),
            None => before,
        }
    }
}

/// The schema that a call of one of the tools must meet; `None` where no tool has a name.
/// The engine turns it into the grammar that constrains a call.
pub fn tools_schema(tools: &[Json]) -> (r: Option<Json>)
    ensures
        match r {
            Some(j) => call_schemas(jsons(tools@)).len() > 0 && j@ == JsonV::empty().put(
                "oneOf"@,
                JsonV::Arr(call_schemas(jsons(tools@))),
            ),
            None => call_schemas(jsons(tools@)).len() == 0,
        },
{
    let mut branches: Vec<Json> = Vec::new();
    let mut i: usize = 0;
    proof {
        assert(jsons(branches@) =~= call_schemas(jsons(tools@).take(0)));
    }
    while i < tools.len()
        invariant
            i <= tools@.len(),
            jsons(branches@) == call_schemas(jsons(tools@).take(i as int)),
        decreases tools@.len() - i,
    {
        let ghost before = branches@;
        match tool_parts(&tools[i]) {
            Some((name, _desc, params)) => {
                let mut names: Vec<Json> = Vec::new();
                names.push(Json::Str(name));
                let mut required: Vec<Json> = Vec::new();
                required.push(Json::string("name"));
                required.push(Json::string("arguments"));
                proof {
                    assert(jsons(names@) =~= seq![JsonV::Str(name@)]);
                    assert(jsons(required@) =~= seq![
                        JsonV::Str("name"@),
                        JsonV::Str("arguments"@),
                    ]);
                }
                let branch = Json::object().with("type", Json::string("object")).with(
                    "properties",
                    Json::object().with("name", Json::object().with("enum", Json::array(names))).with(
                        "arguments",
                        params,
                    ),
                ).with("required", Json::array(required)).with(
                    "additionalProperties",
                    Json::Bool(false),
                );
                branches.push(branch);
                proof {
                    assert(jsons(branches@) =~= jsons(before).push(branch@));
                }
            },
            None => {},
        }
        i += 1;
        proof {
            let t = jsons(tools@);
            assert(t.take(i as int).drop_last() =~= t.take(i - 1));
            assert(t.take(i as int).last() == tools@[i - 1]@);
        }
    }
    proof {
        assert(jsons(tools@).take(i as int) =~= jsons(tools@));
    }
    if branches.len() == 0 {
        None
    } else {
        Some(Json::object().with("oneOf", Json::array(branches)))
    }
}

/// The name and the arguments of a call.
#[verifier::ext_equal]
pub struct CallV {
    pub name: Seq<char>,
    pub arguments: JsonV,
}

impl CallV {
    /// The call as a tool call carries it.
    pub open spec fn function(self) -> JsonV {
        JsonV::empty().put("name"@, JsonV::Str(self.name)).put("arguments"@, self.arguments)
    }
}

/// What a span between the tags says: a call of an allowed tool, or the reason why it is
/// none. `parsed` is what the text `t` says as JSON, and `error` what is wrong with it
/// where it is not JSON.
pub open spec fn judged(
    parsed: Option<JsonV>,
    error: Seq<char>,
    t: Seq<char>,
    allowed: Seq<Seq<char>>,
) -> Result<CallV, Seq<char>> {
    match parsed {
        None => Err("ignored a malformed tool call ("@ + error + "): "@ + t),
        Some(v) => match v.text_at("name"@) {
            None => Err("ignored a tool call with no name: "@ + t),
            Some(name) => if !allowed.contains(name) {
                Err("ignored a call to unknown tool '"@ + name + "'"@)
            } else {
                match v.get("arguments"@) {
                    None => Ok(CallV { name, arguments: JsonV::empty() }),
                    Some(args) => if args is Obj {
                        Ok(CallV { name, arguments: args })
                    } else {
                        Err("ignored a call whose arguments were not an object: "@ + t)
                    },
                }
            },
        },
    }
}

/// What the span with the given text says.
pub open spec fn read_span(payload: Seq<char>, allowed: Seq<Seq<char>>) -> Result<
    CallV,
    Seq<char>,
> {
    let t = trimmed(payload);
    judged(json_of_text(t), json_error_of_text(t), t, allowed)
}

/// Whether a list of strings holds a string.
pub fn listed(names: &Vec<String>, name: &str) -> (r: bool)
    ensures
        r == texts(names@).contains(name@),
{
    let mut i: usize = 0;
    while i < names.len()
        invariant
            i <= names@.len(),
            forall|k: int| 0 <= k < i ==> (#[trigger] names@[k])@ != name@,
        decreases names@.len() - i,
    {
        if same(names[i].as_str(), name) {
            proof {
                assert(texts(names@)[i as int] == name@);
            }
            return true;
        }
        i += 1;
    }
    proof {
        assert forall|k: int| 0 <= k < texts(names@).len() implies texts(names@)[k] != name@ by {
            assert(names@[k]@ != name@);
        }
    }
    false
}

/// The name and the arguments of the call that a parsed span makes, or the reason why it
/// makes none.
pub fn judge_call(parsed: Result<Json, String>, t: &str, allowed: &Vec<String>) -> (r: Result<
    (String, Json),
    String,
>)
    ensures
        ({
            let said = judged(
                match parsed {
                    Ok(j) => Some(j@),
                    Err(_) => None,
                },
                match parsed {
                    Ok(_) => Seq::empty(),
                    Err(m) => m@,
                },
                t@,
                texts(allowed@),
            );
            match r {
                Ok((name, arguments)) => said == Ok::<CallV, Seq<char>>(
                    (CallV { name: name@, arguments: arguments@ }),
                ),
                Err(m) => said == Err::<CallV, Seq<char>>(m@),
            }
        }),
{
    let v = match parsed {
        Ok(v) => v,
        Err(e) => {
            let head = join3("ignored a malformed tool call (", e.as_str(), "): ");
            return Err(join2(head.as_str(), t));
        },
    };
    let name = match v.get_str("name") {
        Some(n) => owned(n),
        None => return Err(join2("ignored a tool call with no name: ", t)),
    };
    if !listed(allowed, name.as_str()) {
        return Err(join3("ignored a call to unknown tool '", name.as_str(), "'"));
    }
    match v.get("arguments") {
        None => Ok((name, Json::object())),
        Some(args) => if args.is_object() {
            Ok((name, args.copy()))
        } else {
            Err(join2("ignored a call whose arguments were not an object: ", t))
        },
    }
}

/// The form of the identifier of a call: `call_` and a random identifier.
pub open spec fn call_id_shaped(id: Seq<char>) -> bool {
    id.len() == 41 && id.take(5) == "call_"@ && uuid_shaped(id.skip(5))
}

/// The tool call for a name and arguments, under an identifier.
pub fn tool_call(id: String, name: &str, arguments: Json) -> (r: ToolCall)
    ensures
        r.id@ == id@,
        r.kind@ == "function"@,
        r.function@ == (CallV { name: name@, arguments: arguments@ }).function(),
{
    ToolCall {
        id,
        kind: owned("function"),
        function: Json::object().with("name", Json::string(name)).with("arguments", arguments),
    }
}

/// Reads one span into a tool call under a new identifier, or says why it is none.
pub fn parse_call(payload: &str, allowed: &Vec<String>) -> (r: Result<ToolCall, String>)
    ensures
        match read_span(payload@, texts(allowed@)) {
            Ok(call) => r matches Ok(c) && call_id_shaped(c.id@) && c.kind@ == "function"@
                && c.function@ == call.function(),
            Err(m) => r matches Err(e) && e@ == m,
        },
{
    let t = trim(payload);
    match judge_call(Json::parse(t.as_str()), t.as_str(), allowed) {
        Ok((name, arguments)) => {
            let raw = random_id();
            let id = join2("call_", raw.as_str());
            proof {
                reveal_strlit("call_");
                assert(id@.take(5) =~= "call_"@);
                assert(id@.skip(5) =~= raw@);
            }
            Ok(tool_call(id, name.as_str(), arguments))
        },
        Err(m) => Err(m),
    }
}

/// A text cut at the call tags: the text outside the spans, what stands in the spans in
/// order, and the end that must wait for more.
#[verifier::ext_equal]
pub struct ScanV {
    pub text: Seq<char>,
    pub spans: Seq<Seq<char>>,
    pub held: Seq<char>,
}

/// A text cut at the call tags.
pub open spec fn scan_text(s: Seq<char>) -> ScanV
    decreases s.len(),
    via scan_text_terminates
{
    match find_from(s, OPEN@, 0) {
        Some(i) => {
            let after = s.skip(i + OPEN@.len());
            match find_from(after, CLOSE@, 0) {
                Some(j) => {
                    let rest = scan_text(after.skip(j + CLOSE@.len()));
                    ScanV {
                        text: s.take(i) + rest.text,
                        spans: seq![after.take(j)] + rest.spans,
                        held: rest.held,
                    }
                },
                None => ScanV { text: s.take(i), spans: Seq::empty(), held: s.skip(i) },
            }
        },
        None => {
            let n = s.len() - hold_len(s, OPEN@);
            ScanV { text: s.take(n), spans: Seq::empty(), held: s.skip(n) }
        },
    }
}

#[via_fn]
proof fn scan_text_terminates(s: Seq<char>) {
    tag_lengths();
    find_from_is_first(s, OPEN@, 0);
    match find_from(s, OPEN@, 0) {
        Some(i) => {
            find_from_is_first(s.skip(i + OPEN@.len()), CLOSE@, 0);
        },
        None => {},
    }
}

proof fn tag_lengths()
    ensures
        OPEN@.len() == 11,
        CLOSE@.len() == 12,
{
    reveal_strlit("<tool_call>");
    reveal_strlit("</tool_call>");
}

/// Scanning a text whole and scanning it in two pieces come to the same: the same text
/// outside, the same spans in the same order, the same end held back.
pub proof fn scan_in_pieces(a: Seq<char>, b: Seq<char>)
    ensures
        ({
            let x = scan_text(a);
            let y = scan_text(x.held + b);
            scan_text(a + b) == ScanV {
                text: x.text + y.text,
                spans: x.spans + y.spans,
                held: y.held,
            }
        }),
    decreases a.len(),
{
    tag_lengths();
    let c = a + b;
    let x = scan_text(a);
    let y = scan_text(x.held + b);
    let none = Seq::<Seq<char>>::empty();
    let goal = ScanV { text: x.text + y.text, spans: x.spans + y.spans, held: y.held };
    find_from_is_first(a, OPEN@, 0);
    match find_from(a, OPEN@, 0) {
        Some(i) => {
            find_in_longer(a, b, OPEN@);
            let after = a.skip(i + OPEN@.len());
            assert(c.skip(i + OPEN@.len()) =~= after + b);
            assert(c.take(i) =~= a.take(i));
            find_from_is_first(after, CLOSE@, 0);
            match find_from(after, CLOSE@, 0) {
                Some(j) => {
                    find_in_longer(after, b, CLOSE@);
                    let tail = after.skip(j + CLOSE@.len());
                    assert((after + b).skip(j + CLOSE@.len()) =~= tail + b);
                    assert((after + b).take(j) =~= after.take(j));
                    scan_in_pieces(tail, b);
                    let rest = scan_text(tail);
                    assert(a.take(i) + (rest.text + y.text) =~= (a.take(i) + rest.text) + y.text);
                    assert(seq![after.take(j)] + (rest.spans + y.spans) =~= (seq![after.take(j)]
                        + rest.spans) + y.spans);
                    assert(scan_text(c) =~= goal);
                },
                None => {
                    let d = a.skip(i) + b;
                    assert(x.held == a.skip(i));
                    assert(d.take(OPEN@.len() as int) =~= a.subrange(i, i + OPEN@.len()));
                    assert(d.subrange(0, OPEN@.len() as int) =~= d.take(OPEN@.len() as int));
                    assert(find_from(d, OPEN@, 0) == Some(0int));
                    assert(d.skip(OPEN@.len() as int) =~= after + b);
                    assert(d.take(0) =~= Seq::<char>::empty());
                    match find_from(after + b, CLOSE@, 0) {
                        Some(j) => {
                            let rest = scan_text((after + b).skip(j + CLOSE@.len()));
                            assert(a.take(i) + (d.take(0) + rest.text) =~= a.take(i) + rest.text);
                            assert(none + y.spans =~= y.spans);
                            assert(scan_text(c) =~= goal);
                        },
                        None => {
                            assert(d.skip(0) =~= c.skip(i));
                            assert(a.take(i) + d.take(0) =~= a.take(i));
                            assert(none + none =~= none);
                            assert(scan_text(c) =~= goal);
                        },
                    }
                },
            }
        },
        None => {
            let n = a.len() - hold_len(a, OPEN@);
            let d = a.skip(n) + b;
            find_after_hold(a, b, OPEN@);
            hold_after_hold(a, b, OPEN@);
            hold_len_is_longest(d, OPEN@);
            find_from_is_first(d, OPEN@, 0);
            match find_from(d, OPEN@, 0) {
                Some(k) => {
                    let after = d.skip(k + OPEN@.len());
                    assert(c.skip(n + k + OPEN@.len()) =~= after);
                    match find_from(after, CLOSE@, 0) {
                        Some(j) => {
                            let rest = scan_text(after.skip(j + CLOSE@.len()));
                            assert(c.take(n + k) + rest.text =~= a.take(n) + (d.take(k)
                                + rest.text));
                            assert(none + y.spans =~= y.spans);
                            assert(scan_text(c) =~= goal);
                        },
                        None => {
                            assert(c.take(n + k) =~= a.take(n) + d.take(k));
                            assert(c.skip(n + k) =~= d.skip(k));
                            assert(none + none =~= none);
                            assert(scan_text(c) =~= goal);
                        },
                    }
                },
                None => {
                    let m = d.len() - hold_len(d, OPEN@);
                    assert(c.take(n + m) =~= a.take(n) + d.take(m));
                    assert(c.skip(n + m) =~= d.skip(m));
                    assert(none + none =~= none);
                    assert(scan_text(c) =~= goal);
                },
            }
        },
    }
}

/// A text in which no span is closed makes no call: all of it is either given out as text
/// or held back, in order.
pub proof fn unclosed_text_makes_no_call(s: Seq<char>)
    requires
        !crate::text::contains_text(s, CLOSE@),
    ensures
        scan_text(s).spans.len() == 0,
        scan_text(s).text + scan_text(s).held == s,
{
    tag_lengths();
    find_from_is_first(s, OPEN@, 0);
    hold_len_is_longest(s, OPEN@);
    match find_from(s, OPEN@, 0) {
        Some(i) => {
            let after = s.skip(i + OPEN@.len());
            find_from_is_first(after, CLOSE@, 0);
            match find_from(after, CLOSE@, 0) {
                Some(j) => {
                    let k = i + OPEN@.len() + j;
                    assert(s.subrange(k, k + CLOSE@.len()) =~= after.subrange(
                        j,
                        j + CLOSE@.len(),
                    ));
                    assert(crate::text::occurs_at(s, CLOSE@, k));
                },
                None => {},
            }
            assert(s.take(i) + s.skip(i) =~= s);
        },
        None => {
            let n = s.len() - hold_len(s, OPEN@);
            assert(s.take(n) + s.skip(n) =~= s);
        },
    }
}

/// The calls among the spans, in order.
pub open spec fn span_calls(spans: Seq<Seq<char>>, allowed: Seq<Seq<char>>) -> Seq<CallV>
    decreases spans.len(),
{
    if spans.len() == 0 {
        Seq::empty()
    } else {
        let before = span_calls(spans.drop_last(), allowed);
        match read_span(spans.last(), allowed) {
            Ok(call) => before.push(call),
            Err(_) => before,
        }
    }
}

/// The reasons why spans are no calls, in order.
pub open spec fn span_errors(spans: Seq<Seq<char>>, allowed: Seq<Seq<char>>) -> Seq<Seq<char>>
    decreases spans.len(),
{
    if spans.len() == 0 {
        Seq::empty()
    } else {
        let before = span_errors(spans.drop_last(), allowed);
        match read_span(spans.last(), allowed) {
            Ok(_) => before,
            Err(m) => before.push(m),
        }
    }
}

/// Each span is read by itself.
pub proof fn spans_add_up(a: Seq<Seq<char>>, b: Seq<Seq<char>>, allowed: Seq<Seq<char>>)
    ensures
        span_calls(a + b, allowed) == span_calls(a, allowed) + span_calls(b, allowed),
        span_errors(a + b, allowed) == span_errors(a, allowed) + span_errors(b, allowed),
    decreases b.len(),
{
    if b.len() == 0 {
        assert(a + b =~= a);
        assert(span_calls(a, allowed) + span_calls(b, allowed) =~= span_calls(a, allowed));
        assert(span_errors(a, allowed) + span_errors(b, allowed) =~= span_errors(a, allowed));
    } else {
        spans_add_up(a, b.drop_last(), allowed);
        assert((a + b).drop_last() =~= a + b.drop_last());
        assert((a + b).last() == b.last());
        assert(span_calls(a + b, allowed) =~= span_calls(a, allowed) + span_calls(b, allowed));
        assert(span_errors(a + b, allowed) =~= span_errors(a, allowed) + span_errors(b, allowed));
    }
}

/// The tool calls carry the given calls, each under an identifier of its own form.
pub open spec fn carry(calls: Seq<ToolCall>, said: Seq<CallV>) -> bool {
    &&& calls.len() == said.len()
    &&& forall|i: int|
        0 <= i < calls.len() ==> call_id_shaped((#[trigger] calls[i]).id@) && calls[i].kind@
            == "function"@ && calls[i].function@ == said[i].function()
}

/// No tool is called that the turn does not offer.
pub proof fn only_listed_tools_are_called(spans: Seq<Seq<char>>, allowed: Seq<Seq<char>>)
    ensures
        forall|i: int|
            0 <= i < span_calls(spans, allowed).len() ==> allowed.contains(
                (#[trigger] span_calls(spans, allowed)[i]).name,
            ),
        span_calls(spans, allowed).len() + span_errors(spans, allowed).len() == spans.len(),
    decreases spans.len(),
{
    if spans.len() > 0 {
        only_listed_tools_are_called(spans.drop_last(), allowed);
    }
}

/// The outcome of scanning one piece.
#[derive(Debug)]
pub struct ScanOut {
    /// Text outside the spans.
    pub text: String,
    /// The calls of known tools.
    pub calls: Vec<ToolCall>,
    /// The reasons why spans were not executed.
    pub errors: Vec<String>,
}

/// The names of the tools that have one, in order.
pub open spec fn tool_names(tools: Seq<JsonV>) -> Seq<Seq<char>>
    decreases tools.len(),
{
    if tools.len() == 0 {
        Seq::empty()
    } else {
        let before = tool_names(tools.drop_last());
        match tool_name(tools.last()) {
            Some(name) => before.push(name),
            None => before,
        }
    }
}

/// Pulls `<tool_call>…</tool_call>` spans out of a text that arrives in pieces.
pub struct ToolCallScanner {
    buf: Vec<char>,
    allowed: Vec<String>,
}

impl ToolCallScanner {
    /// What waits for more text: a span that is not closed, or the beginning of a tag.
    pub closed spec fn held(&self) -> Seq<char> {
        self.buf@
    }

    /// The names of the tools that may be called.
    pub closed spec fn names(&self) -> Seq<Seq<char>> {
        texts(self.allowed@)
    }

    /// A scanner for the given tools.
    pub fn new(tools: &[Json]) -> (r: ToolCallScanner)
        ensures
            r.held() == Seq::<char>::empty(),
            r.names() == tool_names(jsons(tools@)),
    {
        let mut allowed: Vec<String> = Vec::new();
        let mut i: usize = 0;
        proof {
            assert(texts(allowed@) =~= tool_names(jsons(tools@).take(0)));
        }
        while i < tools.len()
            invariant
                i <= tools@.len(),
                texts(allowed@) == tool_names(jsons(tools@).take(i as int)),
            decreases tools@.len() - i,
        {
            let ghost before = allowed@;
            match tool_parts(&tools[i]) {
                Some((name, _desc, _params)) => {
                    allowed.push(name);
                    proof {
                        assert(texts(allowed@) =~= texts(before).push(name@));
                    }
                },
                None => {},
            }
            i += 1;
            proof {
                let t = jsons(tools@);
                assert(t.take(i as int).drop_last() =~= t.take(i - 1));
                assert(t.take(i as int).last() == tools@[i - 1]@);
            }
        }
        proof {
            assert(jsons(tools@).take(i as int) =~= jsons(tools@));
        }
        ToolCallScanner { buf: Vec::new(), allowed }
    }

    /// Takes the next piece: gives out the text outside the spans, the calls that are
    /// complete and the reasons why spans are none.
    pub fn feed(&mut self, piece: &str) -> (r: ScanOut)
        ensures
            ({
                let x = scan_text(old(self).held() + piece@);
                &&& r.text@ == x.text
                &&& carry(r.calls@, span_calls(x.spans, old(self).names()))
                &&& texts(r.errors@) == span_errors(x.spans, old(self).names())
                &&& final(self).held() == x.held
                &&& final(self).names() == old(self).names()
            }),
    {
        let ghost start = self.buf@ + piece@;
        let ghost whole = scan_text(start);
        let ghost allowed = texts(self.allowed@);
        let mut more = chars_of(piece);
        let mut s: Vec<char> = Vec::new();
        s.append(&mut self.buf);
        s.append(&mut more);
        let open = chars_of(OPEN);
        let close = chars_of(CLOSE);
        let mut text = String::new();
        let mut calls: Vec<ToolCall> = Vec::new();
        let mut errors: Vec<String> = Vec::new();
        let ghost mut done: Seq<Seq<char>> = Seq::empty();
        proof {
            tag_lengths();
            assert(s@ =~= start);
            assert(text@ + whole.text =~= whole.text);
            assert(done + whole.spans =~= whole.spans);
            assert(texts(errors@) =~= span_errors(done, allowed));
        }
        loop
            invariant
                open@ == OPEN@,
                close@ == CLOSE@,
                OPEN@.len() == 11,
                CLOSE@.len() == 12,
                whole == scan_text(old(self).held() + piece@),
                self.allowed == old(self).allowed,
                allowed == texts(self.allowed@),
                allowed == old(self).names(),
                carry(calls@, span_calls(done, allowed)),
                texts(errors@) == span_errors(done, allowed),
                ({
                    let x = scan_text(s@);
                    whole == ScanV {
                        text: text@ + x.text,
                        spans: done + x.spans,
                        held: x.held,
                    }
                }),
            decreases s@.len(),
        {
            let ghost t0 = text@;
            let ghost x = scan_text(s@);
            proof {
                find_from_is_first(s@, OPEN@, 0);
                hold_len_is_longest(s@, OPEN@);
            }
            match find_chars(&s, &open, 0) {
                Some(open_at) => {
                    let before = string_of(&s, 0, open_at);
                    text.push_str(before.as_str());
                    let total: usize = s.len();
                    assert(open_at + open@.len() <= total);
                    let after_at: usize = open_at + open.len();
                    let mut after = s.split_off(after_at);
                    proof {
                        find_from_is_first(after@, CLOSE@, 0);
                    }
                    match find_chars(&after, &close, 0) {
                        Some(close_at) => {
                            let payload = string_of(&after, 0, close_at);
                            let ghost errors0 = errors@;
                            proof {
                                assert(done.push(payload@).drop_last() =~= done);
                            }
                            match parse_call(payload.as_str(), &self.allowed) {
                                Ok(tc) => {
                                    calls.push(tc);
                                },
                                Err(e) => {
                                    errors.push(e);
                                    proof {
                                        assert(texts(errors@) =~= texts(errors0).push(e@));
                                    }
                                },
                            }
                            let total: usize = after.len();
                            assert(close_at + close@.len() <= total);
                            let rest_at: usize = close_at + close.len();
                            let rest = after.split_off(rest_at);
                            proof {
                                let z = scan_text(rest@);
                                assert(t0 + (before@ + z.text) =~= t0 + before@ + z.text);
                                assert(done + (seq![payload@] + z.spans) =~= done.push(payload@)
                                    + z.spans);
                                done = done.push(payload@);
                            }
                            s = rest;
                        },
                        None => {
                            s.append(&mut after);
                            let rest = s.split_off(open_at);
                            proof {
                                assert(x.spans =~= Seq::<Seq<char>>::empty());
                                assert(done + x.spans =~= done);
                            }
                            self.buf = rest;
                            return ScanOut { text, calls, errors };
                        },
                    }
                },
                None => {
                    let hold = longest_tag_prefix_suffix(&s, &open);
                    let n: usize = s.len() - hold;
                    let before = string_of(&s, 0, n);
                    text.push_str(before.as_str());
                    let rest = s.split_off(n);
                    proof {
                        assert(x.spans =~= Seq::<Seq<char>>::empty());
                        assert(done + x.spans =~= done);
                    }
                    self.buf = rest;
                    return ScanOut { text, calls, errors };
                },
            }
        }
    }

    /// The end of the text: what still waits is text, never a call.
    pub fn flush(&mut self) -> (r: String)
        ensures
            r@ == old(self).held(),
            final(self).held() == Seq::<char>::empty(),
            final(self).names() == old(self).names(),
    {
        let r = string_all(&self.buf);
        self.buf = Vec::new();
        r
    }
}

/// A tool is described by its function, or by itself where it has no envelope: by its trimmed
/// name, without which it is no tool, its description, and the schema of its arguments, which
/// is that of an object without properties where it has none.
pub proof fn tools_are_described_by_their_function(tool: JsonV)
    ensures
        ({
            let f = match tool.get("function"@) {
                Some(f) => f,
                None => tool,
            };
            &&& tool_function(tool) == f
            &&& tool_name(tool) == (match f.at("name"@) {
                JsonV::Str(n) => if trimmed(n).len() > 0 {
                    Some(trimmed(n))
                } else {
                    None
                },
                _ => None,
            })
            &&& tool_desc(tool) == (match f.at("description"@) {
                JsonV::Str(d) => d,
                _ => ""@,
            })
            &&& f.at("parameters"@) is Obj ==> tool_params(tool) == f.at("parameters"@)
            &&& !(f.at("parameters"@) is Obj) ==> tool_params(tool).at("type"@) == JsonV::Str(
                "object"@,
            ) && tool_params(tool).at("properties"@) == JsonV::empty()
        }),
{
    reveal_strlit("type");
    reveal_strlit("properties");
    assert("type"@.len() == 4 && "properties"@.len() == 10);
}

/// The model is told how to call and of each tool with a name, in order: its name, what it is
/// for, and what arguments it takes.
pub proof fn tools_are_told_one_by_one(tools: Seq<JsonV>, tool: JsonV)
    ensures
        tool_lines(Seq::empty()).len() == 0,
        tool_lines(tools.push(tool)) == tool_lines(tools) + tool_line(tool),
        tool_name(tool) is None ==> tool_line(tool).len() == 0,
        tool_name(tool) matches Some(name) ==> tool_line(tool) == (if tool_desc(tool).len() > 0 {
            "- "@ + name + (": "@ + tool_desc(tool)) + "\n  parameters: "@ + text_of_json(
                tool_params(tool),
            ) + "\n"@
        } else {
            "- "@ + name + Seq::<char>::empty() + "\n  parameters: "@ + text_of_json(
                tool_params(tool),
            ) + "\n"@
        }),
        block_head()
            == "\n\nYou can call tools. To call one, emit exactly this and nothing else on the line:\n"@
            + "<tool_call>"@ + "{\"name\": \"<tool>\", \"arguments\": { ... }}"@ + "</tool_call>"@
            + "\nAvailable tools:\n"@,
{
    assert(tools.push(tool).drop_last() =~= tools);
}

/// A call is held to its tool: it names the tool and nothing else, has the arguments that the
/// tool takes, needs both, and has no more. Each tool with a name has such a schema, in order.
pub proof fn calls_are_held_to_their_tool(tools: Seq<JsonV>, tool: JsonV, name: Seq<char>, params: JsonV)
    ensures
        ({
            let s = call_schema(name, params);
            &&& s.at("type"@) == JsonV::Str("object"@)
            &&& s.at("properties"@).at("name"@).at("enum"@) == JsonV::Arr(seq![JsonV::Str(name)])
            &&& s.at("properties"@).at("arguments"@) == params
            &&& s.at("required"@) == JsonV::Arr(
                seq![JsonV::Str("name"@), JsonV::Str("arguments"@)],
            )
            &&& s.at("additionalProperties"@) == JsonV::Bool(false)
        }),
        call_schemas(Seq::empty()).len() == 0,
        tool_name(tool) matches Some(n) ==> call_schemas(tools.push(tool)) == call_schemas(
            tools,
        ).push(call_schema(n, tool_params(tool))),
        tool_name(tool) is None ==> call_schemas(tools.push(tool)) == call_schemas(tools),
        tool_names(Seq::empty()).len() == 0,
        tool_name(tool) matches Some(n) ==> tool_names(tools.push(tool)) == tool_names(tools).push(
            n,
        ),
        tool_name(tool) is None ==> tool_names(tools.push(tool)) == tool_names(tools),
{
    reveal_strlit("type");
    reveal_strlit("properties");
    reveal_strlit("required");
    reveal_strlit("additionalProperties");
    reveal_strlit("name");
    reveal_strlit("arguments");
    assert("type"@.len() == 4 && "properties"@.len() == 10 && "required"@.len() == 8
        && "additionalProperties"@.len() == 20 && "name"@.len() == 4 && "arguments"@.len() == 9);
    assert(tools.push(tool).drop_last() =~= tools);
}

/// A span is a call just where it is JSON, names a tool that is offered, and has an object for
/// its arguments, or none. The call is then of that tool with those arguments; in any other
/// case it is told why it is none.
pub proof fn spans_are_calls_of_offered_tools(payload: Seq<char>, allowed: Seq<Seq<char>>)
    ensures
        ({
            let t = trimmed(payload);
            let v = json_of_text(t);
            let named = v matches Some(j) && j.at("name"@) is Str;
            let known = v matches Some(j) && (j.at("name"@) matches JsonV::Str(n)
                && allowed.contains(n));
            let fits = v matches Some(j) && (j.get("arguments"@) is None || j.get("arguments"@)->0 is Obj);
            &&& read_span(payload, allowed) is Ok <==> v is Some && named && known && fits
            &&& read_span(payload, allowed) matches Ok(c) ==> {
                &&& v->0.at("name"@) == JsonV::Str(c.name)
                &&& v->0.get("arguments"@) matches Some(a) ==> c.arguments == a
                &&& v->0.get("arguments"@) is None ==> c.arguments == JsonV::empty()
            }
            &&& v is None ==> read_span(payload, allowed) == Err::<CallV, Seq<char>>(
                "ignored a malformed tool call ("@ + json_error_of_text(t) + "): "@ + t,
            )
            &&& v is Some && !named ==> read_span(payload, allowed) == Err::<CallV, Seq<char>>(
                "ignored a tool call with no name: "@ + t,
            )
            &&& named && !known ==> read_span(payload, allowed) == Err::<CallV, Seq<char>>(
                "ignored a call to unknown tool '"@ + v->0.text_at("name"@)->0 + "'"@,
            )
            &&& known && !fits ==> read_span(payload, allowed) == Err::<CallV, Seq<char>>(
                "ignored a call whose arguments were not an object: "@ + t,
            )
        }),
{
}

/// A call carries its name and its arguments.
pub proof fn calls_carry_name_and_arguments(c: CallV)
    ensures
        c.function().get("name"@) == Some(JsonV::Str(c.name)),
        c.function().get("arguments"@) == Some(c.arguments),
{
    reveal_strlit("name");
    reveal_strlit("arguments");
    assert("name"@.len() == 4 && "arguments"@.len() == 9);
}

/// Each span that is a call is called, in order, and each that is none is told.
pub proof fn spans_are_read_one_by_one(spans: Seq<Seq<char>>, span: Seq<char>, allowed: Seq<Seq<char>>)
    ensures
        span_calls(Seq::empty(), allowed).len() == 0,
        span_errors(Seq::empty(), allowed).len() == 0,
        read_span(span, allowed) matches Ok(c) ==> span_calls(spans.push(span), allowed)
            == span_calls(spans, allowed).push(c) && span_errors(spans.push(span), allowed)
            == span_errors(spans, allowed),
        read_span(span, allowed) matches Err(m) ==> span_calls(spans.push(span), allowed)
            == span_calls(spans, allowed) && span_errors(spans.push(span), allowed) == span_errors(
            spans,
            allowed,
        ).push(m),
{
    assert(spans.push(span).drop_last() =~= spans);
}

/// A text without a tag is text: nothing of it is a call and nothing waits.
pub proof fn text_without_a_tag_is_text(s: Seq<char>)
    requires
        crate::provider::tag_split::has_no_tag(s),
    ensures
        scan_text(s) == (ScanV { text: s, spans: Seq::empty(), held: Seq::empty() }),
{
    reveal_strlit("<tool_call>");
    let tag = "<tool_call>"@;
    find_from_is_first(s, tag, 0);
    match find_from(s, tag, 0) {
        Some(i) => {
            assert(s.subrange(i, i + tag.len())[0] == s[i]);
        },
        None => {},
    }
    hold_len_is_longest(s, tag);
    let k = hold_len(s, tag);
    if k > 0 {
        assert(s.skip(s.len() - k)[0] == s[s.len() - k]);
        assert(tag.take(k)[0] == '<');
    }
    assert(s.take(s.len() as int) =~= s);
    assert(s.skip(s.len() as int) =~= Seq::empty());
}

/// What stands between the tags is a span, and what stands around them is text.
pub proof fn tags_part_the_calls_from_the_text(a: Seq<char>, b: Seq<char>, c: Seq<char>)
    requires
        crate::provider::tag_split::has_no_tag(a),
        crate::provider::tag_split::has_no_tag(b),
        crate::provider::tag_split::has_no_tag(c),
    ensures
        scan_text(a + "<tool_call>"@ + (b + "</tool_call>"@ + c)) == (ScanV {
            text: a + c,
            spans: seq![b],
            held: Seq::empty(),
        }),
{
    reveal_strlit("<tool_call>");
    reveal_strlit("</tool_call>");
    let rest = b + "</tool_call>"@ + c;
    crate::provider::tag_split::first_tag(a, "<tool_call>"@, rest);
    crate::provider::tag_split::first_tag(b, "</tool_call>"@, c);
    text_without_a_tag_is_text(c);
    assert(seq![b] + Seq::<Seq<char>>::empty() =~= seq![b]);
}

/// The identifier of a call begins with `call_`, and what is carried is what was said.
pub proof fn calls_are_carried_as_said(calls: Seq<ToolCall>, said: Seq<CallV>, i: int)
    requires
        carry(calls, said),
        0 <= i < calls.len(),
    ensures
        calls.len() == said.len(),
        calls[i].kind@ == "function"@,
        calls[i].function@.get("name"@) == Some(JsonV::Str(said[i].name)),
        calls[i].function@.get("arguments"@) == Some(said[i].arguments),
        "call_"@.is_prefix_of(calls[i].id@),
        calls[i].id@.len() == 41,
{
    calls_carry_name_and_arguments(said[i]);
    reveal_strlit("call_");
    assert(call_id_shaped(calls[i].id@));
}

} // verus!
