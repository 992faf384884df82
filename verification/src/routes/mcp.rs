//! The `/api/mcp/servers` routes: what a request changes and what is shown of a server.
//!
//! The values of headers are stored sealed. Sealing is not done here: the library says
//! which texts are to be sealed and puts the sealed texts in their place.

use crate::dict::Dict;
use crate::json::{entries_model, json_of_text, opt_json, opt_string, owned_opt, reads_back, text_of_json, Json, JsonV};
use crate::routes::reply::{err_response, json_response, refusal, Reply, ReplyV};
use crate::text::owned;
use vstd::prelude::*;

verus! {

/// A stored server.
#[derive(Debug, Clone, PartialEq)]
pub struct MCPServerRow {
    pub id: String,
    pub name: String,
    pub transport: String,
    pub command: Option<String>,
    pub args: Option<String>,
    pub url: Option<String>,
    pub env: Option<String>,
    pub headers: Option<String>,
    pub enabled: i32,
    pub timeout_s: Option<i64>,
    pub status: String,
    pub error_message: Option<String>,
    pub created_at: Option<String>,
    pub updated_at: Option<String>,
}

impl MCPServerRow {
    /// The row as an object of its columns.
    pub open spec fn columns(&self) -> JsonV {
        JsonV::empty().put("id"@, JsonV::Str(self.id@)).put("name"@, JsonV::Str(self.name@)).put(
            "transport"@,
            JsonV::Str(self.transport@),
        ).put("command"@, opt_json(opt_string(self.command))).put(
            "args"@,
            opt_json(opt_string(self.args)),
        ).put("url"@, opt_json(opt_string(self.url))).put(
            "env"@,
            opt_json(opt_string(self.env)),
        ).put("headers"@, opt_json(opt_string(self.headers))).put(
            "enabled"@,
            JsonV::Int(self.enabled as int),
        ).put(
            "timeout_s"@,
            match self.timeout_s {
                Some(n) => JsonV::Int(n as int),
                None => JsonV::Null,
            },
        ).put("status"@, JsonV::Str(self.status@)).put(
            "error_message"@,
            opt_json(opt_string(self.error_message)),
        ).put("created_at"@, opt_json(opt_string(self.created_at))).put(
            "updated_at"@,
            opt_json(opt_string(self.updated_at)),
        )
    }

    fn to_json(&self) -> (r: Json)
        ensures
            r@ == self.columns(),
    {
        let timeout = match self.timeout_s {
            Some(n) => Json::Int(n),
            None => Json::Null,
        };
        Json::object().with("id", Json::string(self.id.as_str())).with(
            "name",
            Json::string(self.name.as_str()),
        ).with("transport", Json::string(self.transport.as_str())).with(
            "command",
            Json::opt(&self.command),
        ).with("args", Json::opt(&self.args)).with("url", Json::opt(&self.url)).with(
            "env",
            Json::opt(&self.env),
        ).with("headers", Json::opt(&self.headers)).with(
            "enabled",
            Json::Int(self.enabled as i64),
        ).with("timeout_s", timeout).with("status", Json::string(self.status.as_str())).with(
            "error_message",
            Json::opt(&self.error_message),
        ).with("created_at", Json::opt(&self.created_at)).with(
            "updated_at",
            Json::opt(&self.updated_at),
        )
    }
}

/// The headers of a request: a text that is JSON counts as what it says.
pub open spec fn unwrapped(headers: JsonV, parsed: Option<JsonV>) -> JsonV {
    match headers {
        JsonV::Str(_) => match parsed {
            Some(j) => j,
            None => headers,
        },
        other => other,
    }
}

/// What the headers of a request say.
pub open spec fn headers_said(headers: JsonV) -> JsonV {
    unwrapped(
        headers,
        match headers {
            JsonV::Str(s) => json_of_text(s),
            _ => None,
        },
    )
}

/// What the headers of a request say: a client that sends the object as text is
/// understood.
pub fn normalize_headers(headers: &Json) -> (r: Json)
    ensures
        r@ == headers_said(headers@),
{
    match headers.as_str() {
        Some(s) => match Json::parse(s) {
            Ok(j) => j,
            Err(_) => headers.copy(),
        },
        None => headers.copy(),
    }
}

/// The headers with each text replaced by its other form, or by null where it has none.
pub open spec fn replaced(m: Map<Seq<char>, JsonV>, forms: Map<Seq<char>, String>) -> Map<
    Seq<char>,
    JsonV,
> {
    Map::new(
        |k: Seq<char>| m.contains_key(k),
        |k: Seq<char>|
            if m[k] is Str {
                if forms.contains_key(k) {
                    JsonV::Str(forms[k]@)
                } else {
                    JsonV::Null
                }
            } else {
                m[k]
            },
    )
}

/// An object with each text replaced by the form that `forms` gives for its key; any other
/// value as it is.
pub open spec fn replaced_value(v: JsonV, forms: Map<Seq<char>, String>) -> JsonV {
    match v {
        JsonV::Obj(m) => JsonV::Obj(replaced(m, forms)),
        other => other,
    }
}

/// An object with each text replaced by the form that `forms` gives for its key.
pub fn replace_texts(v: &Json, forms: &Dict<String>) -> (r: Json)
    ensures
        r@ == replaced_value(v@, forms@),
{
    match v {
        Json::Obj(entries) => {
            let mut out = Json::object();
            let mut i: usize = 0;
            proof {
                assert(replaced(entries_model(*entries, 0), forms@) =~= Map::empty());
            }
            while i < entries.len()
                invariant
                    i <= entries@.len(),
                    out@ == JsonV::Obj(replaced(entries_model(*entries, i as nat), forms@)),
                decreases entries@.len() - i,
            {
                let key = entries[i].0.as_str();
                let value = if entries[i].1.as_str().is_some() {
                    match forms.get(key) {
                        Some(s) => Json::string(s.as_str()),
                        None => Json::Null,
                    }
                } else {
                    entries[i].1.copy()
                };
                out = out.with(key, value);
                proof {
                    let e = entries_model(*entries, i as nat);
                    let k = entries@[i as int].0@;
                    let x = entries@[i as int].1@;
                    assert(entries_model(*entries, (i + 1) as nat) == e.insert(k, x));
                    assert(replaced(e, forms@).insert(k, value@) =~= replaced(
                        e.insert(k, x),
                        forms@,
                    ));
                }
                i += 1;
            }
            out
        },
        _ => v.copy(),
    }
}

/// The texts of an object by their keys: what is to be sealed, or to be opened.
pub fn texts_in(v: &Json) -> (r: Dict<String>)
    ensures
        forall|k: Seq<char>| #[trigger]
            r@.contains_key(k) <==> v@.text_at(k) is Some,
        forall|k: Seq<char>| #[trigger] r@.contains_key(k) ==> Some(r@[k]@) == v@.text_at(k),
{
    let mut out: Dict<String> = Dict::new();
    match v {
        Json::Obj(entries) => {
            let mut i: usize = 0;
            while i < entries.len()
                invariant
                    i <= entries@.len(),
                    *v == Json::Obj(*entries),
                    forall|k: Seq<char>| #[trigger]
                        out@.contains_key(k) ==> v@.text_at(k) == Some(out@[k]@),
                    forall|j: int|
                        0 <= j < i && v@.text_at((#[trigger] entries@[j]).0@) is Some
                            ==> out@.contains_key(entries@[j].0@),
                decreases entries@.len() - i,
            {
                let key = entries[i].0.as_str();
                match v.get_str(key) {
                    Some(s) => {
                        out.insert(key, owned(s));
                    },
                    None => {},
                }
                i += 1;
            }
            proof {
                assert forall|k: Seq<char>| v@.text_at(k) is Some implies #[trigger]
                    out@.contains_key(k) by {
                    keys_come_from_entries(*entries, entries@.len(), k);
                }
            }
        },
        _ => {},
    }
    out
}

proof fn keys_come_from_entries(v: Vec<(String, Json)>, n: nat, k: Seq<char>)
    requires
        n <= v@.len(),
        entries_model(v, n).contains_key(k),
    ensures
        exists|j: int| 0 <= j < n && (#[trigger] v@[j]).0@ == k,
    decreases n,
{
    if n > 0 {
        if v@[n - 1].0@ == k {
            assert(v@[n - 1].0@ == k);
        } else {
            keys_come_from_entries(v, (n - 1) as nat, k);
        }
    }
}

/// The headers to store: what the request's headers say, with each text in its sealed
/// form.
pub fn encrypt_headers(headers: &Json, sealed: &Dict<String>) -> (r: String)
    ensures
        r@ == text_of_json(replaced_value(headers_said(headers@), sealed@)),
        reads_back(replaced_value(headers_said(headers@), sealed@)),
{
    let said = normalize_headers(headers);
    replace_texts(&said, sealed).print()
}

/// Where each text has a sealed form, what is stored holds no text but sealed ones, and
/// opening each of them again gives back what the request said.
pub proof fn sealed_headers_open_again(
    m: Map<Seq<char>, JsonV>,
    sealed: Map<Seq<char>, String>,
    opened: Map<Seq<char>, String>,
)
    requires
        forall|k: Seq<char>| #[trigger]
            m.contains_key(k) && m[k] is Str ==> sealed.contains_key(k) && opened.contains_key(k)
                && JsonV::Str(opened[k]@) == m[k],
    ensures
        replaced(replaced(m, sealed), opened) == m,
        forall|k: Seq<char>| #[trigger]
            replaced(m, sealed).contains_key(k) && replaced(m, sealed)[k] is Str ==> replaced(
                m,
                sealed,
            )[k] == JsonV::Str(sealed[k]@),
{
    assert(replaced(replaced(m, sealed), opened) =~= m);
}

/// Headers with each text masked.
pub open spec fn masked(m: Map<Seq<char>, JsonV>) -> Map<Seq<char>, JsonV> {
    Map::new(
        |k: Seq<char>| m.contains_key(k),
        |k: Seq<char>|
            if m[k] is Str {
                JsonV::Str("***"@)
            } else {
                m[k]
            },
    )
}

/// What is shown of headers does not depend on their texts: headers of the same names,
/// equal but for the texts they hold, are shown alike.
pub proof fn masked_headers_tell_no_text(a: Map<Seq<char>, JsonV>, b: Map<Seq<char>, JsonV>)
    requires
        a.dom() == b.dom(),
        forall|k: Seq<char>| #[trigger]
            a.contains_key(k) ==> a[k] == b[k] || (a[k] is Str && b[k] is Str),
    ensures
        masked(a) == masked(b),
{
    assert forall|k: Seq<char>| a.contains_key(k) == b.contains_key(k) by {
        assert(a.dom().contains(k) == b.dom().contains(k));
    }
    assert(masked(a) =~= masked(b));
}

/// Headers with each text masked.
pub fn mask_texts(v: &Json) -> (r: Json)
    requires
        v@ is Obj,
    ensures
        r@ == JsonV::Obj(masked(v@->Obj_0)),
{
    let mut out = Json::object();
    match v {
        Json::Obj(entries) => {
            let mut i: usize = 0;
            proof {
                assert(masked(entries_model(*entries, 0)) =~= Map::empty());
            }
            while i < entries.len()
                invariant
                    i <= entries@.len(),
                    out@ == JsonV::Obj(masked(entries_model(*entries, i as nat))),
                decreases entries@.len() - i,
            {
                let value = if entries[i].1.as_str().is_some() {
                    Json::string("***")
                } else {
                    entries[i].1.copy()
                };
                out = out.with(entries[i].0.as_str(), value);
                proof {
                    let e = entries_model(*entries, i as nat);
                    let k = entries@[i as int].0@;
                    let x = entries@[i as int].1@;
                    assert(entries_model(*entries, (i + 1) as nat) == e.insert(k, x));
                    assert(masked(e).insert(k, value@) =~= masked(e.insert(k, x)));
                }
                i += 1;
            }
        },
        _ => {},
    }
    out
}

/// What is shown in place of headers that are no object.
pub const MASK: &'static str = "***";

/// The row as it is shown, where `parsed` is what its headers say: the texts of an object are
/// masked one by one, and anything else is masked as a whole, unless it says nothing.
pub open spec fn shown_row(row: MCPServerRow, parsed: Option<JsonV>) -> JsonV {
    match parsed {
        Some(JsonV::Obj(m)) => row.columns().put(
            "headers"@,
            JsonV::Str(text_of_json(JsonV::Obj(masked(m)))),
        ),
        Some(JsonV::Null) => row.columns(),
        _ => match row.headers {
            Some(h) => if h@.len() > 0 {
                row.columns().put("headers"@, JsonV::Str(MASK@))
            } else {
                row.columns()
            },
            None => row.columns(),
        },
    }
}

/// Stored headers that are no JSON object are never shown.
pub proof fn headers_that_are_no_object_are_masked(row: MCPServerRow, h: Seq<char>)
    requires
        opt_string(row.headers) == Some(h),
        h.len() > 0,
        json_of_text(h) matches Some(v) ==> !(v is Obj) && !(v is Null),
    ensures
        shown_row(row, json_of_text(h)).text_at("headers"@) == Some(MASK@),
{
}

/// The row as it is shown: the values of its headers are masked.
pub fn redact_headers(row: &MCPServerRow) -> (r: Json)
    ensures
        r@ == shown_row(
            *row,
            match row.headers {
                Some(h) => json_of_text(h@),
                None => None,
            },
        ),
{
    let json = row.to_json();
    match &row.headers {
        Some(h) => match Json::parse(h.as_str()) {
            Ok(j) => if j.is_object() {
                let text = mask_texts(&j).print();
                json.with("headers", Json::Str(text))
            } else if j.is_null() || h.as_str().is_empty() {
                json
            } else {
                json.with("headers", Json::string(MASK))
            },
            Err(_) => if h.as_str().is_empty() {
                json
            } else {
                json.with("headers", Json::string(MASK))
            },
        },
        None => json,
    }
}

/// A field to store as text, where `parsed` is what a text says as JSON: an array or an
/// object that comes as text is stored as that text.
pub open spec fn field_text(v: JsonV, parsed: Option<JsonV>) -> Seq<char> {
    match v {
        JsonV::Str(s) => match parsed {
            Some(JsonV::Arr(_)) => s,
            Some(JsonV::Obj(_)) => s,
            _ => text_of_json(v),
        },
        _ => text_of_json(v),
    }
}

/// A field to store as text.
pub open spec fn normal_field(v: JsonV) -> Seq<char> {
    field_text(
        v,
        match v {
            JsonV::Str(s) => json_of_text(s),
            _ => None,
        },
    )
}

/// A field to store as text: a client that sends an array or an object as text is
/// understood.
pub fn normalize_json_field(v: &Json) -> (r: String)
    ensures
        r@ == normal_field(v@),
{
    match v.as_str() {
        Some(s) => match Json::parse(s) {
            Ok(j) => match j {
                Json::Arr(_) => owned(s),
                Json::Obj(_) => owned(s),
                _ => v.print(),
            },
            Err(_) => v.print(),
        },
        None => v.print(),
    }
}

/// A field of a request to store as text, where it has the field.
pub open spec fn field_of(body: JsonV, key: Seq<char>) -> Option<Seq<char>> {
    match body.get(key) {
        Some(v) => Some(normal_field(v)),
        None => None,
    }
}

fn field_in(body: &Json, key: &str) -> (r: Option<String>)
    ensures
        opt_string(r) == field_of(body@, key@),
{
    match body.get(key) {
        Some(v) => Some(normalize_json_field(v)),
        None => None,
    }
}

/// The headers to store, where the request has any.
pub open spec fn headers_of(body: JsonV, sealed: Map<Seq<char>, String>) -> Option<Seq<char>> {
    match body.get("headers"@) {
        Some(h) => Some(text_of_json(replaced_value(headers_said(h), sealed))),
        None => None,
    }
}

fn headers_in(body: &Json, sealed: &Dict<String>) -> (r: Option<String>)
    ensures
        opt_string(r) == headers_of(body@, sealed@),
{
    match body.get("headers") {
        Some(h) => Some(encrypt_headers(h, sealed)),
        None => None,
    }
}

/// A server that a request creates.
#[derive(Debug, PartialEq)]
pub struct NewServer {
    pub name: String,
    pub transport: String,
    pub command: Option<String>,
    pub args: Option<String>,
    pub url: Option<String>,
    pub env: Option<String>,
    pub headers: Option<String>,
    pub enabled: bool,
}

/// The server is the one that a request creates.
pub open spec fn is_new_server(s: NewServer, body: JsonV, sealed: Map<Seq<char>, String>) -> bool {
    &&& Some(s.name@) == body.text_at("name"@)
    &&& Some(s.transport@) == body.text_at("transport"@)
    &&& opt_string(s.command) == body.text_at("command"@)
    &&& opt_string(s.url) == body.text_at("url"@)
    &&& opt_string(s.args) == field_of(body, "args"@)
    &&& opt_string(s.env) == field_of(body, "env"@)
    &&& opt_string(s.headers) == headers_of(body, sealed)
    &&& s.enabled == (match body.at("enabled"@).truth() {
        Some(b) => b,
        None => true,
    })
}

/// The server that a request creates, enabled unless it says otherwise. A request without
/// a name or a transport is refused.
pub fn create_server(body: &Json, sealed: &Dict<String>) -> (r: Result<NewServer, Reply>)
    ensures
        match r {
            Ok(s) => is_new_server(s, body@, sealed@),
            Err(reply) => (body@.text_at("name"@) is None || body@.text_at("transport"@) is None)
                && reply@ == refusal(400, "name and transport are required"@),
        },
{
    match (body.get_str("name"), body.get_str("transport")) {
        (Some(name), Some(transport)) => {
            let enabled = match body.get("enabled") {
                Some(e) => match e.as_bool() {
                    Some(b) => b,
                    None => true,
                },
                None => true,
            };
            Ok(
                NewServer {
                    name: owned(name),
                    transport: owned(transport),
                    command: owned_opt(body.get_str("command")),
                    args: field_in(body, "args"),
                    url: owned_opt(body.get_str("url")),
                    env: field_in(body, "env"),
                    headers: headers_in(body, sealed),
                    enabled,
                },
            )
        },
        _ => Err(err_response(400, "name and transport are required")),
    }
}

/// The changes to a stored server. What is `None` stays as it is.
#[derive(Debug, PartialEq)]
pub struct ServerPatch {
    pub name: Option<String>,
    pub transport: Option<String>,
    pub url: Option<String>,
    pub enabled: Option<i32>,
    pub command: Option<String>,
    pub args: Option<String>,
    pub env: Option<String>,
    pub headers: Option<String>,
}

/// Whether a server is enabled, as it is stored.
pub open spec fn enabled_of(body: JsonV) -> Option<i32> {
    match body.at("enabled"@).truth() {
        Some(b) => Some(
            if b {
                1i32
            } else {
                0i32
            },
        ),
        None => None,
    }
}

/// The changes are those that a request makes to a stored server.
pub open spec fn is_server_patch(r: ServerPatch, body: JsonV, sealed: Map<Seq<char>, String>) -> bool {
    &&& opt_string(r.name) == body.text_at("name"@)
    &&& opt_string(r.transport) == body.text_at("transport"@)
    &&& opt_string(r.url) == body.text_at("url"@)
    &&& r.enabled == enabled_of(body)
    &&& opt_string(r.command) == body.text_at("command"@)
    &&& opt_string(r.args) == field_of(body, "args"@)
    &&& opt_string(r.env) == field_of(body, "env"@)
    &&& opt_string(r.headers) == headers_of(body, sealed)
}

/// The changes that a request makes to a stored server.
pub fn update_server(body: &Json, sealed: &Dict<String>) -> (r: ServerPatch)
    ensures
        is_server_patch(r, body@, sealed@),
{
    let enabled: Option<i32> = match body.get("enabled") {
        Some(e) => match e.as_bool() {
            Some(b) => if b {
                Some(1)
            } else {
                Some(0)
            },
            None => None,
        },
        None => None,
    };
    ServerPatch {
        name: owned_opt(body.get_str("name")),
        transport: owned_opt(body.get_str("transport")),
        url: owned_opt(body.get_str("url")),
        enabled,
        command: owned_opt(body.get_str("command")),
        args: field_in(body, "args"),
        env: field_in(body, "env"),
        headers: headers_in(body, sealed),
    }
}

impl ServerPatch {
    /// Whether anything but the name, the transport, the address and the switch changes.
    pub fn patches_connection(&self) -> (r: bool)
        ensures
            r == (self.command is Some || self.args is Some || self.env is Some
                || self.headers is Some),
    {
        self.command.is_some() || self.args.is_some() || self.env.is_some()
            || self.headers.is_some()
    }
}

/// The request names something that the connection depends on.
pub open spec fn touches_connection(body: JsonV) -> bool {
    body.get("command"@) is Some || body.get("args"@) is Some || body.get("env"@) is Some
        || body.get("headers"@) is Some || body.get("url"@) is Some || body.get("transport"@) is Some
        || body.get("enabled"@) is Some
}

/// What is done with the live connection after a change.
#[derive(Debug, Clone, Copy, PartialEq, Eq, Structural)]
pub enum Reconnect {
    /// Nothing that it depends on changed.
    Leave,
    /// It is closed and opened again.
    Renew,
    /// It is closed, for the server is disabled.
    Close,
}

/// What is done with the live connection after a change to a server that is enabled, or not.
pub open spec fn reconnect_v(body: JsonV, enabled: i32) -> Reconnect {
    if !touches_connection(body) {
        Reconnect::Leave
    } else if enabled != 0 {
        Reconnect::Renew
    } else {
        Reconnect::Close
    }
}

/// What is done with the live connection after a change. A change that leaves out the
/// switch does not turn a disabled server on.
pub fn reconnect_after(body: &Json, row: &MCPServerRow) -> (r: Reconnect)
    ensures
        r == reconnect_v(body@, row.enabled),
{
    let relevant = body.get("command").is_some() || body.get("args").is_some() || body.get(
        "env",
    ).is_some() || body.get("headers").is_some() || body.get("url").is_some() || body.get(
        "transport",
    ).is_some() || body.get("enabled").is_some();
    if !relevant {
        Reconnect::Leave
    } else if row.enabled != 0 {
        Reconnect::Renew
    } else {
        Reconnect::Close
    }
}

/// What is answered to a change, where the row was read again.
pub fn updated_reply(row: Result<Option<MCPServerRow>, String>) -> (r: Reply)
    ensures
        r@ == (match row {
            Ok(Some(row)) => ReplyV {
                status: 200,
                body: shown_row(
                    row,
                    match row.headers {
                        Some(h) => json_of_text(h@),
                        None => None,
                    },
                ),
            },
            Ok(None) => refusal(404, "server not found"@),
            Err(e) => refusal(500, e@),
        }),
{
    match row {
        Ok(found) => match found {
            Some(row) => json_response(redact_headers(&row)),
            None => err_response(404, "server not found"),
        },
        Err(e) => err_response(500, e.as_str()),
    }
}

/// A server is shown with all its columns, each under its name; only its headers are shown
/// otherwise than they are stored, with each of their texts masked.
pub proof fn servers_are_shown_with_masked_headers(row: MCPServerRow, parsed: Option<JsonV>)
    ensures
        shown_row(row, parsed).get("id"@) == Some(JsonV::Str(row.id@)),
        shown_row(row, parsed).get("name"@) == Some(JsonV::Str(row.name@)),
        shown_row(row, parsed).get("transport"@) == Some(JsonV::Str(row.transport@)),
        shown_row(row, parsed).get("command"@) == Some(
            match row.command {
                Some(t) => JsonV::Str(t@),
                None => JsonV::Null,
            },
        ),
        shown_row(row, parsed).get("args"@) == Some(
            match row.args {
                Some(t) => JsonV::Str(t@),
                None => JsonV::Null,
            },
        ),
        shown_row(row, parsed).get("url"@) == Some(
            match row.url {
                Some(t) => JsonV::Str(t@),
                None => JsonV::Null,
            },
        ),
        shown_row(row, parsed).get("env"@) == Some(
            match row.env {
                Some(t) => JsonV::Str(t@),
                None => JsonV::Null,
            },
        ),
        shown_row(row, parsed).get("enabled"@) == Some(JsonV::Int(row.enabled as int)),
        shown_row(row, parsed).get("timeout_s"@) == Some(
            match row.timeout_s {
                Some(n) => JsonV::Int(n as int),
                None => JsonV::Null,
            },
        ),
        shown_row(row, parsed).get("status"@) == Some(JsonV::Str(row.status@)),
        shown_row(row, parsed).get("error_message"@) == Some(
            match row.error_message {
                Some(t) => JsonV::Str(t@),
                None => JsonV::Null,
            },
        ),
        shown_row(row, parsed).get("created_at"@) == Some(
            match row.created_at {
                Some(t) => JsonV::Str(t@),
                None => JsonV::Null,
            },
        ),
        shown_row(row, parsed).get("updated_at"@) == Some(
            match row.updated_at {
                Some(t) => JsonV::Str(t@),
                None => JsonV::Null,
            },
        ),
        parsed matches Some(JsonV::Obj(m)) ==> shown_row(row, parsed).get("headers"@) == Some(
            JsonV::Str(text_of_json(JsonV::Obj(masked(m)))),
        ),
        row.headers is None && parsed is None ==> shown_row(row, parsed).get("headers"@) == Some(
            JsonV::Null,
        ),
{
    reveal_strlit("id");
    reveal_strlit("name");
    reveal_strlit("transport");
    reveal_strlit("command");
    reveal_strlit("args");
    reveal_strlit("url");
    reveal_strlit("env");
    reveal_strlit("headers");
    reveal_strlit("enabled");
    reveal_strlit("timeout_s");
    reveal_strlit("status");
    reveal_strlit("error_message");
    reveal_strlit("created_at");
    reveal_strlit("updated_at");
    assert("id"@.len() == 2 && "name"@.len() == 4 && "args"@.len() == 4 && "name"@[0] == 'n'
        && "args"@[0] == 'a' && "url"@.len() == 3 && "env"@.len() == 3 && "url"@[0] == 'u'
        && "env"@[0] == 'e' && "status"@.len() == 6 && "error_message"@.len() == 13);
    assert("command"@.len() == 7 && "headers"@.len() == 7 && "enabled"@.len() == 7 && "command"@[0]
        == 'c' && "headers"@[0] == 'h' && "enabled"@[0] == 'e');
    assert("transport"@.len() == 9 && "timeout_s"@.len() == 9 && "transport"@[1] == 'r'
        && "timeout_s"@[1] == 'i' && "created_at"@.len() == 10 && "updated_at"@.len() == 10
        && "created_at"@[0] == 'c' && "updated_at"@[0] == 'u');
}

/// Masked headers have the names of the headers: each text is shown as stars, and what is no
/// text as it is.
pub proof fn masks_keep_the_names(m: Map<Seq<char>, JsonV>, k: Seq<char>)
    ensures
        masked(m).contains_key(k) == m.contains_key(k),
        m.contains_key(k) && m[k] is Str ==> masked(m)[k] == JsonV::Str("***"@),
        m.contains_key(k) && !(m[k] is Str) ==> masked(m)[k] == m[k],
{
}

/// The headers to store are those of the request, whether it sends them as an object or as the
/// text of one; each text is stored in its sealed form, and one that could not be sealed is not
/// stored. What is no text is stored as it is.
pub proof fn headers_are_stored_sealed(
    body: JsonV,
    m: Map<Seq<char>, JsonV>,
    sealed: Map<Seq<char>, String>,
    k: Seq<char>,
)
    requires
        body.get("headers"@) matches Some(h) && (h == JsonV::Obj(m) || (h matches JsonV::Str(t)
            && json_of_text(t) == Some(JsonV::Obj(m)))),
    ensures
        headers_of(body, sealed) == Some(text_of_json(JsonV::Obj(replaced(m, sealed)))),
        replaced(m, sealed).contains_key(k) == m.contains_key(k),
        m.contains_key(k) && m[k] is Str && sealed.contains_key(k) ==> replaced(m, sealed)[k]
            == JsonV::Str(sealed[k]@),
        m.contains_key(k) && m[k] is Str && !sealed.contains_key(k) ==> replaced(m, sealed)[k]
            == JsonV::Null,
        m.contains_key(k) && !(m[k] is Str) ==> replaced(m, sealed)[k] == m[k],
{
}

/// A field is stored as the text of its value; an array or an object that comes as text is
/// stored as that text, and not quoted again. A field that the request does not have is not
/// stored.
pub proof fn fields_are_stored_as_json(body: JsonV, key: Seq<char>)
    ensures
        body.get(key) is None ==> field_of(body, key) is None,
        body.get(key) matches Some(v) ==> !(v is Str) ==> field_of(body, key) == Some(
            text_of_json(v),
        ),
        body.get(key) matches Some(JsonV::Str(s)) ==> field_of(body, key) == Some(
            if json_of_text(s) matches Some(j) && (j is Arr || j is Obj) {
                s
            } else {
                text_of_json(JsonV::Str(s))
            },
        ),
        body.get("headers"@) is None ==> forall|sealed: Map<Seq<char>, String>|
            #[trigger] headers_of(body, sealed) is None,
{
}

/// The switch is stored as a number, where the request sets it; and a change touches the
/// connection just where it names something that the connection is made from.
pub proof fn switches_and_connections(body: JsonV)
    ensures
        enabled_of(body) == (match body.at("enabled"@) {
            JsonV::Bool(true) => Some(1i32),
            JsonV::Bool(false) => Some(0i32),
            _ => None,
        }),
        touches_connection(body) <==> exists|key: Seq<char>|
            #[trigger] body.get(key) is Some && (key == "command"@ || key == "args"@ || key
                == "env"@ || key == "headers"@ || key == "url"@ || key == "transport"@ || key
                == "enabled"@),
{
}

/// A server is created as the request says: under its name and with its transport, its command
/// or its address, its arguments, its environment and its headers, each where it is given; and
/// enabled unless the request says otherwise.
pub proof fn servers_are_created_as_asked(s: NewServer, body: JsonV, sealed: Map<Seq<char>, String>)
    requires
        is_new_server(s, body, sealed),
    ensures
        body.at("name"@) == JsonV::Str(s.name@),
        body.at("transport"@) == JsonV::Str(s.transport@),
        match body.at("command"@) {
            JsonV::Str(t) => s.command matches Some(c) && c@ == t,
            _ => s.command is None,
        },
        match body.at("url"@) {
            JsonV::Str(t) => s.url matches Some(c) && c@ == t,
            _ => s.url is None,
        },
        opt_string(s.args) == field_of(body, "args"@),
        opt_string(s.env) == field_of(body, "env"@),
        opt_string(s.headers) == headers_of(body, sealed),
        s.enabled <==> body.at("enabled"@) != JsonV::Bool(false),
{
}

/// A change sets what the request names, each under its name, and leaves the rest.
pub proof fn servers_are_changed_as_asked(r: ServerPatch, body: JsonV, sealed: Map<Seq<char>, String>)
    requires
        is_server_patch(r, body, sealed),
    ensures
        match body.at("name"@) {
            JsonV::Str(t) => r.name matches Some(c) && c@ == t,
            _ => r.name is None,
        },
        match body.at("transport"@) {
            JsonV::Str(t) => r.transport matches Some(c) && c@ == t,
            _ => r.transport is None,
        },
        match body.at("url"@) {
            JsonV::Str(t) => r.url matches Some(c) && c@ == t,
            _ => r.url is None,
        },
        match body.at("command"@) {
            JsonV::Str(t) => r.command matches Some(c) && c@ == t,
            _ => r.command is None,
        },
        body.at("enabled"@) == JsonV::Bool(true) ==> r.enabled == Some(1i32),
        body.at("enabled"@) == JsonV::Bool(false) ==> r.enabled == Some(0i32),
        !(body.at("enabled"@) is Bool) ==> r.enabled is None,
        body.get("args"@) is None ==> r.args is None,
        body.get("env"@) is None ==> r.env is None,
        body.get("headers"@) is None ==> r.headers is None,
        opt_string(r.args) == field_of(body, "args"@),
        opt_string(r.env) == field_of(body, "env"@),
        opt_string(r.headers) == headers_of(body, sealed),
{
}

/// A change that the connection depends on renews it where the server is enabled and closes it
/// where it is not; any other leaves it as it is.
pub proof fn connections_follow_their_server(body: JsonV, enabled: i32)
    ensures
        !touches_connection(body) ==> reconnect_v(body, enabled) == Reconnect::Leave,
        touches_connection(body) && enabled != 0 ==> reconnect_v(body, enabled) == Reconnect::Renew,
        touches_connection(body) && enabled == 0 ==> reconnect_v(body, enabled) == Reconnect::Close,
        body.get("url"@) is Some ==> reconnect_v(body, 1) == Reconnect::Renew,
        body.get("enabled"@) is Some ==> reconnect_v(body, 0) == Reconnect::Close,
{
}

} // verus!
