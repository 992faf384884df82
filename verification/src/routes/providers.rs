//! The `/api/providers` routes: what a request changes and what is shown of a provider.
//!
//! A provider's key stands in its configuration, sealed. Sealing is not done here: the
//! library says which text is to be sealed and puts the sealed text in its place.

use crate::json::{json_of_text, merge_members, merged_members, opt_json, opt_string, opt_text, owned_opt, reads_back, text_of_json, Json, JsonV};
use crate::provider::base::HealthStatus;
use crate::routes::chat::filled;
use crate::routes::reply::{err_response, json_response, refusal, Reply, ReplyV};
use crate::text::{join2, owned, same};
use vstd::prelude::*;

verus! {

/// A stored provider.
#[derive(Debug, Clone, PartialEq)]
pub struct ProviderRow {
    pub id: String,
    pub name: String,
    pub provider_type: String,
    pub base_url: String,
    pub fallback_priority: i32,
    pub config: Option<String>,
    pub status: String,
    pub error_message: Option<String>,
    pub created_at: Option<String>,
    pub updated_at: Option<String>,
}

impl ProviderRow {
    /// The row as an object of its columns.
    pub open spec fn columns(&self) -> JsonV {
        JsonV::empty().put("id"@, JsonV::Str(self.id@)).put("name"@, JsonV::Str(self.name@)).put(
            "provider_type"@,
            JsonV::Str(self.provider_type@),
        ).put("base_url"@, JsonV::Str(self.base_url@)).put(
            "fallback_priority"@,
            JsonV::Int(self.fallback_priority as int),
        ).put("config"@, opt_json(opt_string(self.config))).put(
            "status"@,
            JsonV::Str(self.status@),
        ).put("error_message"@, opt_json(opt_string(self.error_message))).put(
            "created_at"@,
            opt_json(opt_string(self.created_at)),
        ).put("updated_at"@, opt_json(opt_string(self.updated_at)))
    }

    fn to_json(&self) -> (r: Json)
        ensures
            r@ == self.columns(),
    {
        Json::object().with("id", Json::string(self.id.as_str())).with(
            "name",
            Json::string(self.name.as_str()),
        ).with("provider_type", Json::string(self.provider_type.as_str())).with(
            "base_url",
            Json::string(self.base_url.as_str()),
        ).with("fallback_priority", Json::Int(self.fallback_priority as i64)).with(
            "config",
            Json::opt(&self.config),
        ).with("status", Json::string(self.status.as_str())).with(
            "error_message",
            Json::opt(&self.error_message),
        ).with("created_at", Json::opt(&self.created_at)).with(
            "updated_at",
            Json::opt(&self.updated_at),
        )
    }
}

/// The key that a request sets, in plain text: what is to be sealed.
pub fn key_to_seal(body: &Json) -> (r: Option<String>)
    ensures
        opt_string(r) == body@.text_at("api_key"@),
{
    owned_opt(body.get_str("api_key"))
}

/// A configuration with a request's changes. `sealed` is the sealed form of the key that
/// the request sets. A key that the request does not name stays; null clears it.
pub open spec fn config_after(config: JsonV, body: JsonV, sealed: Option<Seq<char>>) -> JsonV {
    match config {
        JsonV::Obj(m) => {
            let a = match body.at("config"@) {
                JsonV::Obj(patch) => JsonV::Obj(merged_members(m, patch)),
                _ => config,
            };
            match body.get("api_key"@) {
                Some(JsonV::Null) => a.without("api_key"@),
                Some(JsonV::Str(_)) => match sealed {
                    Some(s) => a.put("api_key"@, JsonV::Str(s)),
                    None => a.without("api_key"@),
                },
                _ => a,
            }
        },
        other => other,
    }
}

/// A configuration with a request's changes.
pub fn changed_config(config: Json, body: &Json, sealed: Option<&str>) -> (r: Json)
    ensures
        r@ == config_after(config@, body@, opt_text(sealed)),
{
    if !config.is_object() {
        return config;
    }
    let mut out = config;
    match body.get("config") {
        Some(patch) => if patch.is_object() {
            out = merge_members(out, patch);
        },
        None => {},
    }
    match body.get("api_key") {
        Some(key) => if key.is_null() {
            out = out.without("api_key");
        } else if key.as_str().is_some() {
            match sealed {
                Some(s) => {
                    out = out.with("api_key", Json::string(s));
                },
                None => {
                    out = out.without("api_key");
                },
            }
        },
        None => {},
    }
    out
}

/// What a stored configuration says; an empty object where there is none or it is not
/// JSON.
pub open spec fn stored_config(text: Option<Seq<char>>) -> JsonV {
    match text {
        Some(s) => match json_of_text(s) {
            Some(j) => j,
            None => JsonV::empty(),
        },
        None => JsonV::empty(),
    }
}

/// The configuration to store: the stored one with a request's changes.
pub fn merge_config(existing_config: Option<&str>, body: &Json, sealed: Option<&str>) -> (r: String)
    ensures
        r@ == text_of_json(
            config_after(stored_config(opt_text(existing_config)), body@, opt_text(sealed)),
        ),
        reads_back(
            config_after(stored_config(opt_text(existing_config)), body@, opt_text(sealed)),
        ),
{
    let config = match existing_config {
        Some(s) => match Json::parse(s) {
            Ok(j) => j,
            Err(_) => Json::object(),
        },
        None => Json::object(),
    };
    changed_config(config, body, sealed).print()
}

/// What a request's own configuration says of a key, where it says anything.
pub open spec fn patched_to(body: JsonV, key: Seq<char>) -> Option<JsonV> {
    match body.at("config"@) {
        JsonV::Obj(patch) => JsonV::Obj(patch).get(key),
        _ => None,
    }
}

/// A request that does not name the key leaves it; null clears it; a new key is stored in
/// its sealed form and in no other. All else stays where the request's configuration does
/// not name it.
pub proof fn keys_are_kept_cleared_or_sealed(
    m: Map<Seq<char>, JsonV>,
    body: JsonV,
    sealed: Option<Seq<char>>,
    other: Seq<char>,
)
    ensures
        ({
            let before = JsonV::Obj(m);
            let now = config_after(before, body, sealed);
            &&& body.get("api_key"@) is None && patched_to(body, "api_key"@) is None ==> now.get(
                "api_key"@,
            ) == before.get("api_key"@)
            &&& body.get("api_key"@) == Some(JsonV::Null) ==> now.get("api_key"@) is None
            &&& body.text_at("api_key"@) is Some ==> now.get("api_key"@) == (match sealed {
                Some(s) => Some(JsonV::Str(s)),
                None => None,
            })
            &&& other != "api_key"@ ==> now.get(other) == (match patched_to(body, other) {
                Some(v) => Some(v),
                None => before.get(other),
            })
        }),
{
}

/// What is shown of a configuration, and whether it holds a key: the key is taken out, and
/// what is not JSON is not shown.
pub open spec fn shown_config(parsed: Option<JsonV>) -> (Seq<char>, bool) {
    match parsed {
        Some(c) => (
            text_of_json(c.without("api_key"@)),
            c.text_at("api_key"@) matches Some(k) && k.len() > 0,
        ),
        None => ("{}"@, false),
    }
}

/// What is shown of a parsed configuration, and whether it holds a key.
pub fn public_config(parsed: Option<Json>) -> (r: (String, bool))
    ensures
        (r.0@, r.1) == shown_config(
            match parsed {
                Some(j) => Some(j@),
                None => None,
            },
        ),
{
    match parsed {
        Some(c) => {
            let has = match c.get_str("api_key") {
                Some(k) => !k.is_empty(),
                None => false,
            };
            let text = c.without("api_key").print();
            (text, has)
        },
        None => (owned("{}"), false),
    }
}

/// The row as it is shown: never with its key.
pub open spec fn public_row(row: ProviderRow) -> JsonV {
    match row.config {
        Some(c) => {
            let (text, has) = shown_config(json_of_text(c@));
            row.columns().put("config"@, JsonV::Str(text)).put("has_api_key"@, JsonV::Bool(has))
        },
        None => row.columns().put("has_api_key"@, JsonV::Bool(false)),
    }
}

/// The row as it is shown: the key is taken out, and only told whether there is one.
pub fn to_public_json(row: &ProviderRow) -> (r: Json)
    ensures
        r@ == public_row(*row),
{
    let json = row.to_json();
    match &row.config {
        Some(c) => {
            let parsed = match Json::parse(c.as_str()) {
                Ok(j) => Some(j),
                Err(_) => None,
            };
            let (text, has) = public_config(parsed);
            json.with("config", Json::Str(text)).with("has_api_key", Json::Bool(has))
        },
        None => json.with("has_api_key", Json::Bool(false)),
    }
}

/// The configuration that is shown is the text of a value without a key, whatever is
/// stored.
pub proof fn no_key_is_shown(row: ProviderRow)
    requires
        row.config is Some,
    ensures
        public_row(row).text_at("config"@) == Some("{}"@) || exists|c: JsonV|
            #[trigger] c.get("api_key"@) is None && public_row(row).text_at("config"@) == Some(
                text_of_json(c),
            ),
{
    reveal_strlit("config");
    reveal_strlit("has_api_key");
    assert("config"@.len() != "has_api_key"@.len());
    match json_of_text(row.config->0@) {
        Some(c) => {
            let d = c.without("api_key"@);
            assert(d.get("api_key"@) is None);
        },
        None => {},
    }
}

/// A provider that a request creates.
#[derive(Debug, PartialEq)]
pub struct NewProvider {
    /// The identifier that the request pins.
    pub id: Option<String>,
    pub name: String,
    pub provider_type: String,
    pub base_url: String,
    pub config: String,
    pub fallback_priority: Option<i32>,
}

/// A priority that a request sets.
pub open spec fn priority_of(body: JsonV) -> Option<i32> {
    match body.at("fallback_priority"@).signed() {
        Some(n) => Some(n as i32),
        None => None,
    }
}

fn priority_in(body: &Json) -> (r: Option<i32>)
    ensures
        r == priority_of(body@),
{
    match body.get_i64("fallback_priority") {
        Some(n) => Some(#[verifier::truncate] (n as i32)),
        None => None,
    }
}

/// The request names all that a provider needs.
pub open spec fn is_complete(body: JsonV) -> bool {
    body.text_at("name"@) is Some && body.text_at("provider_type"@) is Some && body.text_at(
        "base_url"@,
    ) is Some
}

/// The provider is the one that a request creates.
pub open spec fn is_new_provider(p: NewProvider, body: JsonV, sealed: Option<Seq<char>>) -> bool {
    &&& Some(p.name@) == body.text_at("name"@)
    &&& Some(p.provider_type@) == body.text_at("provider_type"@)
    &&& Some(p.base_url@) == body.text_at("base_url"@)
    &&& opt_string(p.id) == filled(body.text_at("id"@))
    &&& p.config@ == text_of_json(config_after(JsonV::empty(), body, sealed))
    &&& p.fallback_priority == priority_of(body)
}

/// The provider that a request creates; a request that does not name all it needs is
/// refused.
pub fn create_provider(body: &Json, sealed: Option<&str>) -> (r: Result<NewProvider, Reply>)
    ensures
        match r {
            Ok(p) => is_complete(body@) && is_new_provider(p, body@, opt_text(sealed)),
            Err(reply) => !is_complete(body@) && reply@ == refusal(
                400,
                "name, provider_type, base_url are required"@,
            ),
        },
{
    match (body.get_str("name"), body.get_str("provider_type"), body.get_str("base_url")) {
        (Some(name), Some(provider_type), Some(base_url)) => {
            let id = match body.get_str("id") {
                Some(s) => if s.is_empty() {
                    None
                } else {
                    Some(owned(s))
                },
                None => None,
            };
            Ok(
                NewProvider {
                    id,
                    name: owned(name),
                    provider_type: owned(provider_type),
                    base_url: owned(base_url),
                    config: merge_config(None, body, sealed),
                    fallback_priority: priority_in(body),
                },
            )
        },
        _ => Err(err_response(400, "name, provider_type, base_url are required")),
    }
}

/// What became of storing a new provider.
pub enum Stored {
    /// It is there again when it is read.
    Reloaded(ProviderRow),
    /// It is not there when it is read.
    Vanished,
    /// The identifier is taken.
    Taken,
    /// The store failed.
    Failed(String),
}

/// What is answered to a creation.
pub open spec fn creation_reply(stored: Stored, id: Seq<char>) -> ReplyV {
    match stored {
        Stored::Reloaded(row) => ReplyV {
            status: 200,
            body: JsonV::empty().put("id"@, JsonV::Str(row.id@)),
        },
        Stored::Vanished => refusal(500, "failed to reload provider after create"@),
        Stored::Taken => refusal(409, "provider id already exists: "@ + id),
        Stored::Failed(e) => refusal(500, e@),
    }
}

/// What is answered to a creation: an identifier that is taken is the caller's conflict.
pub fn created_reply(stored: &Stored, id: &str) -> (r: Reply)
    ensures
        r@ == creation_reply(*stored, id@),
{
    match stored {
        Stored::Reloaded(row) => json_response(
            Json::object().with("id", Json::string(row.id.as_str())),
        ),
        Stored::Vanished => err_response(500, "failed to reload provider after create"),
        Stored::Taken => {
            let m = join2("provider id already exists: ", id);
            err_response(409, m.as_str())
        },
        Stored::Failed(e) => err_response(500, e.as_str()),
    }
}

/// The changes to a stored provider. What is `None` stays as it is.
#[derive(Debug, PartialEq)]
pub struct ProviderPatch {
    pub name: Option<String>,
    pub base_url: Option<String>,
    pub config: String,
    pub fallback_priority: Option<i32>,
}

/// The changes are those that a request makes to a stored provider.
pub open spec fn is_provider_patch(
    r: ProviderPatch,
    existing: ProviderRow,
    body: JsonV,
    sealed: Option<Seq<char>>,
) -> bool {
    &&& opt_string(r.name) == body.text_at("name"@)
    &&& opt_string(r.base_url) == body.text_at("base_url"@)
    &&& r.config@ == text_of_json(
        config_after(stored_config(opt_string(existing.config)), body, sealed),
    )
    &&& r.fallback_priority == priority_of(body)
}

/// The changes that a request makes to a stored provider.
pub fn update_provider(existing: &ProviderRow, body: &Json, sealed: Option<&str>) -> (r:
    ProviderPatch)
    ensures
        is_provider_patch(r, *existing, body@, opt_text(sealed)),
{
    let existing_config = match &existing.config {
        Some(s) => Some(s.as_str()),
        None => None,
    };
    ProviderPatch {
        name: owned_opt(body.get_str("name")),
        base_url: owned_opt(body.get_str("base_url")),
        config: merge_config(existing_config, body, sealed),
        fallback_priority: priority_in(body),
    }
}

/// A state as an object.
pub open spec fn health_json(h: HealthStatus) -> JsonV {
    JsonV::empty().put("status"@, JsonV::Str(h.status@)).put(
        "latency_ms"@,
        match h.latency_ms {
            Some(t) => crate::json::decimal_json(t@),
            None => JsonV::Null,
        },
    ).put("error"@, opt_json(opt_string(h.error)))
}

/// The state is what a probe of a service found.
pub open spec fn is_probed(r: HealthStatus, answer: Result<u16, String>, latency_ms: Seq<char>) -> bool {
    match answer {
        Ok(code) => opt_string(r.latency_ms) == Some(latency_ms) && if 200 <= code < 300 {
            r.status@ == "healthy"@ && r.error is None
        } else {
            r.status@ == "unhealthy"@ && opt_string(r.error) == Some(
                "HTTP "@ + crate::text::decimal(code as nat),
            )
        },
        Err(e) => r.status@ == "unhealthy"@ && r.latency_ms is None && opt_string(r.error) == Some(
            e@,
        ),
    }
}

/// The state that a probe of a service found: any answer but a success is unhealthy.
pub fn probed_health(answer: Result<u16, String>, latency_ms: &str) -> (r: HealthStatus)
    ensures
        is_probed(r, answer, latency_ms@),
{
    match answer {
        Ok(code) => if 200 <= code && code < 300 {
            HealthStatus {
                status: owned("healthy"),
                latency_ms: Some(owned(latency_ms)),
                error: None,
            }
        } else {
            let n = crate::text::decimal_text(code as u64);
            HealthStatus {
                status: owned("unhealthy"),
                latency_ms: Some(owned(latency_ms)),
                error: Some(join2("HTTP ", n.as_str())),
            }
        },
        Err(e) => HealthStatus { status: owned("unhealthy"), latency_ms: None, error: Some(e) },
    }
}

/// What is answered to a check.
pub open spec fn checked_reply(checked: Result<HealthStatus, String>) -> ReplyV {
    match checked {
        Ok(h) => ReplyV {
            status: if h.status@ == "healthy"@ {
                200
            } else {
                502
            },
            body: health_json(h),
        },
        Err(e) => refusal(404, e@),
    }
}

/// What is answered to a check: a provider that is down is told from one that is not there.
pub fn tested_reply(checked: Result<HealthStatus, String>) -> (r: Reply)
    ensures
        r@ == checked_reply(checked),
{
    match checked {
        Ok(h) => {
            let status: u16 = if same(h.status.as_str(), "healthy") {
                200
            } else {
                502
            };
            let latency = match &h.latency_ms {
                Some(t) => match Json::parse(t.as_str()) {
                    Ok(v) => v,
                    Err(_) => Json::Null,
                },
                None => Json::Null,
            };
            let body = Json::object().with("status", Json::string(h.status.as_str())).with(
                "latency_ms",
                latency,
            ).with("error", Json::opt(&h.error));
            Reply { status, body }
        },
        Err(e) => err_response(404, e.as_str()),
    }
}

/// A provider is shown with all its columns, each under its name, but for its configuration:
/// that is shown without the key, and whether there is one is told.
pub proof fn providers_are_shown_without_their_key(row: ProviderRow)
    ensures
        ({
            let shown = public_row(row);
            &&& shown.get("id"@) == Some(JsonV::Str(row.id@))
            &&& shown.get("name"@) == Some(JsonV::Str(row.name@))
            &&& shown.get("provider_type"@) == Some(JsonV::Str(row.provider_type@))
            &&& shown.get("base_url"@) == Some(JsonV::Str(row.base_url@))
            &&& shown.get("fallback_priority"@) == Some(JsonV::Int(row.fallback_priority as int))
            &&& shown.get("status"@) == Some(JsonV::Str(row.status@))
            &&& shown.get("error_message"@) == Some(
                match row.error_message {
                    Some(t) => JsonV::Str(t@),
                    None => JsonV::Null,
                },
            )
            &&& shown.get("created_at"@) == Some(
                match row.created_at {
                    Some(t) => JsonV::Str(t@),
                    None => JsonV::Null,
                },
            )
            &&& shown.get("updated_at"@) == Some(
                match row.updated_at {
                    Some(t) => JsonV::Str(t@),
                    None => JsonV::Null,
                },
            )
            &&& match row.config {
                Some(c) => match json_of_text(c@) {
                    Some(j) => {
                        &&& shown.get("config"@) == Some(
                            JsonV::Str(text_of_json(j.without("api_key"@))),
                        )
                        &&& shown.get("has_api_key"@) == Some(
                            JsonV::Bool(
                                match j.at("api_key"@) {
                                    JsonV::Str(k) => k.len() > 0,
                                    _ => false,
                                },
                            ),
                        )
                    },
                    None => shown.get("config"@) == Some(JsonV::Str("{}"@)) && shown.get(
                        "has_api_key"@,
                    ) == Some(JsonV::Bool(false)),
                },
                None => shown.get("config"@) == Some(JsonV::Null) && shown.get("has_api_key"@)
                    == Some(JsonV::Bool(false)),
            }
        }),
{
    reveal_strlit("id");
    reveal_strlit("name");
    reveal_strlit("provider_type");
    reveal_strlit("base_url");
    reveal_strlit("fallback_priority");
    reveal_strlit("config");
    reveal_strlit("status");
    reveal_strlit("error_message");
    reveal_strlit("created_at");
    reveal_strlit("updated_at");
    reveal_strlit("has_api_key");
    assert("id"@.len() == 2 && "name"@.len() == 4 && "provider_type"@.len() == 13
        && "base_url"@.len() == 8 && "fallback_priority"@.len() == 17 && "config"@.len() == 6
        && "status"@.len() == 6 && "error_message"@.len() == 13 && "created_at"@.len() == 10
        && "updated_at"@.len() == 10 && "has_api_key"@.len() == 11);
    assert("provider_type"@[0] == 'p' && "error_message"@[0] == 'e' && "config"@[0] == 'c'
        && "status"@[0] == 's' && "created_at"@[0] == 'c' && "updated_at"@[0] == 'u');
}

/// A request is complete just where it names the provider, its type and its address; the
/// priority that it sets is the number that it gives.
pub proof fn complete_requests_name_what_is_needed(body: JsonV)
    ensures
        is_complete(body) <==> body.at("name"@) is Str && body.at("provider_type"@) is Str
            && body.at("base_url"@) is Str,
        body.at("fallback_priority"@).signed() matches Some(n) ==> priority_of(body) == Some(
            n as i32,
        ),
        body.at("fallback_priority"@).signed() is None ==> priority_of(body) is None,
{
}

/// A state is shown as it was found, and what is stored is read as it says: a configuration
/// that is missing or unreadable is empty.
pub proof fn states_are_shown_and_configurations_read(h: HealthStatus, text: Seq<char>)
    ensures
        health_json(h).get("status"@) == Some(JsonV::Str(h.status@)),
        h.latency_ms matches Some(t) ==> health_json(h).get("latency_ms"@) == Some(
            crate::json::decimal_json(t@),
        ),
        h.latency_ms is None ==> health_json(h).get("latency_ms"@) == Some(JsonV::Null),
        h.error matches Some(t) ==> health_json(h).get("error"@) == Some(JsonV::Str(t@)),
        h.error is None ==> health_json(h).get("error"@) == Some(JsonV::Null),
        json_of_text(text) matches Some(j) ==> stored_config(Some(text)) == j,
        json_of_text(text) is None ==> stored_config(Some(text)) == JsonV::empty(),
        stored_config(None) == JsonV::empty(),
{
    reveal_strlit("status");
    reveal_strlit("latency_ms");
    reveal_strlit("error");
    assert("status"@.len() == 6 && "latency_ms"@.len() == 10 && "error"@.len() == 5);
}

/// A provider is created as the request says: under its name, of its type and at its address,
/// with the identifier that it pins, its priority, and its configuration, in which its key
/// stands sealed.
pub proof fn providers_are_created_as_asked(p: NewProvider, body: JsonV, sealed: Option<Seq<char>>)
    requires
        is_new_provider(p, body, sealed),
    ensures
        body.at("name"@) == JsonV::Str(p.name@),
        body.at("provider_type"@) == JsonV::Str(p.provider_type@),
        body.at("base_url"@) == JsonV::Str(p.base_url@),
        match body.at("id"@) {
            JsonV::Str(t) => if t.len() > 0 {
                p.id matches Some(id) && id@ == t
            } else {
                p.id is None
            },
            _ => p.id is None,
        },
        p.fallback_priority == (match body.at("fallback_priority"@).signed() {
            Some(n) => Some(n as i32),
            None => None,
        }),
        p.config@ == text_of_json(config_after(JsonV::empty(), body, sealed)),
{
}

/// A change renames the provider, moves it or ranks it where the request says so, and else
/// leaves it; its configuration is the stored one with the request's changes.
pub proof fn providers_are_changed_as_asked(
    r: ProviderPatch,
    existing: ProviderRow,
    body: JsonV,
    sealed: Option<Seq<char>>,
)
    requires
        is_provider_patch(r, existing, body, sealed),
    ensures
        match body.at("name"@) {
            JsonV::Str(t) => r.name matches Some(n) && n@ == t,
            _ => r.name is None,
        },
        match body.at("base_url"@) {
            JsonV::Str(t) => r.base_url matches Some(n) && n@ == t,
            _ => r.base_url is None,
        },
        r.fallback_priority == (match body.at("fallback_priority"@).signed() {
            Some(n) => Some(n as i32),
            None => None,
        }),
        existing.config matches Some(c) ==> (json_of_text(c@) matches Some(j) ==> r.config@
            == text_of_json(config_after(j, body, sealed))),
        existing.config is None ==> r.config@ == text_of_json(
            config_after(JsonV::empty(), body, sealed),
        ),
{
}

/// A service is healthy just where it answers with a success; how long that took is told of any
/// answer, and why a service is not healthy is told too.
pub proof fn services_are_healthy_where_they_succeed(
    r: HealthStatus,
    answer: Result<u16, String>,
    latency_ms: Seq<char>,
)
    requires
        is_probed(r, answer, latency_ms),
    ensures
        r.status@ == "healthy"@ <==> (answer matches Ok(code) && 200 <= code <= 299),
        r.status@ == "healthy"@ || r.status@ == "unhealthy"@,
        answer is Ok ==> (r.latency_ms matches Some(t) && t@ == latency_ms),
        answer is Err ==> r.latency_ms is None,
        answer matches Err(e) ==> (r.error matches Some(t) && t@ == e@),
        answer matches Ok(code) ==> (r.error is None <==> 200 <= code <= 299),
{
    reveal_strlit("healthy");
    reveal_strlit("unhealthy");
    assert("healthy"@.len() == 7 && "unhealthy"@.len() == 9);
}

/// A check of a healthy provider is answered with a success, of one that is not with a bad
/// gateway, and of one that is not there with its absence.
pub proof fn checks_are_answered_by_the_state(checked: Result<HealthStatus, String>)
    ensures
        checked matches Ok(h) ==> checked_reply(checked).body == health_json(h) && checked_reply(
            checked,
        ).status == (if h.status@ == "healthy"@ {
            200u16
        } else {
            502u16
        }),
        checked matches Err(e) ==> checked_reply(checked).status == 404 && checked_reply(
            checked,
        ).body.get("error"@) == Some(JsonV::Str(e@)),
{
}

/// A creation that is stored names the provider; an identifier that is taken is a conflict, and
/// any other failure is the service's.
pub proof fn creations_are_answered_by_what_was_stored(stored: Stored, id: Seq<char>)
    ensures
        creation_reply(stored, id).status == (match stored {
            Stored::Reloaded(_) => 200u16,
            Stored::Vanished => 500u16,
            Stored::Taken => 409u16,
            Stored::Failed(_) => 500u16,
        }),
        stored matches Stored::Reloaded(row) ==> creation_reply(stored, id).body.get("id"@) == Some(
            JsonV::Str(row.id@),
        ),
        stored matches Stored::Failed(e) ==> creation_reply(stored, id).body.get("error"@) == Some(
            JsonV::Str(e@),
        ),
        stored is Taken ==> creation_reply(stored, id).body.get("error"@) == Some(
            JsonV::Str("provider id already exists: "@ + id),
        ),
{
}

} // verus!
