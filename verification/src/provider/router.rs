//! The registered providers and the choice among them.

use crate::config::ProviderConfig;
use crate::error::ProviderError;
use crate::json::{float_text, opt_string, opt_text, Json, JsonV};
use crate::provider::anthropic::AnthropicProvider;
use crate::provider::base::{nothing_set, HealthStatus, SamplingParams, SamplingV};
use crate::provider::openai_compat::{chosen_model, OpenAICompatibleProvider};
use crate::provider::sampling::{self, defaults_v, merged};
use crate::registry::Registry;
use crate::routes::providers::{stored_config, ProviderRow};
use crate::text::{join3, lex_lt, lex_total, lex_transitive, owned, precedes, same};
use vstd::prelude::*;

verus! {

/// How long a state that was found counts, in seconds.
pub const HEALTH_TTL_SECS: u64 = 30;

/// The service behind a provider.
pub enum Service {
    OpenAI(OpenAICompatibleProvider),
    Anthropic(AnthropicProvider),
}

impl Service {
    /// The model that is asked.
    pub open spec fn model_for(&self, asked: Option<Seq<char>>) -> Seq<char> {
        match self {
            Service::OpenAI(p) => chosen_model(
                asked,
                p.config.model@,
                OpenAICompatibleProvider::DEFAULT_MODEL@,
            ),
            Service::Anthropic(p) => chosen_model(
                asked,
                p.config.model@,
                p.default_model@,
            ),
        }
    }

    /// The model that is asked.
    pub fn resolve_model(&self, override_model: Option<&str>) -> (r: String)
        ensures
            r@ == self.model_for(opt_text(override_model)),
    {
        match self {
            Service::OpenAI(p) => p.resolve_model(override_model),
            Service::Anthropic(p) => p.resolve_model(override_model),
        }
    }
}

/// A registered provider.
pub struct ProviderEntry {
    pub service: Service,
    pub health: HealthStatus,
    /// When the state was found, in seconds.
    pub health_checked_at: u64,
    pub parallel_slots: Option<u32>,
    /// What is configured, and the defaults of the service.
    pub sampling: SamplingParams,
    pub context_length: Option<i32>,
    /// The smaller comes first where no provider was asked for.
    pub fallback_priority: i32,
}

impl ProviderEntry {
    /// The provider was up when it was last checked.
    pub open spec fn is_healthy(&self) -> bool {
        self.health.status@ == "healthy"@
    }
}

/// One provider is chosen before another: a healthy one first, then the smaller priority,
/// then the name.
pub open spec fn chosen_before(
    a: ProviderEntry,
    a_id: Seq<char>,
    b: ProviderEntry,
    b_id: Seq<char>,
) -> bool {
    if a.is_healthy() != b.is_healthy() {
        a.is_healthy()
    } else if a.fallback_priority != b.fallback_priority {
        a.fallback_priority < b.fallback_priority
    } else {
        lex_lt(a_id, b_id)
    }
}

/// The provider that is chosen where none is asked for: registered, and no other comes
/// before it.
pub open spec fn is_first(m: Map<Seq<char>, ProviderEntry>, id: Seq<char>) -> bool {
    m.contains_key(id) && forall|k: Seq<char>| #[trigger]
        m.contains_key(k) ==> !chosen_before(m[k], k, m[id], id)
}

/// At most one provider is first, so that the choice does not depend on any order of the
/// table.
pub proof fn the_first_is_one(m: Map<Seq<char>, ProviderEntry>, a: Seq<char>, b: Seq<char>)
    requires
        is_first(m, a),
        is_first(m, b),
    ensures
        a == b,
{
    lex_total(a, b);
    assert(!chosen_before(m[a], a, m[b], b));
    assert(!chosen_before(m[b], b, m[a], a));
}

/// The provider that is used: the one asked for where it is registered, else the first.
pub open spec fn is_choice(
    m: Map<Seq<char>, ProviderEntry>,
    preferred: Option<Seq<char>>,
    id: Seq<char>,
) -> bool {
    match preferred {
        Some(p) => if m.contains_key(p) {
            id == p
        } else {
            is_first(m, id)
        },
        None => is_first(m, id),
    }
}

/// The error where no provider is registered.
pub open spec fn nothing_configured(e: ProviderError) -> bool {
    e matches ProviderError::NoHealthyProvider { user_message } && user_message@
        == "No providers are configured."@
}

/// The answer where a provider is not registered.
pub open spec fn not_found(e: ProviderError, id: Seq<char>) -> bool {
    e matches ProviderError::NoHealthyProvider { user_message } && user_message@ == "Provider '"@
        + id + "' not found"@
}

/// The sampling parameters that are configured.
pub open spec fn configured_v(c: ProviderConfig) -> SamplingV {
    SamplingV {
        temperature: opt_string(c.temperature),
        top_p: opt_string(c.top_p),
        top_k: c.top_k,
        min_p: opt_string(c.min_p),
        presence_penalty: opt_string(c.presence_penalty),
        frequency_penalty: opt_string(c.frequency_penalty),
        max_tokens: c.max_tokens,
        effort: None,
    }
}

/// The entry is that of a configuration: not checked yet, with its parameters resolved.
pub open spec fn is_new_entry(e: ProviderEntry, c: ProviderConfig, now_secs: u64) -> bool {
    &&& e.health.status@ == "disconnected"@
    &&& e.health.latency_ms is None
    &&& e.health.error is None
    &&& e.health_checked_at == now_secs
    &&& e.parallel_slots == c.parallel_slots
    &&& e.sampling@ == merged(configured_v(c), defaults_v(c.provider_type@))
    &&& e.context_length == c.context_length
    &&& e.fallback_priority == c.fallback_priority
}

/// The sampling parameters of a configuration, with the defaults of its service.
pub fn resolved_sampling(config: &ProviderConfig) -> (r: SamplingParams)
    ensures
        r@ == merged(configured_v(*config), defaults_v(config.provider_type@)),
{
    let configured = SamplingParams {
        temperature: config.temperature.clone(),
        top_p: config.top_p.clone(),
        top_k: config.top_k,
        min_p: config.min_p.clone(),
        presence_penalty: config.presence_penalty.clone(),
        frequency_penalty: config.frequency_penalty.clone(),
        max_tokens: config.max_tokens,
        effort: None,
    };
    sampling::resolve(config.provider_type.as_str(), config.model.as_str(), &configured)
}

/// The configuration that a stored provider has, where `json` is what its configuration
/// says. The dialect that it names counts before the stored type; `opened` is its key,
/// opened.
pub open spec fn runtime_config_v(
    c: ProviderConfig,
    row: ProviderRow,
    json: JsonV,
    opened: Option<Seq<char>>,
) -> bool {
    &&& c.name@ == row.name@
    &&& c.provider_type@ == (match json.text_at("provider_dialect"@) {
        Some(s) => s,
        None => row.provider_type@,
    })
    &&& c.base_url@ == row.base_url@
    &&& c.api_key@ == (if json.text_at("api_key"@) is Some && opened is Some {
        opened->0
    } else {
        ""@
    })
    &&& c.fallback_priority == row.fallback_priority
    &&& c.model@ == (match json.text_at("model"@) {
        Some(s) => s,
        None => ""@,
    })
    &&& c.parallel_slots == (match json.at("parallel_slots"@).unsigned() {
        Some(n) => Some(n as u32),
        None => None,
    })
    &&& opt_string(c.temperature) == float_text(json.at("temperature"@))
    &&& opt_string(c.top_p) == float_text(json.at("top_p"@))
    &&& c.top_k == int_of(json, "top_k"@)
    &&& opt_string(c.min_p) == float_text(json.at("min_p"@))
    &&& opt_string(c.presence_penalty) == float_text(json.at("presence_penalty"@))
    &&& opt_string(c.frequency_penalty) == float_text(json.at("frequency_penalty"@))
    &&& c.max_tokens == int_of(json, "max_tokens"@)
    &&& c.context_length == int_of(json, "context_length"@)
    &&& opt_string(c.idle_timeout_secs) == float_text(json.at("idle_timeout_secs"@))
    &&& c.experimental_prefill == (json.at("experimental_prefill"@).truth() == Some(true))
}

/// An integer of a configuration.
pub open spec fn int_of(json: JsonV, key: Seq<char>) -> Option<i32> {
    match json.at(key).signed() {
        Some(n) => Some(n as i32),
        None => None,
    }
}

fn int_in(json: &Json, key: &str) -> (r: Option<i32>)
    ensures
        r == int_of(json@, key@),
{
    match json.get_i64(key) {
        Some(n) => Some(#[verifier::truncate] (n as i32)),
        None => None,
    }
}

fn float_in(json: &Json, key: &str) -> (r: Option<String>)
    ensures
        opt_string(r) == float_text(json@.at(key@)),
{
    match json.get(key) {
        Some(v) => v.float_text(),
        None => Json::Null.float_text(),
    }
}

/// The configuration of a stored provider, where `json` is what its configuration says.
pub fn runtime_config(row: &ProviderRow, json: &Json, opened: Option<&str>) -> (r: ProviderConfig)
    ensures
        runtime_config_v(r, *row, json@, opt_text(opened)),
{
    let provider_type = match json.get_str("provider_dialect") {
        Some(s) => owned(s),
        None => row.provider_type.clone(),
    };
    let api_key = match json.get_str("api_key") {
        Some(_) => match opened {
            Some(s) => owned(s),
            None => owned(""),
        },
        None => owned(""),
    };
    let model = match json.get_str("model") {
        Some(s) => owned(s),
        None => owned(""),
    };
    let parallel_slots = match json.get_u64("parallel_slots") {
        Some(n) => Some(#[verifier::truncate] (n as u32)),
        None => None,
    };
    let experimental_prefill = match json.get_bool("experimental_prefill") {
        Some(b) => b,
        None => false,
    };
    ProviderConfig {
        name: row.name.clone(),
        provider_type,
        base_url: row.base_url.clone(),
        api_key,
        fallback_priority: row.fallback_priority,
        model,
        parallel_slots,
        temperature: float_in(json, "temperature"),
        top_p: float_in(json, "top_p"),
        top_k: int_in(json, "top_k"),
        min_p: float_in(json, "min_p"),
        presence_penalty: float_in(json, "presence_penalty"),
        frequency_penalty: float_in(json, "frequency_penalty"),
        max_tokens: int_in(json, "max_tokens"),
        context_length: int_in(json, "context_length"),
        idle_timeout_secs: float_in(json, "idle_timeout_secs"),
        experimental_prefill,
    }
}

/// The registered providers.
pub struct ProviderRouter {
    providers: Registry<ProviderEntry>,
    anthropic_cache_control: bool,
    anthropic_model: String,
}

/// What a router holds.
#[verifier::ext_equal]
pub struct RouterV {
    /// The registered providers.
    pub entries: Map<Seq<char>, ProviderEntry>,
    /// Whether the prompts of Anthropic's service are marked for its cache.
    pub marks_cache: bool,
    /// The model that Anthropic's service is asked for where nothing else names one.
    pub anthropic_default: Seq<char>,
}

impl View for ProviderRouter {
    type V = RouterV;

    closed spec fn view(&self) -> RouterV {
        RouterV {
            entries: self.providers@,
            marks_cache: self.anthropic_cache_control,
            anthropic_default: self.anthropic_model@,
        }
    }
}

impl RouterV {
    /// The services once the state of one was checked.
    pub open spec fn checked(self, id: Seq<char>, status: HealthStatus, now_secs: u64) -> RouterV {
        RouterV {
            entries: if self.entries.contains_key(id) {
                self.entries.insert(
                    id,
                    ProviderEntry {
                        health: status,
                        health_checked_at: now_secs,
                        ..self.entries[id]
                    },
                )
            } else {
                self.entries
            },
            ..self
        }
    }

    /// The services but one.
    pub open spec fn without(self, id: Seq<char>) -> RouterV {
        RouterV { entries: self.entries.remove(id), ..self }
    }
}

impl ProviderRouter {
    /// The table is sound.
    pub closed spec fn wf(&self) -> bool {
        self.providers.wf()
    }

    /// No provider registered.
    pub fn new(anthropic_cache_control: bool, anthropic_model: String) -> (r: ProviderRouter)
        ensures
            r.wf(),
            r@.entries == Map::<Seq<char>, ProviderEntry>::empty(),
            r@.marks_cache == anthropic_cache_control,
            r@.anthropic_default == anthropic_model@,
    {
        ProviderRouter { providers: Registry::new(), anthropic_cache_control, anthropic_model }
    }

    /// Registers an OpenAI-compatible service, in place of what may have its name.
    pub fn register_openai(&mut self, provider_id: &str, config: ProviderConfig, now_secs: u64)
        requires
            old(self).wf(),
        ensures
            final(self).wf(),
            final(self)@.marks_cache == old(self)@.marks_cache,
            final(self)@.anthropic_default == old(self)@.anthropic_default,
            final(self)@.entries.remove(provider_id@) == old(self)@.entries.remove(provider_id@),
            final(self)@.entries.contains_key(provider_id@),
            is_new_entry(final(self)@.entries[provider_id@], config, now_secs),
            final(self)@.entries[provider_id@].service matches Service::OpenAI(p) && p.provider_id@
                == provider_id@ && p.config == config,
    {
        let entry = ProviderEntry {
            health: HealthStatus::unchecked(),
            health_checked_at: now_secs,
            parallel_slots: config.parallel_slots,
            sampling: resolved_sampling(&config),
            context_length: config.context_length,
            fallback_priority: config.fallback_priority,
            service: Service::OpenAI(OpenAICompatibleProvider::new(provider_id, config)),
        };
        self.providers.insert(provider_id, entry);
        proof {
            assert(self@.entries.remove(provider_id@) =~= old(self)@.entries.remove(provider_id@));
        }
    }

    /// Registers Anthropic's service, in place of what may have its name.
    pub fn register_anthropic(&mut self, provider_id: &str, config: ProviderConfig, now_secs: u64)
        requires
            old(self).wf(),
        ensures
            final(self).wf(),
            final(self)@.marks_cache == old(self)@.marks_cache,
            final(self)@.anthropic_default == old(self)@.anthropic_default,
            final(self)@.entries.remove(provider_id@) == old(self)@.entries.remove(provider_id@),
            final(self)@.entries.contains_key(provider_id@),
            is_new_entry(final(self)@.entries[provider_id@], config, now_secs),
            final(self)@.entries[provider_id@].service matches Service::Anthropic(p) && p.provider_id@
                == provider_id@ && p.config == config && p.anthropic_cache_control
                == old(self)@.marks_cache && p.default_model@ == old(self)@.anthropic_default,
    {
        let entry = ProviderEntry {
            health: HealthStatus::unchecked(),
            health_checked_at: now_secs,
            parallel_slots: config.parallel_slots,
            sampling: resolved_sampling(&config),
            context_length: config.context_length,
            fallback_priority: config.fallback_priority,
            service: Service::Anthropic(
                AnthropicProvider::new(
                    provider_id,
                    config,
                    self.anthropic_cache_control,
                    self.anthropic_model.as_str(),
                ),
            ),
        };
        self.providers.insert(provider_id, entry);
        proof {
            assert(self@.entries.remove(provider_id@) =~= old(self)@.entries.remove(provider_id@));
        }
    }

    /// Takes a provider out.
    pub fn unregister(&mut self, provider_id: &str)
        requires
            old(self).wf(),
        ensures
            final(self).wf(),
            final(self)@ == old(self)@.without(provider_id@),
    {
        let _ = self.providers.remove(provider_id);
    }

    /// Registers a stored provider, or refreshes it. `opened` is its key, opened.
    pub fn register_from_row(&mut self, row: &ProviderRow, opened: Option<&str>, now_secs: u64)
        requires
            old(self).wf(),
        ensures
            final(self).wf(),
            final(self)@.marks_cache == old(self)@.marks_cache,
            final(self)@.anthropic_default == old(self)@.anthropic_default,
            final(self)@.entries.remove(row.id@) == old(self)@.entries.remove(row.id@),
            final(self)@.entries.contains_key(row.id@),
            exists|c: ProviderConfig|
                #[trigger] runtime_config_v(
                    c,
                    *row,
                    stored_config(opt_string(row.config)),
                    opt_text(opened),
                ) && is_new_entry(final(self)@.entries[row.id@], c, now_secs) && (if row.provider_type@
                    == "anthropic"@ {
                    final(self)@.entries[row.id@].service matches Service::Anthropic(p) && p.provider_id@
                        == row.id@ && p.config == c && p.anthropic_cache_control
                        == old(self)@.marks_cache && p.default_model@
                        == old(self)@.anthropic_default
                } else {
                    final(self)@.entries[row.id@].service matches Service::OpenAI(p) && p.provider_id@
                        == row.id@ && p.config == c
                }),
    {
        let json = match &row.config {
            Some(s) => match Json::parse(s.as_str()) {
                Ok(j) => j,
                Err(_) => Json::object(),
            },
            None => Json::object(),
        };
        let config = runtime_config(row, &json, opened);
        let ghost c = config;
        if same(row.provider_type.as_str(), "anthropic") {
            self.register_anthropic(row.id.as_str(), config, now_secs);
        } else {
            self.register_openai(row.id.as_str(), config, now_secs);
        }
        proof {
            assert(runtime_config_v(
                c,
                *row,
                stored_config(opt_string(row.config)),
                opt_text(opened),
            ));
        }
    }

    /// The provider to use. One that is asked for and registered is used, healthy or not:
    /// it is never swapped for another. Otherwise the first is used.
    pub fn get_provider_id(&self, preferred_id: Option<&str>) -> (r: Result<String, ProviderError>)
        requires
            self.wf(),
        ensures
            match r {
                Ok(id) => self@.entries.contains_key(id@) && is_choice(
                    self@.entries,
                    opt_text(preferred_id),
                    id@,
                ),
                Err(e) => nothing_configured(e),
            },
            r is Ok <==> self@.entries != Map::<Seq<char>, ProviderEntry>::empty(),
    {
        match preferred_id {
            Some(id) => {
                if self.providers.contains_key(id) {
                    return Ok(owned(id));
                }
            },
            None => {},
        }
        let names = self.providers.keys();
        if names.len() == 0 {
            proof {
                assert(self@.entries =~= Map::<Seq<char>, ProviderEntry>::empty()) by {
                    assert forall|k: Seq<char>| !self@.entries.contains_key(k) by {
                        if self@.entries.contains_key(k) {
                            let i = choose|i: int|
                                0 <= i < names@.len() && (#[trigger] names@[i])@ == k;
                        }
                    }
                }
            }
            return Err(
                ProviderError::NoHealthyProvider {
                    user_message: owned("No providers are configured."),
                },
            );
        }
        let ghost m = self@.entries;
        proof {
            assert(m.contains_key(names@[0]@));
        }
        let mut best: usize = 0;
        let mut i: usize = 1;
        proof {
            lex_total(names@[0]@, names@[0]@);
        }
        while i < names.len()
            invariant
                self.wf(),
                m == self@.entries,
                best < i <= names@.len(),
                forall|k: int| 0 <= k < names@.len() ==> m.contains_key((#[trigger] names@[k])@),
                forall|k: int|
                    0 <= k < i ==> !chosen_before(
                        m[(#[trigger] names@[k])@],
                        names@[k]@,
                        m[names@[best as int]@],
                        names@[best as int]@,
                    ),
            decreases names@.len() - i,
        {
            let a = names[i].as_str();
            let b = names[best].as_str();
            proof {
                assert(m.contains_key(names@[i as int]@));
                assert(m.contains_key(names@[best as int]@));
            }
            match (self.providers.get(a), self.providers.get(b)) {
                (Some(x), Some(y)) => {
                    let x_up = same(x.health.status.as_str(), "healthy");
                    let y_up = same(y.health.status.as_str(), "healthy");
                    let first = if x_up != y_up {
                        x_up
                    } else if x.fallback_priority != y.fallback_priority {
                        x.fallback_priority < y.fallback_priority
                    } else {
                        precedes(a, b)
                    };
                    if first {
                        proof {
                            assert forall|k: int| 0 <= k < i + 1 implies !chosen_before(
                                m[(#[trigger] names@[k])@],
                                names@[k]@,
                                m[a@],
                                a@,
                            ) by {
                                let kk = names@[k]@;
                                lex_total(kk, a@);
                                lex_total(a@, b@);
                                if k < i && chosen_before(m[kk], kk, m[a@], a@) {
                                    choice_is_transitive(m[kk], kk, m[a@], a@, m[b@], b@);
                                }
                            }
                        }
                        best = i;
                    }
                },
                _ => {},
            }
            i += 1;
        }
        proof {
            assert forall|k: Seq<char>| #[trigger] m.contains_key(k) implies !chosen_before(
                m[k],
                k,
                m[names@[best as int]@],
                names@[best as int]@,
            ) by {
                let j = choose|j: int| 0 <= j < names@.len() && (#[trigger] names@[j])@ == k;
                assert(names@[j]@ == k);
            }
        }
        Ok(names[best].clone())
    }

    /// The providers whose state is to be checked, each once: those never reached, and those
    /// whose state is too old.
    pub fn due_for_check(&self, now_secs: u64) -> (r: Vec<String>)
        requires
            self.wf(),
        ensures
            forall|i: int|
                0 <= i < r@.len() ==> self@.entries.contains_key((#[trigger] r@[i])@) && is_due(
                    self@.entries[r@[i]@],
                    now_secs,
                ),
            forall|k: Seq<char>| #[trigger]
                self@.entries.contains_key(k) && is_due(self@.entries[k], now_secs) ==> exists|i: int|
                    0 <= i < r@.len() && (#[trigger] r@[i])@ == k,
            forall|i: int, j: int|
                0 <= i < j < r@.len() ==> (#[trigger] r@[i])@ != (#[trigger] r@[j])@,
    {
        let names = self.providers.keys();
        let mut out: Vec<String> = Vec::new();
        let mut i: usize = 0;
        let ghost m = self@.entries;
        while i < names.len()
            invariant
                self.wf(),
                m == self@.entries,
                i <= names@.len(),
                forall|k: int, l: int|
                    0 <= k < l < names@.len() ==> (#[trigger] names@[k])@ != (#[trigger] names@[l])@,
                forall|k: int, l: int|
                    0 <= k < l < out@.len() ==> (#[trigger] out@[k])@ != (#[trigger] out@[l])@,
                forall|k: int|
                    #![trigger out@[k]]
                    0 <= k < out@.len() ==> crate::registry::holds_text(
                        names@.take(i as int),
                        out@[k]@,
                    ),
                forall|k: int| 0 <= k < names@.len() ==> m.contains_key((#[trigger] names@[k])@),
                forall|k: int|
                    0 <= k < out@.len() ==> m.contains_key((#[trigger] out@[k])@) && is_due(
                        m[out@[k]@],
                        now_secs,
                    ),
                forall|k: int|
                    #![trigger names@[k]]
                    0 <= k < i && is_due(m[names@[k]@], now_secs) ==> crate::registry::holds_text(
                        out@,
                        names@[k]@,
                    ),
            decreases names@.len() - i,
        {
            let ghost before = out@;
            match self.providers.get(names[i].as_str()) {
                Some(e) => {
                    let old_state = now_secs >= e.health_checked_at && now_secs
                        - e.health_checked_at >= HEALTH_TTL_SECS;
                    if old_state || same(e.health.status.as_str(), "disconnected") {
                        out.push(names[i].clone());
                        proof {
                            assert(out@[before.len() as int]@ == names@[i as int]@);
                            assert forall|k: int|
                                #![trigger names@[k]]
                                0 <= k < i && is_due(
                                    m[names@[k]@],
                                    now_secs,
                                ) implies crate::registry::holds_text(out@, names@[k]@) by {
                                assert(crate::registry::holds_text(before, names@[k]@));
                                let j = choose|j: int|
                                    0 <= j < before.len() && (#[trigger] before[j])@
                                        == names@[k]@;
                                assert(out@[j]@ == names@[k]@);
                            }
                        }
                    }
                },
                None => {},
            }
            proof {
                let seen = names@.take(i + 1);
                assert forall|k: int| #![trigger out@[k]] 0 <= k < out@.len() implies crate::registry::holds_text(
                    seen,
                    out@[k]@,
                ) by {
                    if k < before.len() {
                        assert(out@[k] == before[k]);
                        let past = names@.take(i as int);
                        let j = choose|j: int| 0 <= j < past.len() && (#[trigger] past[j])@ == out@[k]@;
                        assert(seen[j] == past[j]);
                    } else {
                        assert(seen[i as int] == names@[i as int]);
                    }
                }
            }
            i += 1;
        }
        proof {
            assert forall|k: Seq<char>| #[trigger]
                m.contains_key(k) && is_due(m[k], now_secs) implies exists|i: int|
                0 <= i < out@.len() && (#[trigger] out@[i])@ == k by {
                let j = choose|j: int| 0 <= j < names@.len() && (#[trigger] names@[j])@ == k;
                assert(names@[j]@ == k);
                assert(crate::registry::holds_text(out@, k));
            }
        }
        out
    }

    /// Notes the state of a provider, where it is registered.
    pub fn set_health(&mut self, provider_id: &str, status: HealthStatus, now_secs: u64)
        requires
            old(self).wf(),
        ensures
            final(self).wf(),
            final(self)@ == old(self)@.checked(provider_id@, status, now_secs),
    {
        match self.providers.remove(provider_id) {
            Some(e0) => {
                let mut e = e0;
                e.health = status;
                e.health_checked_at = now_secs;
                self.providers.insert(provider_id, e);
                proof {
                    assert(self@.entries =~= old(self)@.entries.insert(provider_id@, e));
                }
            },
            None => {
                proof {
                    assert(self@.entries =~= old(self)@.entries);
                }
            },
        }
    }

    /// The names of the providers, each once.
    pub fn provider_ids(&self) -> (r: Vec<String>)
        requires
            self.wf(),
        ensures
            forall|i: int| 0 <= i < r@.len() ==> self@.entries.contains_key((#[trigger] r@[i])@),
            forall|k: Seq<char>| #[trigger]
                self@.entries.contains_key(k) ==> exists|i: int| 0 <= i < r@.len() && (#[trigger] r@[i])@ == k,
            forall|i: int, j: int|
                0 <= i < j < r@.len() ==> (#[trigger] r@[i])@ != (#[trigger] r@[j])@,
    {
        self.providers.keys()
    }

    /// The state of a provider as it was last found, `None` where it is not registered.
    pub fn health_of(&self, provider_id: &str) -> (r: Option<HealthStatus>)
        requires
            self.wf(),
        ensures
            match r {
                Some(h) => self@.entries.contains_key(provider_id@) && h@
                    == self@.entries[provider_id@].health@,
                None => !self@.entries.contains_key(provider_id@),
            },
    {
        match self.providers.get(provider_id) {
            Some(e) => Some(e.health.copy()),
            None => None,
        }
    }

    /// The states of all providers as they were last found, each once.
    pub fn provider_health(&self) -> (r: Vec<(String, HealthStatus)>)
        requires
            self.wf(),
        ensures
            forall|i: int|
                0 <= i < r@.len() ==> self@.entries.contains_key((#[trigger] r@[i]).0@) && r@[i].1@
                    == self@.entries[r@[i].0@].health@,
            forall|k: Seq<char>| #[trigger]
                self@.entries.contains_key(k) ==> exists|i: int|
                    0 <= i < r@.len() && (#[trigger] r@[i]).0@ == k,
            forall|i: int, j: int|
                0 <= i < j < r@.len() ==> (#[trigger] r@[i]).0@ != (#[trigger] r@[j]).0@,
    {
        let names = self.providers.keys();
        let ghost m = self@.entries;
        let mut out: Vec<(String, HealthStatus)> = Vec::new();
        let mut i: usize = 0;
        while i < names.len()
            invariant
                self.wf(),
                m == self@.entries,
                i <= names@.len(),
                out@.len() == i,
                forall|k: int| 0 <= k < names@.len() ==> m.contains_key((#[trigger] names@[k])@),
                forall|k: int|
                    #![trigger out@[k]]
                    0 <= k < i ==> out@[k].0@ == names@[k]@ && out@[k].1@ == m[names@[k]@].health@,
            decreases names@.len() - i,
        {
            proof {
                assert(m.contains_key(names@[i as int]@));
            }
            match self.providers.get(names[i].as_str()) {
                Some(e) => {
                    out.push((names[i].clone(), e.health.copy()));
                },
                None => {},
            }
            i += 1;
        }
        proof {
            assert forall|k: Seq<char>| #[trigger] m.contains_key(k) implies exists|i: int|
                0 <= i < out@.len() && (#[trigger] out@[i]).0@ == k by {
                let j = choose|j: int| 0 <= j < names@.len() && (#[trigger] names@[j])@ == k;
                assert(out@[j].0@ == k);
            }
            assert forall|i: int, j: int| 0 <= i < j < out@.len() implies (
            #[trigger] out@[i]).0@ != (#[trigger] out@[j]).0@ by {
                assert(names@[i]@ != names@[j]@);
            }
        }
        out
    }

    /// The provider to use and the model that it is asked for.
    pub fn resolve_provider(&self, preferred_id: Option<&str>) -> (r: Result<
        (String, String),
        ProviderError,
    >)
        requires
            self.wf(),
        ensures
            match r {
                Ok((id, model)) => self@.entries.contains_key(id@) && is_choice(
                    self@.entries,
                    opt_text(preferred_id),
                    id@,
                ) && model@ == self@.entries[id@].service.model_for(None),
                Err(e) => nothing_configured(e),
            },
            r is Ok <==> self@.entries != Map::<Seq<char>, ProviderEntry>::empty(),
    {
        match self.get_provider_id(preferred_id) {
            Ok(id) => {
                let model = self.resolve_model(id.as_str(), None);
                Ok((id, model))
            },
            Err(e) => Err(e),
        }
    }

    /// The service of a provider; an error where it is not registered.
    pub fn service(&self, provider_id: &str) -> (r: Result<&Service, ProviderError>)
        requires
            self.wf(),
        ensures
            match r {
                Ok(s) => self@.entries.contains_key(provider_id@) && *s == self@.entries[provider_id@].service,
                Err(e) => !self@.entries.contains_key(provider_id@) && not_found(e, provider_id@),
            },
    {
        match self.providers.get(provider_id) {
            Some(e) => Ok(&e.service),
            None => Err(
                ProviderError::NoHealthyProvider {
                    user_message: join3("Provider '", provider_id, "' not found"),
                },
            ),
        }
    }

    /// How many requests a provider's server takes at once, where that is configured.
    pub fn parallel_slots(&self, provider_id: &str) -> (r: Option<u32>)
        requires
            self.wf(),
        ensures
            r == (if self@.entries.contains_key(provider_id@) {
                self@.entries[provider_id@].parallel_slots
            } else {
                None
            }),
    {
        match self.providers.get(provider_id) {
            Some(e) => e.parallel_slots,
            None => None,
        }
    }

    /// The sampling parameters of a provider; none where it is not registered.
    pub fn sampling(&self, provider_id: &str) -> (r: SamplingParams)
        requires
            self.wf(),
        ensures
            r@ == (if self@.entries.contains_key(provider_id@) {
                self@.entries[provider_id@].sampling@
            } else {
                nothing_set()
            }),
    {
        match self.providers.get(provider_id) {
            Some(e) => sampling::merge(&e.sampling, &SamplingParams::default()),
            None => SamplingParams::default(),
        }
    }

    /// The context length of a provider, where that is configured.
    pub fn context_length(&self, provider_id: &str) -> (r: Option<i32>)
        requires
            self.wf(),
        ensures
            r == (if self@.entries.contains_key(provider_id@) {
                self@.entries[provider_id@].context_length
            } else {
                None
            }),
    {
        match self.providers.get(provider_id) {
            Some(e) => e.context_length,
            None => None,
        }
    }

    /// The model that a provider is asked for.
    pub fn resolve_model(&self, provider_id: &str, override_model: Option<&str>) -> (r: String)
        requires
            self.wf(),
        ensures
            r@ == (if self@.entries.contains_key(provider_id@) {
                self@.entries[provider_id@].service.model_for(opt_text(override_model))
            } else {
                "unknown"@
            }),
    {
        match self.providers.get(provider_id) {
            Some(e) => e.service.resolve_model(override_model),
            None => owned("unknown"),
        }
    }
}

/// The state of a provider is to be checked.
pub open spec fn is_due(e: ProviderEntry, now_secs: u64) -> bool {
    now_secs - e.health_checked_at >= HEALTH_TTL_SECS || e.health.status@ == "disconnected"@
}

proof fn choice_is_transitive(
    a: ProviderEntry,
    a_id: Seq<char>,
    b: ProviderEntry,
    b_id: Seq<char>,
    c: ProviderEntry,
    c_id: Seq<char>,
)
    requires
        chosen_before(a, a_id, b, b_id),
        chosen_before(b, b_id, c, c_id),
    ensures
        chosen_before(a, a_id, c, c_id),
{
    if lex_lt(a_id, b_id) && lex_lt(b_id, c_id) {
        lex_transitive(a_id, b_id, c_id);
    }
}

/// Where no provider is asked for, a healthy one is chosen before any that is not, among equals
/// the one of the smaller priority, and then the one whose name comes first. One that is asked
/// for and registered is chosen whatever its state.
pub proof fn the_best_provider_is_chosen(
    m: Map<Seq<char>, ProviderEntry>,
    preferred: Option<Seq<char>>,
    id: Seq<char>,
    other: Seq<char>,
)
    requires
        is_choice(m, preferred, id),
        m.contains_key(other),
        other != id,
    ensures
        m.contains_key(id),
        preferred matches Some(p) ==> m.contains_key(p) ==> id == p,
        !(preferred matches Some(p) && m.contains_key(p)) ==> {
            let up = m[id].health.status@ == "healthy"@;
            let other_up = m[other].health.status@ == "healthy"@;
            &&& up || !other_up
            &&& up == other_up ==> m[id].fallback_priority <= m[other].fallback_priority
            &&& up == other_up && m[id].fallback_priority == m[other].fallback_priority ==> lex_lt(
                id,
                other,
            )
        },
{
    lex_total(id, other);
    if !(preferred matches Some(p) && m.contains_key(p)) {
        assert(!chosen_before(m[other], other, m[id], id));
    }
}

/// A provider samples with what its configuration sets, each parameter under its own name.
pub proof fn configured_parameters_are_used(c: ProviderConfig)
    ensures
        ({
            let s = merged(configured_v(c), defaults_v(c.provider_type@));
            &&& c.temperature matches Some(t) ==> s.temperature == Some(t@)
            &&& c.top_p matches Some(t) ==> s.top_p == Some(t@)
            &&& c.top_k matches Some(n) ==> s.top_k == Some(n)
            &&& c.min_p matches Some(t) ==> s.min_p == Some(t@)
            &&& c.presence_penalty matches Some(t) ==> s.presence_penalty == Some(t@)
            &&& c.frequency_penalty matches Some(t) ==> s.frequency_penalty == Some(t@)
            &&& c.max_tokens matches Some(n) ==> s.max_tokens == Some(n)
            &&& c.provider_type@ != "ollama"@ && c.provider_type@ != "custom_openai"@ ==> {
                &&& c.temperature is None ==> s.temperature is None
                &&& c.top_p is None ==> s.top_p is None
                &&& c.top_k is None ==> s.top_k is None
                &&& c.min_p is None ==> s.min_p is None
                &&& c.presence_penalty is None ==> s.presence_penalty is None
                &&& c.frequency_penalty is None ==> s.frequency_penalty is None
                &&& c.max_tokens is None ==> s.max_tokens is None
            }
            &&& s.effort is None
        }),
{
}

/// A new entry is one that was never reached, which is due at once; it keeps what its
/// configuration says of slots, context and priority.
pub proof fn new_entries_are_due(e: ProviderEntry, c: ProviderConfig, now_secs: u64, later: u64)
    requires
        is_new_entry(e, c, now_secs),
    ensures
        is_due(e, later),
        e.health.status@ == "disconnected"@,
        e.health.latency_ms is None && e.health.error is None,
        e.health_checked_at == now_secs,
        e.parallel_slots == c.parallel_slots,
        e.context_length == c.context_length,
        e.fallback_priority == c.fallback_priority,
        e.sampling@ == merged(configured_v(c), defaults_v(c.provider_type@)),
{
}

/// A state that was found counts for so long, unless it is that of a provider that was never
/// reached.
pub proof fn states_count_for_a_while(e: ProviderEntry, now_secs: u64)
    ensures
        e.health.status@ == "disconnected"@ ==> is_due(e, now_secs),
        e.health.status@ != "disconnected"@ ==> (is_due(e, now_secs) <==> now_secs
            >= e.health_checked_at + 30),
{
}

/// A stored provider is reached as it was stored: under its name, at its address and in the
/// dialect that its configuration names, or else its type; with the key, where one is stored
/// and it could be opened; and with each setting of its configuration under its own name.
pub proof fn stored_providers_are_reached_as_stored(
    c: ProviderConfig,
    row: ProviderRow,
    json: JsonV,
    opened: Option<Seq<char>>,
)
    requires
        runtime_config_v(c, row, json, opened),
    ensures
        c.name@ == row.name@,
        c.base_url@ == row.base_url@,
        c.fallback_priority == row.fallback_priority,
        c.provider_type@ == (match json.at("provider_dialect"@) {
            JsonV::Str(t) => t,
            _ => row.provider_type@,
        }),
        c.model@ == (match json.at("model"@) {
            JsonV::Str(t) => t,
            _ => ""@,
        }),
        match opened {
            Some(k) => json.at("api_key"@) is Str ==> c.api_key@ == k,
            None => c.api_key@ == ""@,
        },
        !(json.at("api_key"@) is Str) ==> c.api_key@ == ""@,
        json.at("parallel_slots"@).unsigned() matches Some(n) ==> c.parallel_slots == Some(n as u32),
        json.at("parallel_slots"@).unsigned() is None ==> c.parallel_slots is None,
        opt_string(c.temperature) == float_text(json.at("temperature"@)),
        opt_string(c.top_p) == float_text(json.at("top_p"@)),
        opt_string(c.min_p) == float_text(json.at("min_p"@)),
        opt_string(c.presence_penalty) == float_text(json.at("presence_penalty"@)),
        opt_string(c.frequency_penalty) == float_text(json.at("frequency_penalty"@)),
        opt_string(c.idle_timeout_secs) == float_text(json.at("idle_timeout_secs"@)),
        json.at("top_k"@).signed() matches Some(n) ==> c.top_k == Some(n as i32),
        json.at("top_k"@).signed() is None ==> c.top_k is None,
        json.at("max_tokens"@).signed() matches Some(n) ==> c.max_tokens == Some(n as i32),
        json.at("max_tokens"@).signed() is None ==> c.max_tokens is None,
        json.at("context_length"@).signed() matches Some(n) ==> c.context_length == Some(n as i32),
        json.at("context_length"@).signed() is None ==> c.context_length is None,
        c.experimental_prefill <==> json.at("experimental_prefill"@) == JsonV::Bool(true),
{
}

/// A service is asked for the caller's model, then the configured one, then its default.
pub proof fn services_are_asked_for_their_model(s: Service, asked: Option<Seq<char>>)
    ensures
        asked matches Some(m) ==> s.model_for(asked) == m,
        asked is None ==> (match s {
            Service::OpenAI(p) => s.model_for(asked) == (if p.config.model@.len() > 0 {
                p.config.model@
            } else {
                "gpt-4o"@
            }),
            Service::Anthropic(p) => s.model_for(asked) == (if p.config.model@.len() > 0 {
                p.config.model@
            } else {
                p.default_model@
            }),
        }),
{
}

/// A check changes the state of the service that was checked and when it was checked, and
/// nothing else of it or of the others; no service comes or goes.
pub proof fn checks_change_the_state_alone(
    r: RouterV,
    id: Seq<char>,
    status: HealthStatus,
    now_secs: u64,
    other: Seq<char>,
)
    ensures
        r.checked(id, status, now_secs).entries.dom() == r.entries.dom(),
        other != id && r.entries.contains_key(other) ==> r.checked(
            id,
            status,
            now_secs,
        ).entries[other] == r.entries[other],
        r.entries.contains_key(id) ==> ({
            let e = r.checked(id, status, now_secs).entries[id];
            e.health == status && e.health_checked_at == now_secs && e.service
                == r.entries[id].service && e.sampling == r.entries[id].sampling
                && e.parallel_slots == r.entries[id].parallel_slots && e.context_length
                == r.entries[id].context_length && e.fallback_priority
                == r.entries[id].fallback_priority
        }),
        r.checked(id, status, now_secs).marks_cache == r.marks_cache,
        r.checked(id, status, now_secs).anthropic_default == r.anthropic_default,
{
    assert(r.checked(id, status, now_secs).entries.dom() =~= r.entries.dom());
}

/// A service that was taken out is gone, and the others are as they were.
pub proof fn a_service_taken_out_is_gone(r: RouterV, id: Seq<char>, other: Seq<char>)
    ensures
        !r.without(id).entries.contains_key(id),
        other != id ==> r.without(id).entries.contains_key(other) == r.entries.contains_key(other),
        other != id && r.entries.contains_key(other) ==> r.without(id).entries[other]
            == r.entries[other],
        r.without(id).marks_cache == r.marks_cache,
        r.without(id).anthropic_default == r.anthropic_default,
{
}

} // verus!
