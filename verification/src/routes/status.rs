//! What the service tells of itself.

use crate::json::{decimal_json, jsons, opt_json, opt_string, Json, JsonV};
use crate::local::backend::{SelectedBackend, SelectedV};
use crate::local::manager::SlotStatus;
use crate::provider::base::HealthStatus;
use crate::routes::reply::{err_response, refusal, Reply};
use vstd::prelude::*;

verus! {

/// How many slots hold a model.
pub open spec fn loaded_count(slots: Seq<SlotStatus>) -> nat
    decreases slots.len(),
{
    if slots.len() == 0 {
        0
    } else {
        loaded_count(slots.drop_last()) + (if slots.last().loaded {
            1nat
        } else {
            0nat
        })
    }
}

/// What is told without a key.
pub open spec fn summary_v(enabled: bool, backend: Seq<char>, slots: Seq<SlotStatus>) -> JsonV {
    JsonV::empty().put("enabled"@, JsonV::Bool(enabled)).put("backend"@, JsonV::Str(backend)).put(
        "slots_loaded"@,
        JsonV::Int(loaded_count(slots) as int),
    )
}

/// What is told without a key: whether the engine is on, its backend, and how many models
/// are resident. No path and no device.
pub fn health_summary(enabled: bool, backend: &str, slots: &Vec<SlotStatus>) -> (r: Json)
    ensures
        r@ == summary_v(enabled, backend@, slots@),
{
    let mut n: u64 = 0;
    let mut i: usize = 0;
    proof {
        assert(slots@.take(0) =~= Seq::empty());
    }
    while i < slots.len()
        invariant
            i <= slots@.len(),
            n <= i,
            n == loaded_count(slots@.take(i as int)),
        decreases slots@.len() - i,
    {
        if slots[i].loaded {
            n += 1;
        }
        i += 1;
        proof {
            assert(slots@.take(i as int).drop_last() =~= slots@.take(i - 1));
        }
    }
    proof {
        assert(slots@.take(i as int) =~= slots@);
    }
    Json::object().with("enabled", Json::Bool(enabled)).with(
        "backend",
        Json::string(backend),
    ).with("slots_loaded", Json::Uint(n))
}

/// The answer that tells that the service is up.
pub fn health_reply(local: Json) -> (r: Json)
    ensures
        r@ == JsonV::empty().put("status"@, JsonV::Str("ok"@)).put("local"@, local@),
{
    Json::object().with("status", Json::string("ok")).with("local", local)
}

/// One provider's state as it is told.
pub open spec fn provider_v(id: Seq<char>, h: HealthStatus) -> JsonV {
    JsonV::empty().put("id"@, JsonV::Str(id)).put("status"@, JsonV::Str(h.status@)).put(
        "latency_ms"@,
        match h.latency_ms {
            Some(t) => decimal_json(t@),
            None => JsonV::Null,
        },
    ).put("error"@, opt_json(opt_string(h.error)))
}

/// One provider's state as it is told.
pub fn provider_status(id: &str, h: &HealthStatus) -> (r: Json)
    ensures
        r@ == provider_v(id@, *h),
{
    let latency = match &h.latency_ms {
        Some(t) => match Json::parse(t.as_str()) {
            Ok(v) => v,
            Err(_) => Json::Null,
        },
        None => Json::Null,
    };
    Json::object().with("id", Json::string(id)).with(
        "status",
        Json::string(h.status.as_str()),
    ).with("latency_ms", latency).with("error", Json::opt(&h.error))
}

/// A choice of a device as an object.
pub open spec fn backend_json(b: SelectedV) -> JsonV {
    JsonV::empty().put("backend"@, JsonV::Str(b.backend)).put("device"@, opt_json(b.device)).put(
        "device_index"@,
        match b.device_index {
            Some(i) => JsonV::Int(i as int),
            None => JsonV::Null,
        },
    ).put("memory_free"@, JsonV::Int(b.memory_free as int)).put(
        "memory_total"@,
        JsonV::Int(b.memory_total as int),
    ).put("usable_memory"@, JsonV::Int(b.usable_memory as int))
}

/// A choice of a device as an object.
pub fn backend_to_json(b: &SelectedBackend) -> (r: Json)
    ensures
        r@ == backend_json(b@),
{
    let index = match b.device_index {
        Some(i) => Json::Uint(i as u64),
        None => Json::Null,
    };
    Json::object().with("backend", Json::string(b.backend.as_str())).with(
        "device",
        Json::opt(&b.device),
    ).with("device_index", index).with("memory_free", Json::Uint(b.memory_free)).with(
        "memory_total",
        Json::Uint(b.memory_total),
    ).with("usable_memory", Json::Uint(b.usable_memory))
}

/// The state of a slot as an object.
pub open spec fn slot_json(s: SlotStatus) -> JsonV {
    JsonV::empty().put("kind"@, JsonV::Str(s.kind@)).put("loaded"@, JsonV::Bool(s.loaded)).put(
        "model_path"@,
        opt_json(opt_string(s.model_path)),
    ).put(
        "n_embd"@,
        match s.n_embd {
            Some(n) => JsonV::Int(n as int),
            None => JsonV::Null,
        },
    ).put(
        "backend"@,
        match s.backend {
            Some(b) => backend_json(b@),
            None => JsonV::Null,
        },
    ).put(
        "n_gpu_layers"@,
        match s.n_gpu_layers {
            Some(n) => JsonV::Int(n as int),
            None => JsonV::Null,
        },
    ).put(
        "n_ctx"@,
        match s.n_ctx {
            Some(n) => JsonV::Int(n as int),
            None => JsonV::Null,
        },
    ).put("error"@, opt_json(opt_string(s.error)))
}

/// The state of a slot as an object.
pub fn slot_to_json(s: &SlotStatus) -> (r: Json)
    ensures
        r@ == slot_json(*s),
{
    let n_embd = match s.n_embd {
        Some(n) => Json::Int(n as i64),
        None => Json::Null,
    };
    let backend = match &s.backend {
        Some(b) => backend_to_json(b),
        None => Json::Null,
    };
    let layers = match s.n_gpu_layers {
        Some(n) => Json::Int(n as i64),
        None => Json::Null,
    };
    let n_ctx = match s.n_ctx {
        Some(n) => Json::Uint(n as u64),
        None => Json::Null,
    };
    Json::object().with("kind", Json::string(s.kind.as_str())).with(
        "loaded",
        Json::Bool(s.loaded),
    ).with("model_path", Json::opt(&s.model_path)).with("n_embd", n_embd).with(
        "backend",
        backend,
    ).with("n_gpu_layers", layers).with("n_ctx", n_ctx).with("error", Json::opt(&s.error))
}

/// What is told of the in-process engine.
pub open spec fn models_v(
    enabled: bool,
    preference: Seq<char>,
    selected: SelectedV,
    devices: Seq<SelectedBackend>,
    slots: Seq<SlotStatus>,
) -> JsonV {
    JsonV::empty().put("enabled"@, JsonV::Bool(enabled)).put(
        "backend_preference"@,
        JsonV::Str(preference),
    ).put("backend_selected"@, backend_json(selected)).put(
        "devices"@,
        JsonV::Arr(devices.map_values(|d: SelectedBackend| backend_json(d@))),
    ).put("slots"@, JsonV::Arr(slots.map_values(|s: SlotStatus| slot_json(s))))
}

/// What is told of the in-process engine: how it is set up, the devices there are, and what
/// each slot holds.
pub fn models_status(
    enabled: bool,
    preference: &str,
    selected: &SelectedBackend,
    devices: &Vec<SelectedBackend>,
    slots: &Vec<SlotStatus>,
) -> (r: Json)
    ensures
        r@ == models_v(enabled, preference@, selected@, devices@, slots@),
{
    let mut listed: Vec<Json> = Vec::new();
    let mut i: usize = 0;
    while i < devices.len()
        invariant
            i <= devices@.len(),
            listed@.len() == i,
            forall|k: int| 0 <= k < i ==> (#[trigger] listed@[k])@ == backend_json(devices@[k]@),
        decreases devices@.len() - i,
    {
        listed.push(backend_to_json(&devices[i]));
        i += 1;
    }
    let mut held: Vec<Json> = Vec::new();
    let mut k: usize = 0;
    while k < slots.len()
        invariant
            k <= slots@.len(),
            held@.len() == k,
            forall|n: int| 0 <= n < k ==> (#[trigger] held@[n])@ == slot_json(slots@[n]),
        decreases slots@.len() - k,
    {
        held.push(slot_to_json(&slots[k]));
        k += 1;
    }
    proof {
        assert(jsons(listed@) =~= devices@.map_values(|d: SelectedBackend| backend_json(d@)));
        assert(jsons(held@) =~= slots@.map_values(|s: SlotStatus| slot_json(s)));
    }
    Json::object().with("enabled", Json::Bool(enabled)).with(
        "backend_preference",
        Json::string(preference),
    ).with("backend_selected", backend_to_json(selected)).with(
        "devices",
        Json::array(listed),
    ).with("slots", Json::array(held))
}

/// What is told of the providers.
pub open spec fn status_v(providers: Seq<(String, HealthStatus)>) -> JsonV {
    JsonV::empty().put("status"@, JsonV::Str("ok"@)).put(
        "providers"@,
        JsonV::Arr(providers.map_values(|p: (String, HealthStatus)| provider_v(p.0@, p.1))),
    )
}

/// What is told of the providers: each with its state.
pub fn status(providers: &Vec<(String, HealthStatus)>) -> (r: Json)
    ensures
        r@ == status_v(providers@),
{
    let mut items: Vec<Json> = Vec::new();
    let mut i: usize = 0;
    while i < providers.len()
        invariant
            i <= providers@.len(),
            items@.len() == i,
            forall|k: int|
                0 <= k < i ==> (#[trigger] items@[k])@ == provider_v(
                    providers@[k].0@,
                    providers@[k].1,
                ),
        decreases providers@.len() - i,
    {
        items.push(provider_status(providers[i].0.as_str(), &providers[i].1));
        i += 1;
    }
    proof {
        assert(jsons(items@) =~= providers@.map_values(
            |p: (String, HealthStatus)| provider_v(p.0@, p.1),
        ));
    }
    Json::object().with("status", Json::string("ok")).with("providers", Json::array(items))
}

/// What is answered to a request for embeddings, which are not served over HTTP.
pub fn embeddings_reply() -> (r: Reply)
    ensures
        r@ == refusal(503, "this daemon serves embeddings in-process (LiteRT), not over HTTP"@),
{
    err_response(503, "this daemon serves embeddings in-process (LiteRT), not over HTTP")
}

/// The slots that hold a model are counted, and no others.
pub proof fn loaded_slots_are_counted(slots: Seq<SlotStatus>, next: SlotStatus)
    ensures
        loaded_count(Seq::empty()) == 0,
        loaded_count(slots.push(next)) == (if next.loaded {
            loaded_count(slots) + 1
        } else {
            loaded_count(slots)
        }),
{
    assert(slots.push(next).drop_last() =~= slots);
}

/// A provider is told with its state: its latency as a number, its error as a text, and null
/// where there is none.
pub proof fn providers_are_told_with_their_state(id: Seq<char>, h: HealthStatus)
    ensures
        ({
            let v = provider_v(id, h);
            &&& v.get("id"@) == Some(JsonV::Str(id))
            &&& v.get("status"@) == Some(JsonV::Str(h.status@))
            &&& v.get("latency_ms"@) == Some(
                match h.latency_ms {
                    Some(t) => decimal_json(t@),
                    None => JsonV::Null,
                },
            )
            &&& v.get("error"@) == Some(
                match h.error {
                    Some(t) => JsonV::Str(t@),
                    None => JsonV::Null,
                },
            )
        }),
{
    reveal_strlit("id");
    reveal_strlit("status");
    reveal_strlit("latency_ms");
    reveal_strlit("error");
    assert("id"@.len() == 2 && "status"@.len() == 6 && "latency_ms"@.len() == 10 && "error"@.len()
        == 5);
}

/// A device is told with its name, its place and its memory, each under its own name.
pub proof fn devices_are_told_whole(b: SelectedV)
    ensures
        ({
            let v = backend_json(b);
            &&& v.get("backend"@) == Some(JsonV::Str(b.backend))
            &&& v.get("device"@) == Some(
                match b.device {
                    Some(d) => JsonV::Str(d),
                    None => JsonV::Null,
                },
            )
            &&& v.get("device_index"@) == Some(
                match b.device_index {
                    Some(i) => JsonV::Int(i as int),
                    None => JsonV::Null,
                },
            )
            &&& v.get("memory_free"@) == Some(JsonV::Int(b.memory_free as int))
            &&& v.get("memory_total"@) == Some(JsonV::Int(b.memory_total as int))
            &&& v.get("usable_memory"@) == Some(JsonV::Int(b.usable_memory as int))
        }),
{
    reveal_strlit("backend");
    reveal_strlit("device");
    reveal_strlit("device_index");
    reveal_strlit("memory_free");
    reveal_strlit("memory_total");
    reveal_strlit("usable_memory");
    assert("backend"@.len() == 7 && "device"@.len() == 6 && "device_index"@[0] == 'd'
        && "memory_free"@.len() == 11 && "memory_total"@[0] == 'm' && "usable_memory"@.len() == 13);
}

/// A slot is told with what it holds and how it runs, each under its own name.
pub proof fn slots_are_told_whole(s: SlotStatus)
    ensures
        slot_json(s).get("kind"@) == Some(JsonV::Str(s.kind@)),
        slot_json(s).get("loaded"@) == Some(JsonV::Bool(s.loaded)),
        slot_json(s).get("model_path"@) == Some(
            match s.model_path {
                Some(t) => JsonV::Str(t@),
                None => JsonV::Null,
            },
        ),
        slot_json(s).get("n_embd"@) == Some(
            match s.n_embd {
                Some(n) => JsonV::Int(n as int),
                None => JsonV::Null,
            },
        ),
        slot_json(s).get("backend"@) == Some(
            match s.backend {
                Some(b) => backend_json(b@),
                None => JsonV::Null,
            },
        ),
        slot_json(s).get("n_gpu_layers"@) == Some(
            match s.n_gpu_layers {
                Some(n) => JsonV::Int(n as int),
                None => JsonV::Null,
            },
        ),
        slot_json(s).get("n_ctx"@) == Some(
            match s.n_ctx {
                Some(n) => JsonV::Int(n as int),
                None => JsonV::Null,
            },
        ),
        slot_json(s).get("error"@) == Some(
            match s.error {
                Some(t) => JsonV::Str(t@),
                None => JsonV::Null,
            },
        ),
{
    reveal_strlit("kind");
    reveal_strlit("loaded");
    reveal_strlit("model_path");
    reveal_strlit("n_embd");
    reveal_strlit("backend");
    reveal_strlit("n_gpu_layers");
    reveal_strlit("n_ctx");
    reveal_strlit("error");
    assert("loaded"@.len() == 6 && "n_embd"@.len() == 6 && "n_ctx"@.len() == 5 && "error"@.len() == 5);
    assert("kind"@.len() == 4 && "loaded"@[0] == 'l' && "model_path"@.len() == 10 && "n_embd"@[0]
        == 'n' && "backend"@.len() == 7 && "n_gpu_layers"@.len() == 12 && "n_ctx"@[0] == 'n'
        && "error"@[0] == 'e');
}

/// Without a key it is told whether the engine is on, on what it runs and how many models are
/// resident.
pub proof fn summaries_tell_the_engine(enabled: bool, backend: Seq<char>, slots: Seq<SlotStatus>)
    ensures
        summary_v(enabled, backend, slots).get("enabled"@) == Some(JsonV::Bool(enabled)),
        summary_v(enabled, backend, slots).get("backend"@) == Some(JsonV::Str(backend)),
        summary_v(enabled, backend, slots).get("slots_loaded"@) == Some(
            JsonV::Int(loaded_count(slots) as int),
        ),
{
    reveal_strlit("enabled");
    reveal_strlit("backend");
    reveal_strlit("slots_loaded");
    assert("enabled"@.len() == 7 && "backend"@.len() == 7 && "enabled"@[0] == 'e' && "backend"@[0]
        == 'b' && "slots_loaded"@.len() == 12);
}

/// Of the engine it is told how it is set up, what was chosen, and all devices and slots in
/// their order.
pub proof fn engines_are_told_whole(
    enabled: bool,
    preference: Seq<char>,
    selected: SelectedV,
    devices: Seq<SelectedBackend>,
    slots: Seq<SlotStatus>,
    i: int,
)
    ensures
        ({
            let v = models_v(enabled, preference, selected, devices, slots);
            &&& v.get("enabled"@) == Some(JsonV::Bool(enabled))
            &&& v.get("backend_preference"@) == Some(JsonV::Str(preference))
            &&& v.get("backend_selected"@) == Some(backend_json(selected))
            &&& v.at("devices"@) matches JsonV::Arr(d) && d.len() == devices.len() && (0 <= i
                < devices.len() ==> d[i] == backend_json(devices[i]@))
            &&& v.at("slots"@) matches JsonV::Arr(s) && s.len() == slots.len() && (0 <= i
                < slots.len() ==> s[i] == slot_json(slots[i]))
        }),
{
    reveal_strlit("enabled");
    reveal_strlit("backend_preference");
    reveal_strlit("backend_selected");
    reveal_strlit("devices");
    reveal_strlit("slots");
    assert("enabled"@.len() == 7 && "devices"@.len() == 7 && "enabled"@[0] == 'e' && "devices"@[0]
        == 'd' && "backend_preference"@.len() == 18 && "backend_selected"@.len() == 16
        && "slots"@.len() == 5);
}

/// Each provider is told with its state, in order.
pub proof fn all_providers_are_told(providers: Seq<(String, HealthStatus)>, i: int)
    ensures
        status_v(providers).get("status"@) == Some(JsonV::Str("ok"@)),
        status_v(providers).at("providers"@) matches JsonV::Arr(p) && p.len() == providers.len()
            && (0 <= i < providers.len() ==> p[i] == provider_v(providers[i].0@, providers[i].1)),
{
    reveal_strlit("status");
    reveal_strlit("providers");
    assert("status"@.len() == 6 && "providers"@.len() == 9);
}

} // verus!
