//! Sampling parameters: what is configured, and what a self-hosted model needs besides.

use crate::json::opt_string;
use crate::provider::base::{nothing_set, SamplingParams, SamplingV};
use crate::provider::openai_compat::{is_self_hosted, self_hosted};
use crate::text::owned;
use vstd::prelude::*;

verus! {

/// What a self-hosted model needs where nothing is configured: without a penalty it may
/// repeat itself without end.
pub open spec fn floor_v() -> SamplingV {
    SamplingV {
        temperature: Some("0.7"@),
        top_p: Some("0.8"@),
        top_k: Some(20),
        min_p: Some("0.0"@),
        presence_penalty: Some("1.0"@),
        frequency_penalty: None,
        max_tokens: Some(8192),
        effort: None,
    }
}

/// The parameters of a service where nothing is configured: none for a hosted one.
pub open spec fn defaults_v(provider_type: Seq<char>) -> SamplingV {
    if is_self_hosted(provider_type) {
        floor_v()
    } else {
        nothing_set()
    }
}

/// The parameters of a service where nothing is configured.
pub fn defaults_for(provider_type: &str, _model: &str) -> (r: SamplingParams)
    ensures
        r@ == defaults_v(provider_type@),
{
    if self_hosted(provider_type) {
        SamplingParams {
            temperature: Some(owned("0.7")),
            top_p: Some(owned("0.8")),
            top_k: Some(20),
            min_p: Some(owned("0.0")),
            presence_penalty: Some(owned("1.0")),
            frequency_penalty: None,
            max_tokens: Some(8192),
            effort: None,
        }
    } else {
        SamplingParams::default()
    }
}

/// The first that is set.
pub open spec fn either<T>(a: Option<T>, b: Option<T>) -> Option<T> {
    if a is Some {
        a
    } else {
        b
    }
}

/// What is configured, and the defaults where it is silent.
pub open spec fn merged(c: SamplingV, d: SamplingV) -> SamplingV {
    SamplingV {
        temperature: either(c.temperature, d.temperature),
        top_p: either(c.top_p, d.top_p),
        top_k: either(c.top_k, d.top_k),
        min_p: either(c.min_p, d.min_p),
        presence_penalty: either(c.presence_penalty, d.presence_penalty),
        frequency_penalty: either(c.frequency_penalty, d.frequency_penalty),
        max_tokens: either(c.max_tokens, d.max_tokens),
        effort: either(c.effort, d.effort),
    }
}

fn first_text(a: &Option<String>, b: &Option<String>) -> (r: Option<String>)
    ensures
        opt_string(r) == either(opt_string(*a), opt_string(*b)),
{
    match a {
        Some(s) => Some(s.clone()),
        None => match b {
            Some(s) => Some(s.clone()),
            None => None,
        },
    }
}

fn first_int(a: Option<i32>, b: Option<i32>) -> (r: Option<i32>)
    ensures
        r == either(a, b),
{
    match a {
        Some(_) => a,
        None => b,
    }
}

/// What is configured, and the defaults where it is silent.
pub fn merge(configured: &SamplingParams, defaults: &SamplingParams) -> (r: SamplingParams)
    ensures
        r@ == merged(configured@, defaults@),
{
    let effort = match &configured.effort {
        Some(e) => Some(e.copy()),
        None => match &defaults.effort {
            Some(e) => Some(e.copy()),
            None => None,
        },
    };
    SamplingParams {
        temperature: first_text(&configured.temperature, &defaults.temperature),
        top_p: first_text(&configured.top_p, &defaults.top_p),
        top_k: first_int(configured.top_k, defaults.top_k),
        min_p: first_text(&configured.min_p, &defaults.min_p),
        presence_penalty: first_text(&configured.presence_penalty, &defaults.presence_penalty),
        frequency_penalty: first_text(&configured.frequency_penalty, &defaults.frequency_penalty),
        max_tokens: first_int(configured.max_tokens, defaults.max_tokens),
        effort,
    }
}

/// The parameters of a service: what is configured, and its defaults.
pub fn resolve(provider_type: &str, model: &str, configured: &SamplingParams) -> (r: SamplingParams)
    ensures
        r@ == merged(configured@, defaults_v(provider_type@)),
{
    let defaults = defaults_for(provider_type, model);
    merge(configured, &defaults)
}

/// What is configured always wins; merging with nothing changes nothing; merging twice with
/// the same defaults changes nothing more; and merging associates, so that a preset over a
/// configuration over a floor means one thing.
pub proof fn merging_laws(a: SamplingV, b: SamplingV, c: SamplingV)
    ensures
        a.temperature is Some ==> merged(a, b).temperature == a.temperature,
        a.presence_penalty is Some ==> merged(a, b).presence_penalty == a.presence_penalty,
        a.max_tokens is Some ==> merged(a, b).max_tokens == a.max_tokens,
        merged(a, nothing_set()) == a,
        merged(nothing_set(), a) == a,
        merged(merged(a, b), b) == merged(a, b),
        merged(a, merged(b, c)) == merged(merged(a, b), c),
{
}

/// A hosted service for which nothing is configured is sent nothing.
pub proof fn hosted_services_are_left_alone(provider_type: Seq<char>, c: SamplingV)
    requires
        !is_self_hosted(provider_type),
    ensures
        merged(c, defaults_v(provider_type)) == c,
{
}

/// Each parameter that is configured is used, and each that is not is the default's: none is
/// taken for another.
pub proof fn each_parameter_is_its_own(c: SamplingV, d: SamplingV)
    ensures
        merged(c, d).temperature == (if c.temperature is Some {
            c.temperature
        } else {
            d.temperature
        }),
        merged(c, d).top_p == (if c.top_p is Some {
            c.top_p
        } else {
            d.top_p
        }),
        merged(c, d).top_k == (if c.top_k is Some {
            c.top_k
        } else {
            d.top_k
        }),
        merged(c, d).min_p == (if c.min_p is Some {
            c.min_p
        } else {
            d.min_p
        }),
        merged(c, d).presence_penalty == (if c.presence_penalty is Some {
            c.presence_penalty
        } else {
            d.presence_penalty
        }),
        merged(c, d).frequency_penalty == (if c.frequency_penalty is Some {
            c.frequency_penalty
        } else {
            d.frequency_penalty
        }),
        merged(c, d).max_tokens == (if c.max_tokens is Some {
            c.max_tokens
        } else {
            d.max_tokens
        }),
        merged(c, d).effort == (if c.effort is Some {
            c.effort
        } else {
            d.effort
        }),
{
}

/// A model of one's own that is not configured is kept from repeating itself without end: it
/// gets a penalty, a limit and the sampling that goes with them. Only what is not configured
/// is filled in.
pub proof fn own_models_are_kept_from_looping(provider_type: Seq<char>, c: SamplingV)
    requires
        provider_type == "ollama"@ || provider_type == "custom_openai"@,
    ensures
        ({
            let s = merged(c, defaults_v(provider_type));
            &&& c.temperature is None ==> s.temperature == Some("0.7"@)
            &&& c.top_p is None ==> s.top_p == Some("0.8"@)
            &&& c.top_k is None ==> s.top_k == Some(20i32)
            &&& c.min_p is None ==> s.min_p == Some("0.0"@)
            &&& c.presence_penalty is None ==> s.presence_penalty == Some("1.0"@)
            &&& c.frequency_penalty is None ==> s.frequency_penalty is None
            &&& c.max_tokens is None ==> s.max_tokens == Some(8192i32)
            &&& c.effort is None ==> s.effort is None
        }),
{
}

} // verus!
