//! What a user configures.

use vstd::prelude::*;

verus! {

/// How to reach a provider, and how to sample from it. A number with a fraction stands in
/// decimal.
#[derive(Debug, Clone, PartialEq, Default)]
pub struct ProviderConfig {
    pub name: String,
    /// The dialect that the service speaks.
    pub provider_type: String,
    pub base_url: String,
    pub api_key: String,
    pub fallback_priority: i32,
    pub model: String,
    /// How many requests the server takes at once.
    pub parallel_slots: Option<u32>,
    pub temperature: Option<String>,
    pub top_p: Option<String>,
    pub top_k: Option<i32>,
    pub min_p: Option<String>,
    pub presence_penalty: Option<String>,
    pub frequency_penalty: Option<String>,
    pub max_tokens: Option<i32>,
    pub context_length: Option<i32>,
    /// How many seconds without a byte end a stream.
    pub idle_timeout_secs: Option<String>,
    /// Whether the server continues a trailing message of the assistant.
    pub experimental_prefill: bool,
}

/// How the in-process engine runs its models.
#[derive(Debug, Clone, PartialEq)]
pub struct LocalEngineConfig {
    pub enabled: bool,
    pub model_path: String,
    pub embed_model_path: String,
    pub embed_pooling: String,
    /// The size of the context, 0 for an automatic one.
    pub n_ctx: u32,
    pub embed_n_ctx: u32,
    pub n_batch: u32,
    /// The threads to use, 0 for an automatic number.
    pub n_threads: i32,
    /// The layers to offload, negative for an automatic number.
    pub n_gpu_layers: i32,
    pub backend: String,
    pub cache_type_k: String,
    pub cache_type_v: String,
    pub tool_calls: bool,
}

impl Default for LocalEngineConfig {
    fn default() -> (r: LocalEngineConfig)
        ensures
            !r.enabled,
            r.model_path@ == ""@,
            r.embed_model_path@ == ""@,
            r.embed_pooling@ == "last"@,
            r.n_ctx == 4096,
            r.embed_n_ctx == 2048,
            r.n_batch == 512,
            r.n_threads == 0,
            r.n_gpu_layers == -1,
            r.backend@ == "auto"@,
            r.cache_type_k@ == "f16"@,
            r.cache_type_v@ == "f16"@,
            r.tool_calls,
    {
        LocalEngineConfig {
            enabled: false,
            model_path: "".to_owned(),
            embed_model_path: "".to_owned(),
            embed_pooling: "last".to_owned(),
            n_ctx: 4096,
            embed_n_ctx: 2048,
            n_batch: 512,
            n_threads: 0,
            n_gpu_layers: -1,
            backend: "auto".to_owned(),
            cache_type_k: "f16".to_owned(),
            cache_type_v: "f16".to_owned(),
            tool_calls: true,
        }
    }
}

} // verus!
