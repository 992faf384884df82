use bigtiny::config::LocalEngineConfig;
use bigtiny::error::LocalEngineError;
use bigtiny::local::backend::{
    available_devices, gpu_rank, select_from, BackendDevice, BackendKind, DeviceType, SelectedBackend,
};
use bigtiny::local::embeddings::{embedding_text, kept_tokens, vector_len};
use bigtiny::local::engine::{
    effective_n_ctx, embedding_n_ctx, estimate_n_ctx, fitted_size, is_countable, is_estimated, kv_bytes_per_token,
    layers_to_set, parse_kv_cache_type, registration_n_ctx, resolve_n_ctx, resolve_n_threads,
    should_fit, EmbedPooling, KvCacheType, KvGeometry, LoadedModel, AUTO_N_CTX_FALLBACK,
    FIT_N_CTX_MIN,
};
use bigtiny::local::manager::{Residence, Resident, SlotKind, SlotManager};
use bigtiny::local::pathway_embed::{embedder_for, tag_of_stem, LocalPathwayEmbedder};

fn dev(
    index: usize,
    backend: &str,
    description: &str,
    device_type: DeviceType,
    free: u64,
) -> BackendDevice {
    BackendDevice {
        index,
        name: format!("{backend}{index}"),
        description: description.to_string(),
        backend: backend.to_string(),
        memory_total: free * 2,
        memory_free: free,
        device_type,
    }
}

fn cuda(i: usize, free: u64) -> BackendDevice {
    dev(i, "CUDA", "NVIDIA GeForce RTX 3080", DeviceType::Gpu, free)
}

fn vulkan(i: usize, free: u64) -> BackendDevice {
    dev(i, "Vulkan", "AMD Radeon RX 7900", DeviceType::Gpu, free)
}

fn cpu_dev() -> BackendDevice {
    dev(9, "CPU", "", DeviceType::Cpu, 16_000)
}

#[test]
fn a_machine_with_no_gpu_selects_cpu_and_reports_no_vram() {
    let s = select_from(&[cpu_dev()], "auto");
    assert_eq!(s.kind(), BackendKind::Cpu);
    assert_eq!(s.device, None);
    assert_eq!(s.memory_total, 0);
    assert_eq!(s.memory_free, 0);
}

#[test]
fn a_cpu_selection_still_reports_system_ram_for_sizing() {
    let cpu = dev(9, "CPU", "", DeviceType::Cpu, 16_000);
    for pref in ["auto", "cpu"] {
        let s = select_from(std::slice::from_ref(&cpu), pref);
        assert_eq!(s.memory_free, 0, "{pref}: no VRAM row on CPU");
        assert_eq!(s.usable_memory, 16_000, "{pref}: but a real sizing budget");
    }
}

#[test]
fn an_empty_registry_leaves_no_sizing_budget() {
    assert_eq!(select_from(&[], "auto").usable_memory, 0);
}

#[test]
fn a_gpu_selection_sizes_against_its_own_free_vram() {
    let s = select_from(&[cuda(0, 8_000), cpu_dev()], "auto");
    assert_eq!(s.usable_memory, s.memory_free);
    assert_eq!(s.usable_memory, 8_000);
}

#[test]
fn an_empty_registry_selects_cpu() {
    assert_eq!(select_from(&[], "auto").kind(), BackendKind::Cpu);
}

#[test]
fn auto_prefers_cuda_over_vulkan() {
    let s = select_from(&[vulkan(0, 24_000), cuda(1, 8_000), cpu_dev()], "auto");
    assert_eq!(s.kind(), BackendKind::Cuda);
    assert_eq!(s.device_index, Some(1));
}

#[test]
fn auto_picks_the_device_with_the_most_free_memory() {
    let s = select_from(&[cuda(0, 8_000), cuda(1, 24_000)], "auto");
    assert_eq!(s.device_index, Some(1));
    assert_eq!(s.memory_free, 24_000);
}

#[test]
fn cpu_preference_forces_cpu_even_with_a_gpu_present() {
    let s = select_from(&[cuda(0, 24_000)], "cpu");
    assert_eq!(s.kind(), BackendKind::Cpu);
    assert_eq!(s.device_index, None);
}

#[test]
fn an_explicit_backend_preference_is_honoured() {
    let s = select_from(&[cuda(0, 8_000), vulkan(1, 4_000)], "vulkan");
    assert_eq!(s.kind(), BackendKind::Vulkan);
    assert_eq!(s.device_index, Some(1));
}

#[test]
fn a_pinned_backend_that_is_gone_falls_back_to_cpu() {
    let s = select_from(&[vulkan(0, 4_000), cpu_dev()], "cuda");
    assert_eq!(s.kind(), BackendKind::Cpu);
}

#[test]
fn an_unknown_preference_behaves_as_auto() {
    let s = select_from(&[cuda(0, 8_000)], "wat");
    assert_eq!(s.kind(), BackendKind::Cuda);
}

#[test]
fn integrated_gpus_count_as_offload_targets() {
    let igpu = dev(0, "Vulkan", "Intel Arc Graphics", DeviceType::IntegratedGpu, 2_000);
    assert_eq!(select_from(&[igpu], "auto").kind(), BackendKind::Vulkan);
}

#[test]
fn a_discrete_gpu_beats_an_integrated_one_that_claims_more_memory() {
    let igpu = dev(0, "Vulkan", "Intel(R) UHD Graphics", DeviceType::IntegratedGpu, 7_389);
    let discrete = dev(1, "Vulkan", "NVIDIA GeForce GTX 1650 Ti", DeviceType::Gpu, 3_561);
    for pref in ["auto", "vulkan"] {
        let s = select_from(&[igpu.clone(), discrete.clone(), cpu_dev()], pref);
        assert_eq!(
            s.device.as_deref(),
            Some("NVIDIA GeForce GTX 1650 Ti"),
            "{pref} picked the integrated GPU over the discrete one"
        );
    }
}

#[test]
fn the_backend_ranking_still_outranks_the_device_kind() {
    let cuda_igpu = dev(0, "CUDA", "Integrated CUDA", DeviceType::IntegratedGpu, 2_000);
    let s = select_from(&[cuda_igpu, vulkan(1, 24_000)], "auto");
    assert_eq!(s.kind(), BackendKind::Cuda);
}

#[test]
fn an_unranked_gpu_backend_is_not_auto_selected() {
    let sycl = dev(0, "SYCL", "Some Accelerator", DeviceType::Gpu, 8_000);
    assert_eq!(select_from(&[sycl], "auto").kind(), BackendKind::Cpu);
}

#[test]
fn ranks_and_descriptions_of_devices() {
    assert_eq!(gpu_rank(&cuda(0, 1)), Some((0, 0)));
    assert_eq!(gpu_rank(&dev(0, "vulkan0", "", DeviceType::IntegratedGpu, 1)), Some((1, 1)));
    assert_eq!(gpu_rank(&cpu_dev()), None);
    let list = available_devices(&[cuda(0, 7), cpu_dev()]);
    assert_eq!(list.len(), 2);
    assert_eq!(list[0].backend, "cuda");
    assert_eq!(list[0].memory_total, 14);
    // Without a description the device goes by its name.
    assert_eq!(list[1].device.as_deref(), Some("CPU9"));
    assert_eq!(BackendKind::Vulkan.as_str(), "vulkan");
    // The first of two equally good devices wins.
    assert_eq!(select_from(&[cuda(3, 5), cuda(4, 5)], " AUTO ").device_index, Some(3));
}

#[test]
fn pooling_parses_known_values_case_insensitively() {
    assert_eq!(EmbedPooling::parse("last"), EmbedPooling::Last);
    assert_eq!(EmbedPooling::parse("MEAN"), EmbedPooling::Mean);
    assert_eq!(EmbedPooling::parse(" Cls "), EmbedPooling::Cls);
}

#[test]
fn unknown_pooling_falls_back_to_last() {
    assert_eq!(EmbedPooling::parse("bogus"), EmbedPooling::Last);
    assert_eq!(EmbedPooling::parse(""), EmbedPooling::Last);
}

#[test]
fn cache_type_parses_the_documented_values_case_insensitively() {
    assert_eq!(parse_kv_cache_type("f16"), KvCacheType::F16);
    assert_eq!(parse_kv_cache_type("Q8_0"), KvCacheType::Q8_0);
    assert_eq!(parse_kv_cache_type(" q4_0 "), KvCacheType::Q4_0);
    assert_eq!(parse_kv_cache_type("Q4_1"), KvCacheType::Q4_1);
    assert_eq!(parse_kv_cache_type("q5_0"), KvCacheType::Q5_0);
    assert_eq!(parse_kv_cache_type("q5_1"), KvCacheType::Q5_1);
}

#[test]
fn unknown_cache_type_falls_back_to_f16() {
    assert_eq!(parse_kv_cache_type("bogus"), KvCacheType::F16);
    assert_eq!(parse_kv_cache_type(""), KvCacheType::F16);
}

#[test]
fn the_default_config_parses_to_f16_for_both_slots() {
    let cfg = LocalEngineConfig::default();
    assert_eq!(parse_kv_cache_type(&cfg.cache_type_k), KvCacheType::F16);
    assert_eq!(parse_kv_cache_type(&cfg.cache_type_v), KvCacheType::F16);
}

#[test]
fn fitting_runs_only_for_an_unpinned_layer_count_on_a_gpu() {
    assert!(should_fit(false, -1), "GPU + automatic is the fitting case");
    assert!(
        !should_fit(false, 12),
        "a pinned layer count is the user overriding the solver"
    );
    assert!(
        !should_fit(false, 0),
        "0 is a pin (CPU-only offload), not 'unset' — only negative means auto"
    );
    assert!(!should_fit(true, -1), "nothing to offload to on CPU");
    assert!(!should_fit(true, 12));
}

#[test]
fn the_default_config_asks_for_automatic_offload() {
    assert!(should_fit(false, LocalEngineConfig::default().n_gpu_layers));
}

#[test]
fn the_layers_that_are_set_agree_with_fitting() {
    assert_eq!(layers_to_set(true, 12), Some(0));
    assert_eq!(layers_to_set(false, 12), Some(12));
    assert_eq!(layers_to_set(false, -1), None);
    assert_eq!(fitted_size(Some(0)), None);
    assert_eq!(fitted_size(Some(512)), Some(512));
}

#[test]
fn a_configured_context_size_is_used_as_is() {
    assert_eq!(resolve_n_ctx(8192, None, None, 128_000), 8192);
    assert_eq!(resolve_n_ctx(8192, Some(4096), Some(2048), 128_000), 8192);
}

#[test]
fn registration_n_ctx_never_advertises_zero_or_nothing() {
    let pinned = LocalEngineConfig { n_ctx: 8192, ..Default::default() };
    assert_eq!(registration_n_ctx(&pinned), 8192);
    let automatic = LocalEngineConfig { n_ctx: 0, ..Default::default() };
    assert_eq!(registration_n_ctx(&automatic), AUTO_N_CTX_FALLBACK);
    assert_ne!(registration_n_ctx(&automatic), 0);
    assert_eq!(registration_n_ctx(&LocalEngineConfig::default()), 4096);
}

#[test]
fn automatic_prefers_measured_then_estimated_then_the_fallback() {
    assert_eq!(resolve_n_ctx(0, Some(16_384), Some(8192), 128_000), 16_384);
    assert_eq!(resolve_n_ctx(0, None, Some(8192), 128_000), 8192);
    assert_eq!(resolve_n_ctx(0, None, None, 128_000), AUTO_N_CTX_FALLBACK);
    assert_ne!(resolve_n_ctx(0, None, None, 128_000), 0);
}

#[test]
fn a_fitted_zero_means_no_opinion_not_a_context_of_zero() {
    assert_eq!(resolve_n_ctx(0, Some(0), None, 128_000), AUTO_N_CTX_FALLBACK);
    assert_eq!(resolve_n_ctx(0, Some(0), Some(8192), 128_000), 8192);
}

#[test]
fn every_path_is_clamped_to_what_the_model_was_trained_on() {
    assert_eq!(resolve_n_ctx(32_768, None, None, 4096), 4096);
    assert_eq!(resolve_n_ctx(0, Some(32_768), None, 4096), 4096);
    assert_eq!(resolve_n_ctx(0, None, Some(32_768), 4096), 4096);
    assert_eq!(resolve_n_ctx(0, None, None, 2048), 2048);
}

const LFM2: KvGeometry = KvGeometry { n_layer: 16, n_embd: 2048, n_head: 32, n_head_kv: 8 };
const LFM2_BYTES: u64 = 730_895_168;
const GIB: u64 = 1024 * 1024 * 1024;

#[test]
fn per_token_kv_cost_matches_the_hand_calculation() {
    let b = kv_bytes_per_token(LFM2, KvCacheType::F16, KvCacheType::F16).unwrap();
    assert_eq!(b, 32_768);
}

#[test]
fn grouped_query_attention_lowers_the_per_token_cost() {
    let mha = KvGeometry { n_head_kv: LFM2.n_head, ..LFM2 };
    let gqa = kv_bytes_per_token(LFM2, KvCacheType::F16, KvCacheType::F16).unwrap();
    let full = kv_bytes_per_token(mha, KvCacheType::F16, KvCacheType::F16).unwrap();
    assert_eq!(full / gqa, 4, "LFM2.5 is 32/8, so 4x cheaper than MHA");
}

#[test]
fn a_quantised_kv_cache_buys_more_context_than_f16() {
    let f16 = estimate_n_ctx(LFM2, KvCacheType::F16, KvCacheType::F16, 4 * GIB, LFM2_BYTES);
    let q8 = estimate_n_ctx(LFM2, KvCacheType::Q8_0, KvCacheType::Q8_0, 4 * GIB, LFM2_BYTES);
    assert!(q8 > f16, "q8_0 ({q8:?}) should beat f16 ({f16:?})");
}

#[test]
fn a_four_gigabyte_card_gets_a_real_context_not_a_flat_default() {
    let n = estimate_n_ctx(LFM2, KvCacheType::F16, KvCacheType::F16, 4 * GIB, LFM2_BYTES)
        .expect("a 4 GB card should support some context");
    assert!((40_000..48_000).contains(&n), "expected ~44k tokens, got {n}");
    assert_eq!(n % 256, 0, "should land on a 256-token boundary");
    assert!(
        n > AUTO_N_CTX_FALLBACK,
        "the point of estimating is to beat the flat default on real hardware"
    );
    // Half of 4 GiB less the weights, at 32768 bytes a token.
    assert_eq!(n as u64, (2 * GIB - LFM2_BYTES) / 32_768 / 256 * 256);
}

#[test]
fn the_estimate_scales_with_available_memory() {
    let at = |gb: u64| {
        estimate_n_ctx(LFM2, KvCacheType::F16, KvCacheType::F16, gb * GIB, LFM2_BYTES)
    };
    assert!(at(24) > at(8));
    assert!(at(8) > at(4));
}

#[test]
fn there_is_no_estimate_without_a_basis_for_one() {
    let est = |mem, bytes, g| estimate_n_ctx(g, KvCacheType::F16, KvCacheType::F16, mem, bytes);
    assert_eq!(est(0, LFM2_BYTES, LFM2), None, "no memory figure at all");
    assert_eq!(est(GIB, LFM2_BYTES, LFM2), None, "weights exceed the budget");
    assert_eq!(
        est(1_560_000_000, LFM2_BYTES, LFM2),
        None,
        "room for the weights, but not for a context worth having"
    );
    assert!(est(1_700_000_000, LFM2_BYTES, LFM2).is_some());
    let broken = KvGeometry { n_head: 0, ..LFM2 };
    assert_eq!(est(24 * GIB, LFM2_BYTES, broken), None, "no divide by zero");
}

#[test]
fn an_unknown_kv_head_count_assumes_full_attention_rather_than_none() {
    let hybrid = KvGeometry { n_head_kv: 0, ..LFM2 };
    let mha = KvGeometry { n_head_kv: LFM2.n_head, ..LFM2 };
    let f16 = (KvCacheType::F16, KvCacheType::F16);
    assert_eq!(
        kv_bytes_per_token(hybrid, f16.0, f16.1),
        kv_bytes_per_token(mha, f16.0, f16.1),
        "unknown must cost the same as the safe worst case"
    );
    let n = estimate_n_ctx(hybrid, f16.0, f16.1, 4 * GIB, LFM2_BYTES)
        .expect("unknown geometry must still yield an estimate");
    assert!(
        n > AUTO_N_CTX_FALLBACK,
        "even the conservative assumption should beat the flat default, got {n}"
    );
}

#[test]
fn an_estimate_never_lands_below_the_fit_floor() {
    for gb in 1..=32u64 {
        if let Some(n) =
            estimate_n_ctx(LFM2, KvCacheType::F16, KvCacheType::F16, gb * GIB, LFM2_BYTES)
        {
            assert!(n >= FIT_N_CTX_MIN, "{gb} GB produced {n}");
        }
    }
}

#[test]
fn the_effective_context_of_a_loaded_model() {
    let m = LoadedModel {
        geometry: LFM2,
        usable_memory: 4 * GIB,
        model_bytes: LFM2_BYTES,
        n_ctx_train: 128_000,
        fitted_n_ctx: None,
    };
    let pinned = LocalEngineConfig { n_ctx: 8192, ..Default::default() };
    assert_eq!(effective_n_ctx(&pinned, &m), 8192);
    let automatic = LocalEngineConfig { n_ctx: 0, ..Default::default() };
    assert_eq!(effective_n_ctx(&automatic, &m), 43_008);
    let measured = LoadedModel { fitted_n_ctx: Some(3000), ..m };
    assert_eq!(effective_n_ctx(&automatic, &measured), 3000);
    assert_eq!(embedding_n_ctx(&automatic, 512), 512);
    assert_eq!(resolve_n_threads(6, Some(8)), Some(6));
    assert_eq!(resolve_n_threads(0, Some(8)), Some(4));
    assert_eq!(resolve_n_threads(0, Some(2)), Some(2));
    assert_eq!(resolve_n_threads(0, None), None);
}

fn cfg_with(summarizer: &str, embedder: &str) -> LocalEngineConfig {
    LocalEngineConfig {
        enabled: true,
        model_path: summarizer.into(),
        embed_model_path: embedder.into(),
        ..Default::default()
    }
}

fn resident(handle: u64) -> Resident {
    Resident {
        handle,
        path: "m.gguf".into(),
        n_embd: 1024,
        backend: SelectedBackend::cpu(&[]),
        n_gpu_layers: 0,
        n_ctx: 4096,
    }
}

#[test]
fn unconfigured_slot_reports_not_configured() {
    let mut m = SlotManager::new();
    let err = m.get_or_load(SlotKind::Embedder, &cfg_with("x.gguf", "")).unwrap_err();
    assert!(matches!(err, LocalEngineError::NotConfigured(_)), "got {err:?}");
    assert_eq!(
        err.message(),
        "local engine is not configured: no model configured for the embedder slot"
    );
}

#[test]
fn status_reports_both_slots_with_the_configured_path_when_unloaded() {
    let m = SlotManager::new();
    let st = m.status(&cfg_with("sum.gguf", "emb.gguf"));
    assert_eq!(st.len(), 2);
    assert_eq!(st[0].kind, "summarizer");
    assert_eq!(st[1].kind, "embedder");
    assert!(st.iter().all(|s| !s.loaded));
    assert_eq!(st[0].model_path.as_deref(), Some("sum.gguf"));
    assert_eq!(st[1].model_path.as_deref(), Some("emb.gguf"));
}

#[test]
fn a_failed_load_is_remembered_in_status() {
    let mut m = SlotManager::new();
    let cfg = cfg_with("", "");
    let _ = m.get_or_load(SlotKind::Summarizer, &cfg);
    let st = m.status(&cfg);
    let sum = st.iter().find(|s| s.kind == "summarizer").unwrap();
    assert!(sum.error.is_some(), "expected a recorded error");
}

#[test]
fn unload_reports_whether_anything_was_resident() {
    let mut m = SlotManager::new();
    assert!(!m.unload(SlotKind::Summarizer));
    m.loaded(SlotKind::Summarizer, resident(1));
    assert!(m.unload(SlotKind::Summarizer));
    assert!(!m.unload(SlotKind::Summarizer));
}

#[test]
fn eviction_is_a_no_op_when_nothing_is_loaded() {
    let mut m = SlotManager::new();
    assert!(m.evict_under_pressure().is_empty());
}

#[test]
fn the_embedder_is_evicted_before_the_summarizer() {
    let mut m = SlotManager::new();
    let cfg = cfg_with("sum.gguf", "emb.gguf");
    assert_eq!(
        m.get_or_load(SlotKind::Summarizer, &cfg),
        Ok(Residence::Load("sum.gguf".to_string()))
    );
    m.record_error(SlotKind::Summarizer, "boom");
    assert_eq!(m.loaded(SlotKind::Summarizer, resident(1)), 1);
    assert_eq!(m.loaded(SlotKind::Embedder, resident(2)), 2);
    // A slower caller's model is dropped for the one that is resident.
    assert_eq!(m.loaded(SlotKind::Embedder, resident(3)), 2);
    assert_eq!(m.get_or_load(SlotKind::Embedder, &cfg), Ok(Residence::Ready(2)));
    let st = m.status(&cfg);
    assert!(st[0].loaded && st[0].error.is_none());
    assert_eq!(st[1].n_embd, Some(1024));
    assert_eq!(m.evict_under_pressure(), vec![SlotKind::Embedder]);
    assert!(m.get(SlotKind::Embedder).is_none());
    assert!(m.get(SlotKind::Summarizer).is_some());
    assert_eq!(m.evict_under_pressure(), vec![SlotKind::Summarizer]);
    assert_eq!(SlotKind::Embedder.as_str(), "embedder");
}

#[test]
fn the_space_tag_follows_the_gguf_filename() {
    assert_eq!(
        LocalPathwayEmbedder::space_tag("C:/models/Qwen3-Embedding-0.6B-q4_k_m.gguf"),
        "local:Qwen3-Embedding-0.6B-q4_k_m"
    );
    assert_ne!(LocalPathwayEmbedder::space_tag("/m/bge-small-en-v1.5.gguf"), LocalPathwayEmbedder::space_tag("/m/nomic-embed-text.gguf"));
}

#[test]
fn the_space_tag_is_namespaced_away_from_ollama_tags() {
    assert!(LocalPathwayEmbedder::space_tag("x/qwen3-embedding.gguf").starts_with("local:"));
}

#[test]
fn no_embedder_when_the_engine_is_disabled_or_unconfigured() {
    let disabled = LocalEngineConfig {
        enabled: false,
        embed_model_path: "x.gguf".into(),
        ..Default::default()
    };
    assert!(embedder_for(disabled).is_none());
    let unconfigured = LocalEngineConfig {
        enabled: true,
        embed_model_path: "   ".into(),
        ..Default::default()
    };
    assert!(embedder_for(unconfigured).is_none());
    let ok = LocalEngineConfig {
        enabled: true,
        embed_model_path: "x.gguf".into(),
        ..Default::default()
    };
    let embedder = embedder_for(ok).unwrap();
    assert_eq!(embedder.pooling, EmbedPooling::Last);
    assert_eq!(tag_of_stem(None), "local:unknown");
}

#[test]
fn what_is_embedded() {
    assert_eq!(embedding_text("  a b\n").as_deref(), Some("a b"));
    assert_eq!(embedding_text(" \t "), None);
    assert_eq!(kept_tokens(5, 10), 5);
    assert_eq!(kept_tokens(10, 5), 5);
    assert_eq!(kept_tokens(10, 0), 1);
    assert_eq!(kept_tokens(0, 0), 0);
    assert_eq!((vector_len(-1), vector_len(768)), (0, 768));
}

#[test]
fn a_cache_that_cannot_be_counted_is_told() {
    let (f16, q4) = (KvCacheType::F16, KvCacheType::Q4_0);
    assert!(is_countable(LFM2, f16, f16));
    let huge = KvGeometry { n_layer: u32::MAX, n_embd: u32::MAX, n_head: 1, n_head_kv: u32::MAX };
    assert!(!is_countable(huge, q4, q4));
    assert!(is_countable(KvGeometry { n_head: 0, ..huge }, f16, f16));
    assert!(is_countable(KvGeometry { n_layer: 0, ..huge }, f16, f16));
    let large = KvGeometry { n_layer: 1 << 20, n_embd: 1 << 20, n_head: 1, n_head_kv: 1 << 18 };
    assert!(!is_countable(large, f16, f16));
    assert!(is_countable(large, q4, q4));
    assert_eq!(kv_bytes_per_token(large, q4, q4), Some((1u64 << 58) / 32 * 36));
}

#[test]
fn a_pinned_context_needs_no_estimate() {
    let huge = KvGeometry { n_layer: u32::MAX, n_embd: u32::MAX, n_head: 1, n_head_kv: u32::MAX };
    let loaded = LoadedModel {
        geometry: huge,
        usable_memory: 1 << 40,
        model_bytes: 1,
        n_ctx_train: 8192,
        fitted_n_ctx: None,
    };
    let pinned = LocalEngineConfig { n_ctx: 4096, ..Default::default() };
    assert!(!is_estimated(&pinned, &loaded));
    assert_eq!(effective_n_ctx(&pinned, &loaded), 4096);
    let automatic = LocalEngineConfig { n_ctx: 0, ..Default::default() };
    assert!(is_estimated(&automatic, &loaded));
}

#[test]
fn an_estimate_is_the_largest_that_fits() {
    let f16 = KvCacheType::F16;
    let cost = kv_bytes_per_token(LFM2, f16, f16).unwrap();
    let memory: u64 = 8 << 30;
    let weights: u64 = 1 << 30;
    let n = estimate_n_ctx(LFM2, f16, f16, memory, weights).unwrap() as u64;
    assert_eq!(n % 256, 0);
    assert!(weights + n * cost <= memory / 2);
    assert!(weights + (n + 256) * cost > memory / 2);
    assert_eq!(estimate_n_ctx(LFM2, f16, f16, 2 * weights - 2, weights), None);
}

#[test]
fn a_slot_with_a_model_tells_no_error() {
    let mut m = SlotManager::new();
    let cfg = cfg_with("sum.gguf", "");
    m.loaded(SlotKind::Summarizer, resident(1));
    m.record_error(SlotKind::Summarizer, "another caller failed");
    let st = m.status(&cfg);
    assert!(st[0].loaded);
    assert_eq!(st[0].error, None);
    m.unload(SlotKind::Summarizer);
    assert_eq!(m.status(&cfg)[0].error.as_deref(), Some("another caller failed"));
}

#[test]
fn a_space_follows_the_name_of_its_file() {
    for (path, tag) in [
        ("/models/a.b.gguf", "local:a.b"),
        ("C:/models/x.gguf", "local:x"),
        ("plain", "local:plain"),
        ("/m/.hidden", "local:.hidden"),
        ("/m/..odd", "local:."),
        ("/m/dot.", "local:dot"),
    ] {
        assert_eq!(LocalPathwayEmbedder::space_tag(path), tag, "{path}");
    }
}
