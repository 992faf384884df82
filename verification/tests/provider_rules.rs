use bigtiny::config::ProviderConfig;
use bigtiny::error::ProviderError;
use bigtiny::json::Json;
use bigtiny::provider::anthropic::{convert_tool_calls, group_tool_results, AnthropicProvider};
use bigtiny::provider::base::{
    classify_provider_error, classify_transport_error, headers_timeout, parse_retry_after, retry_after_seconds,
    sanitize_body_for_user, Effort, ErrorBody, HealthStatus, SamplingParams,
};
use bigtiny::provider::openai_compat::{
    hoist_all_system_messages, merge_system_messages, openrouter_reasoning,
    stringify_tool_call_arguments, OpenAICompatibleProvider,
};
use bigtiny::provider::presets;
use bigtiny::provider::router::{ProviderRouter, Service};
use bigtiny::provider::sampling;
use bigtiny::routes::providers::ProviderRow;
use std::time::Duration;

fn j(text: &str) -> Json {
    Json::parse(text).unwrap()
}

fn same(a: &Json, b: &str) {
    assert_eq!(a.to_value(), j(b).to_value());
}

fn some(s: &str) -> Option<String> {
    Some(s.to_string())
}

#[test]
fn test_classify_insufficient_credits() {
    let err = classify_provider_error(402, "Billing issue", None);
    match err {
        ProviderError::InsufficientCredits { .. } => {}
        other => panic!("Expected InsufficientCredits, got {:?}", other),
    }
}

#[test]
fn test_classify_context_exceeded() {
    let err = classify_provider_error(400, "context_length_exceeded", None);
    match err {
        ProviderError::ContextExceeded { .. } => {}
        other => panic!("Expected ContextExceeded, got {:?}", other),
    }
}

#[test]
fn anthropic_input_plus_max_tokens_wording_is_context_exceeded() {
    for body in [
        "input length and `max_tokens` exceed context limit: 199000 + 20480 > 200000",
        "prompt is too long: 210000 tokens > 200000 maximum",
        "This model's maximum context length is 128000 tokens",
        "context_length_exceeded",
    ] {
        let err = classify_provider_error(400, body, None);
        assert!(
            matches!(err, ProviderError::ContextExceeded { .. }),
            "{body:?} must classify as ContextExceeded, got {err:?}"
        );
        let err = classify_provider_error(400, body, None);
        assert!(!err.is_retryable(), "{body:?} must not be retried");
        assert_eq!(err.wire_type_tag(), Some("context_exceeded"), "{body:?}");
    }
}

#[test]
fn an_unrelated_limit_error_is_not_context_exceeded() {
    for body in ["rate limit exceeded", "request limit reached", "concurrency limit"] {
        let err = classify_provider_error(429, body, None);
        assert!(
            !matches!(err, ProviderError::ContextExceeded { .. }),
            "{body:?} must not be mistaken for a context overflow"
        );
    }
}

#[test]
fn test_classify_other() {
    let err = classify_provider_error(500, "Internal error", None);
    match err {
        ProviderError::Other { .. } => {}
        other => panic!("Expected Other, got {:?}", other),
    }
}

#[test]
fn read_bounded_error_body_caps_oversized_bodies() {
    let mut body = ErrorBody::new();
    assert!(body.wants_more());
    body.push(&vec![b'x'; 1024 * 1024]);
    assert!(!body.wants_more());
    let text = body.text();
    assert!(
        text.len() <= 8 * 1024,
        "error body must be capped to a few KB, got {} bytes",
        text.len()
    );
    assert_eq!(text.len(), 8 * 1024);
}

#[test]
fn an_error_body_is_read_in_pieces_and_as_text() {
    let mut body = ErrorBody::new();
    body.push(b"partial error bo");
    body.push(&[0xC3]);
    body.push(&[0xA9, 0xFF]);
    assert!(body.wants_more());
    assert_eq!(body.text(), "partial error bo\u{e9}\u{fffd}");
}

#[test]
fn test_classify_auth_failed_on_401_and_403() {
    for status in [401u16, 403] {
        let err = classify_provider_error(status, "unauthorized", None);
        match err {
            ProviderError::AuthFailed { http_status, .. } => {
                assert_eq!(http_status, status as i32)
            }
            other => panic!("Expected AuthFailed for {status}, got {:?}", other),
        }
    }
}

#[test]
fn parse_retry_after_parses_seconds_and_ignores_garbage() {
    let mut headers = reqwest::header::HeaderMap::new();
    headers.insert(reqwest::header::RETRY_AFTER, "30".parse().unwrap());
    assert_eq!(parse_retry_after(&headers), Some(30));

    assert_eq!(parse_retry_after(&reqwest::header::HeaderMap::new()), None);

    let mut date = reqwest::header::HeaderMap::new();
    date.insert(
        reqwest::header::RETRY_AFTER,
        "Wed, 21 Oct 2026 07:28:00 GMT".parse().unwrap(),
    );
    assert_eq!(parse_retry_after(&date), None);
    assert_eq!(retry_after_seconds(" 7 "), Some(7));
    assert_eq!(retry_after_seconds("18446744073709551616"), None);
}

#[test]
fn retryability_matches_the_fatal_classifications() {
    assert!(!classify_provider_error(401, "unauthorized", None).is_retryable());
    assert!(!classify_provider_error(403, "forbidden", None).is_retryable());
    assert!(!classify_provider_error(402, "billing issue", None).is_retryable());
    assert!(!classify_provider_error(400, "context_length_exceeded", None).is_retryable());

    assert!(classify_provider_error(500, "boom", None).is_retryable());
    assert!(classify_provider_error(429, "rate limited", None).is_retryable());
    assert!(classify_provider_error(503, "unavailable", None).is_retryable());
    assert!(
        ProviderError::Request {
            user_message: "x".into(),
            raw_message: "x".into(),
            http_status: 0,
        }
        .is_retryable()
    );
}

#[test]
fn classify_carries_the_retry_after_hint_on_rate_limited_errors() {
    let err = classify_provider_error(429, "rate limited", Some(17));
    match err {
        ProviderError::Other { http_status, retry_after_secs, .. } => {
            assert_eq!(http_status, 429);
            assert_eq!(retry_after_secs, Some(17));
        }
        other => panic!("Expected Other, got {:?}", other),
    }
    let fatal = classify_provider_error(401, "unauthorized", Some(5));
    assert_eq!(fatal.retry_after(), None);
    assert!(!fatal.is_retryable());
}

#[test]
fn wire_type_tag_covers_the_frontend_actionable_variants() {
    assert_eq!(
        classify_provider_error(402, "credit", None).wire_type_tag(),
        Some("insufficient_credits")
    );
    assert_eq!(
        classify_provider_error(400, "context_length_exceeded", None).wire_type_tag(),
        Some("context_exceeded")
    );
    assert_eq!(
        classify_provider_error(401, "unauthorized", None).wire_type_tag(),
        Some("auth_failed")
    );
    assert_eq!(classify_provider_error(500, "boom", None).wire_type_tag(), None);
    assert_eq!(
        ProviderError::Request {
            user_message: "x".into(),
            raw_message: "x".into(),
            http_status: 0,
        }
        .wire_type_tag(),
        Some("network_unreachable")
    );
}

#[test]
fn test_classify_other_truncates_the_user_facing_body() {
    let huge = "x".repeat(10_000);
    let err = classify_provider_error(500, &huge, None);
    match err {
        ProviderError::Other { user_message, raw_message, .. } => {
            assert!(user_message.len() < 400, "user message must be capped: {user_message:?}");
            assert!(user_message.contains("truncated"));
            assert_eq!(raw_message, huge, "raw_message keeps the full body");
        }
        other => panic!("Expected Other, got {:?}", other),
    }
}

#[test]
fn a_short_body_is_shown_whole() {
    assert_eq!(sanitize_body_for_user(" boom "), "boom");
    let cut = sanitize_body_for_user(&"\u{e9}".repeat(400));
    assert!(cut.starts_with(&"\u{e9}".repeat(300)));
    assert!(cut.contains("truncated"));
}

#[test]
fn transport_class_variants_tag_network_unreachable_and_stay_retryable() {
    for e in [
        ProviderError::Request {
            user_message: "x".into(),
            raw_message: "x".into(),
            http_status: 0,
        },
        ProviderError::ConnectFailed {
            user_message: "x".into(),
            raw_message: "x".into(),
            http_status: 0,
        },
        ProviderError::Timeout {
            user_message: "x".into(),
            raw_message: "x".into(),
            http_status: 0,
        },
    ] {
        assert_eq!(e.wire_type_tag(), Some("network_unreachable"), "{e:?}");
        assert!(e.is_retryable(), "{e:?}");
        assert!(e.is_transport_error(), "{e:?}");
    }
    assert!(!classify_provider_error(500, "boom", None).is_transport_error());
}

fn runtime() -> tokio::runtime::Runtime {
    tokio::runtime::Builder::new_multi_thread().worker_threads(2).enable_all().build().unwrap()
}

#[test]
fn a_refused_local_port_classifies_as_connect_failed() {
    runtime().block_on(async {
        let client = reqwest::Client::builder().build().unwrap();
        let err = client
            .get("http://127.0.0.1:1/")
            .send()
            .await
            .expect_err("port 1 on loopback must be refused");
        assert!(err.is_connect(), "expected a connect-level error, got {err}");
        match classify_transport_error(&err, "test".into()) {
            ProviderError::ConnectFailed { user_message, .. } => assert_eq!(user_message, "test"),
            other => panic!("expected ConnectFailed, got {other:?}"),
        }
    });
}

/// A resolver that never answers.
struct Silent;

impl reqwest::dns::Resolve for Silent {
    fn resolve(&self, _name: reqwest::dns::Name) -> reqwest::dns::Resolving {
        Box::pin(std::future::pending())
    }
}

#[test]
fn a_request_that_stalls_classifies_as_timeout() {
    runtime().block_on(async {
        let client = reqwest::Client::builder()
            .dns_resolver(std::sync::Arc::new(Silent))
            .timeout(Duration::from_millis(100))
            .build()
            .unwrap();
        let err = client.get("http://stalled.example/").send().await.expect_err("nothing answers");
        assert!(err.is_timeout(), "expected a timeout-class error, got {err}");
        match classify_transport_error(&err, "test".into()) {
            ProviderError::Timeout { raw_message, http_status, .. } => {
                assert_eq!(raw_message, err.to_string());
                assert_eq!(http_status, 0);
            }
            other => panic!("expected Timeout, got {other:?}"),
        }
    });
}

#[test]
fn an_answer_that_does_not_begin_is_a_timeout() {
    match headers_timeout() {
        ProviderError::Timeout { user_message, .. } => {
            assert_eq!(user_message, "Provider sent no response headers within 30s")
        }
        other => panic!("expected Timeout, got {other:?}"),
    }
}

#[test]
fn hosted_level_maps_levels_and_omits_off() {
    assert_eq!(Effort::Low.hosted_level(), Some("low"));
    assert_eq!(Effort::Medium.hosted_level(), Some("medium"));
    assert_eq!(Effort::High.hosted_level(), Some("high"));
    assert_eq!(Effort::Off.hosted_level(), None);
    assert_eq!(Effort::Custom("xhigh".into()).hosted_level(), Some("high"));
}

#[test]
fn wire_level_is_verbatim_for_self_hosted() {
    assert_eq!(Effort::Custom("xhigh".into()).wire_level(), Some("xhigh"));
    assert_eq!(Effort::Medium.wire_level(), Some("medium"));
    assert_eq!(Effort::Off.wire_level(), None);
}

#[test]
fn effort_is_read_whatever_its_case() {
    assert_eq!(Effort::from_wire(" High "), Some(Effort::High));
    assert_eq!(Effort::from_wire("off"), Some(Effort::Off));
    assert_eq!(Effort::from_wire("  "), None);
    assert_eq!(Effort::from_wire("XHigh"), Some(Effort::Custom("xhigh".into())));
}

#[test]
fn openrouter_uses_a_nested_object_and_can_disable() {
    same(&openrouter_reasoning(&Effort::Off), r#"{ "enabled": false }"#);
    same(&openrouter_reasoning(&Effort::High), r#"{ "effort": "high" }"#);
}

#[test]
fn merge_system_messages_joins_only_the_leading_system_run() {
    let messages = vec![
        j(r#"{"role": "system", "content": "persona"}"#),
        j(r#"{"role": "system", "content": "tool hints"}"#),
        j(r#"{"role": "user", "content": "hi"}"#),
        j(r#"{"role": "system", "content": "memory"}"#),
        j(r#"{"role": "assistant", "content": "hello"}"#),
    ];
    let merged = merge_system_messages(messages);
    assert_eq!(merged.len(), 4);
    assert_eq!(merged[0].get_str("role"), Some("system"));
    assert_eq!(merged[0].get_str("content"), Some("persona\n\ntool hints"));
    assert_eq!(merged[1].get_str("role"), Some("user"));
    assert_eq!(merged[1].get_str("content"), Some("hi"));
    assert_eq!(merged[2].get_str("role"), Some("system"));
    assert_eq!(merged[2].get_str("content"), Some("memory"));
    assert_eq!(merged[3].get_str("role"), Some("assistant"));
}

#[test]
fn merge_system_messages_leaves_a_system_free_array_untouched() {
    let messages = vec![
        j(r#"{"role": "user", "content": "hi"}"#),
        j(r#"{"role": "assistant", "content": "hello"}"#),
    ];
    let merged = merge_system_messages(messages.clone());
    assert_eq!(merged, messages);
}

#[test]
fn hoist_all_system_messages_moves_tail_system_to_a_single_leading_block() {
    let messages = vec![
        j(r#"{"role": "system", "content": "persona"}"#),
        j(r#"{"role": "system", "content": "tool hints"}"#),
        j(r#"{"role": "user", "content": "hi"}"#),
        j(r#"{"role": "system", "content": "memory"}"#),
        j(r#"{"role": "assistant", "content": "hello"}"#),
    ];
    let out = hoist_all_system_messages(messages);
    assert_eq!(out.len(), 3);
    assert_eq!(out[0].get_str("role"), Some("system"));
    assert_eq!(out[0].get_str("content"), Some("persona\n\ntool hints\n\nmemory"));
    assert_eq!(out[1].get_str("role"), Some("user"));
    assert_eq!(out[2].get_str("role"), Some("assistant"));
    assert!(out[1..].iter().all(|m| m.get_str("role") != Some("system")));
    // What is hoisted stays as it is.
    assert_eq!(hoist_all_system_messages(out.clone()), out);
}

fn arguments(m: &Json, call: usize) -> Option<&Json> {
    m.get_array("tool_calls").unwrap()[call].get("function").unwrap().get("arguments")
}

#[test]
fn stringify_tool_call_arguments_turns_objects_into_json_strings() {
    let messages = vec![j(
        r#"{"role": "assistant", "content": "", "tool_calls": [{"id": "call_1", "type": "function", "function": {"name": "read_file", "arguments": {"path": "a.txt", "lines": 10}}}]}"#,
    )];
    let out = stringify_tool_call_arguments(messages);
    let args = arguments(&out[0], 0).unwrap();
    assert!(args.as_str().is_some(), "arguments must be a string, got {args:?}");
    same(&j(args.as_str().unwrap()), r#"{"path": "a.txt", "lines": 10}"#);
}

#[test]
fn stringify_tool_call_arguments_leaves_strings_and_non_assistant_untouched() {
    let messages = vec![
        j(r#"{"role": "user", "content": "hi"}"#),
        j(
            r#"{"role": "assistant", "content": "ok", "tool_calls": [{"id": "call_2", "type": "function", "function": {"name": "t", "arguments": "{\"x\": 1}"}}]}"#,
        ),
    ];
    let out = stringify_tool_call_arguments(messages);
    assert!(out[0].get("tool_calls").is_none());
    assert_eq!(arguments(&out[1], 0), Some(&Json::string("{\"x\": 1}")));
}

#[test]
fn stringify_tool_call_arguments_tolerates_missing_or_malformed_arguments() {
    let messages = vec![j(
        r#"{"role": "assistant", "content": "ok", "tool_calls": [{"id": "a", "type": "function", "function": {"name": "t"}}, {"id": "b", "type": "function", "function": {"name": "u", "arguments": ""}}]}"#,
    )];
    let out = stringify_tool_call_arguments(messages);
    assert!(arguments(&out[0], 0).is_none());
    assert_eq!(arguments(&out[0], 1), Some(&Json::string("")));
}

fn openai(config: ProviderConfig) -> OpenAICompatibleProvider {
    OpenAICompatibleProvider::new("test", config)
}

fn anthropic(cache_control: bool) -> AnthropicProvider {
    AnthropicProvider::new("test", ProviderConfig::default(), cache_control, "some-model")
}

#[test]
fn id_slot_is_included_in_the_request_body_when_provided() {
    let messages = vec![j(r#"{"role": "user", "content": "hi"}"#)];
    let body = openai(ProviderConfig::default()).chat_request(
        messages,
        None,
        &SamplingParams::default(),
        None,
        Some(2),
    );
    assert_eq!(body.get_i64("id_slot"), Some(2));
}

#[test]
fn id_slot_is_absent_from_the_request_body_by_default() {
    let messages = vec![j(r#"{"role": "user", "content": "hi"}"#)];
    let body = openai(ProviderConfig::default()).chat_request(
        messages,
        None,
        &SamplingParams::default(),
        None,
        None,
    );
    assert_eq!(OpenAICompatibleProvider::DEFAULT_MODEL, "gpt-4o");
    same(
        &body,
        r#"{"model": "gpt-4o", "messages": [{"role": "user", "content": "hi"}], "stream": true, "stream_options": {"include_usage": true}}"#,
    );
}

#[test]
fn openai_compat_all_system_messages_are_joined_not_just_the_first() {
    let messages = vec![
        j(r#"{"role": "system", "content": "persona"}"#),
        j(r#"{"role": "system", "content": "tool hints"}"#),
        j(r#"{"role": "system", "content": "memory"}"#),
        j(r#"{"role": "user", "content": "hi"}"#),
    ];
    let body = openai(ProviderConfig::default()).chat_request(
        messages,
        None,
        &SamplingParams::default(),
        None,
        None,
    );
    same(
        body.get("messages").unwrap(),
        r#"[{"role": "system", "content": "persona\n\ntool hints\n\nmemory"}, {"role": "user", "content": "hi"}]"#,
    );
}

#[test]
fn a_self_hosted_server_gets_the_extensions() {
    let sampling = SamplingParams {
        temperature: some("0.5"),
        top_k: Some(20),
        min_p: some("0.0"),
        max_tokens: Some(64),
        effort: Some(Effort::Custom("xhigh".into())),
        ..Default::default()
    };
    let self_hosted = openai(ProviderConfig {
        provider_type: "custom_openai".into(),
        model: "qwen".into(),
        ..Default::default()
    });
    let messages = || {
        vec![
            j(r#"{"role": "user", "content": "hi"}"#),
            j(r#"{"role": "system", "content": "late"}"#),
        ]
    };
    let body = self_hosted.chat_request(messages(), None, &sampling, None, None);
    assert_eq!(body.get_i64("top_k"), Some(20));
    assert!(body.get("min_p").is_some());
    assert_eq!(body.get_str("model"), Some("qwen"));
    assert_eq!(body.get_array("messages").unwrap()[0].get_str("content"), Some("late"));
    assert_eq!(body.get("temperature").unwrap().print(), "0.5");
    let hosted = openai(ProviderConfig { provider_type: "openai".into(), ..Default::default() });
    let body = hosted.chat_request(messages(), Some(vec![j(r#"{"name":"t"}"#)]), &sampling, Some("o"), None);
    assert!(body.get("top_k").is_none() && body.get("min_p").is_none());
    assert_eq!(body.get_str("model"), Some("o"));
    assert_eq!(body.get_str("reasoning_effort"), Some("high"));
    assert_eq!(body.get_array("tools").unwrap().len(), 1);
    assert_eq!(body.get_array("messages").unwrap()[1].get_str("content"), Some("late"));
    let router = openai(ProviderConfig { provider_type: "openrouter".into(), ..Default::default() });
    let body = router.chat_request(messages(), None, &sampling, None, None);
    same(body.get("reasoning").unwrap(), r#"{"effort":"high"}"#);
}

#[test]
fn listed_models_of_an_answer() {
    let p = openai(ProviderConfig::default());
    let list = p.listed_models(&j(
        r#"{"data":[{"id":"a","max_model_len":4096},{"id":"b","name":"Bee"},{"noid":1}]}"#,
    ));
    assert_eq!(list[0].id, "a");
    assert_eq!(list[0].context_length, Some(4096));
    assert_eq!(list[1].provider_id.as_deref(), Some("test"));
    assert!(p.listed_models(&j("{}")).is_empty());
    assert!(anthropic(false).listed_models(&j(r#"{"data":3}"#)).is_empty());
}

#[test]
fn anthropic_all_system_messages_are_joined_not_just_the_first() {
    let messages = vec![
        j(r#"{"role": "system", "content": "persona"}"#),
        j(r#"{"role": "system", "content": "tool hints"}"#),
        j(r#"{"role": "system", "content": "memory"}"#),
        j(r#"{"role": "user", "content": "hi"}"#),
    ];
    let body = anthropic(false).chat_request(messages, None, &SamplingParams::default(), None);
    assert_eq!(body.get_str("system"), Some("persona\n\ntool hints\n\nmemory"));
    assert_eq!(body.get_str("model"), Some("some-model"));
    assert_eq!(body.get_i64("max_tokens"), Some(4096));
}

#[test]
fn system_gets_a_cache_control_breakpoint_when_enabled() {
    let messages = vec![
        j(r#"{"role": "system", "content": "persona"}"#),
        j(r#"{"role": "user", "content": "hi"}"#),
    ];
    let body = anthropic(true).chat_request(messages, None, &SamplingParams::default(), None);
    same(
        body.get("system").unwrap(),
        r#"[{"type": "text", "text": "persona", "cache_control": {"type": "ephemeral"}}]"#,
    );
}

#[test]
fn a_temperature_leaves_no_room_for_top_p() {
    let both = SamplingParams { temperature: some("0.2"), top_p: some("0.9"), ..Default::default() };
    let body = anthropic(false).chat_request(vec![], None, &both, None);
    assert!(body.get("temperature").is_some() && body.get("top_p").is_none());
    let one = SamplingParams { top_p: some("0.9"), ..Default::default() };
    let body = anthropic(false).chat_request(vec![], None, &one, Some("m"));
    assert!(body.get("temperature").is_none() && body.get("top_p").is_some());
    assert_eq!(body.get_str("model"), Some("m"));
}

#[test]
fn results_of_tools_go_back_in_one_message() {
    let call = convert_tool_calls(&j(
        r#"{"role":"assistant","content":"ok","tool_calls":[{"id":"a","function":{"name":"t","arguments":{"x":1}}}]}"#,
    ));
    same(
        call.get("content").unwrap(),
        r#"[{"type":"tool_use","id":"a","name":"t","input":{"x":1}}]"#,
    );
    let grouped = group_tool_results(&vec![
        j(r#"{"role":"tool","tool_call_id":"a","content":"1"}"#),
        j(r#"{"role":"tool","tool_call_id":"b","content":"2"}"#),
        j(r#"{"role":"user","content":"hi"}"#),
    ]);
    assert_eq!(grouped.len(), 2);
    same(
        &grouped[0],
        r#"{"role":"user","content":[{"type":"tool_result","tool_use_id":"a","content":"1"},{"type":"tool_result","tool_use_id":"b","content":"2"}]}"#,
    );
}

#[test]
fn the_three_documented_presets_resolve() {
    for name in presets::NAMES {
        assert!(presets::resolve(name).is_some(), "{name} should resolve");
    }
    assert_eq!(presets::resolve("Precise").unwrap().temperature, some("0.1"));
    assert_eq!(presets::resolve(" BALANCED ").unwrap().temperature, some("0.6"));
    assert_eq!(presets::resolve("creative").unwrap().temperature, some("1.0"));
}

#[test]
fn an_unknown_or_empty_preset_resolves_to_nothing() {
    assert!(presets::resolve("").is_none());
    assert!(presets::resolve("turbo").is_none());
}

#[test]
fn every_preset_pins_the_fields_the_self_hosted_floor_would_otherwise_supply() {
    let floor = sampling::defaults_for("custom_openai", "");
    assert!(
        floor.presence_penalty.is_some(),
        "this test is only meaningful while the floor sets a presence penalty"
    );
    for name in presets::NAMES {
        let p = presets::resolve(name).unwrap();
        assert!(p.temperature.is_some(), "{name}: temperature");
        assert!(p.top_k.is_some(), "{name}: top_k");
        assert!(p.top_p.is_some(), "{name}: top_p");
        assert!(p.min_p.is_some(), "{name}: min_p");
        assert!(p.presence_penalty.is_some(), "{name}: presence_penalty");
    }
}

#[test]
fn a_preset_overrides_the_provider_floor() {
    let floor = sampling::defaults_for("custom_openai", "");
    let merged = sampling::merge(&presets::resolve("creative").unwrap(), &floor);
    assert_eq!(merged.temperature, some("1.0"));
    assert_eq!(merged.presence_penalty, some("0.1"));
    assert_ne!(
        merged.presence_penalty, floor.presence_penalty,
        "the preset must displace the floor, not inherit it"
    );
}

#[test]
fn presets_do_not_cap_max_tokens() {
    let floor = sampling::defaults_for("custom_openai", "");
    let merged = sampling::merge(&presets::resolve("precise").unwrap(), &floor);
    assert_eq!(merged.max_tokens, floor.max_tokens);
}

#[test]
fn self_hosted_providers_get_the_qwen_recommended_floor() {
    let d = sampling::defaults_for("custom_openai", "qwen3.6");
    assert_eq!(d.temperature, some("0.7"));
    assert_eq!(d.top_p, some("0.8"));
    assert_eq!(d.top_k, Some(20));
    assert_eq!(d.min_p, some("0.0"));
    assert_eq!(d.presence_penalty, some("1.0"));
    assert_eq!(d.max_tokens, Some(8192));
    assert_eq!(sampling::defaults_for("ollama", "llama3"), d);
}

#[test]
fn hosted_providers_get_no_defaults_at_all() {
    for pt in ["anthropic", "openai", "openrouter"] {
        assert_eq!(sampling::defaults_for(pt, "anything"), SamplingParams::default());
    }
}

#[test]
fn a_configured_field_always_wins_over_the_default() {
    let configured = SamplingParams { temperature: some("0.1"), ..Default::default() };
    let resolved = sampling::resolve("custom_openai", "qwen3.6", &configured);
    assert_eq!(resolved.temperature, some("0.1"));
    assert_eq!(resolved.presence_penalty, some("1.0"));
    assert_eq!(resolved.top_k, Some(20));
}

#[test]
fn an_unconfigured_hosted_provider_sends_nothing() {
    let resolved = sampling::resolve("anthropic", "hosted", &SamplingParams::default());
    assert_eq!(resolved, SamplingParams::default());
}

fn router() -> ProviderRouter {
    ProviderRouter::new(false, "some-model".to_string())
}

fn set_health(r: &mut ProviderRouter, id: &str, status: &str) {
    r.set_health(
        id,
        HealthStatus { status: status.to_string(), latency_ms: None, error: None },
        0,
    );
}

fn row(provider_type: &str, config: &str) -> ProviderRow {
    ProviderRow {
        id: "p1".into(),
        name: "llama-server".into(),
        provider_type: provider_type.into(),
        base_url: "http://192.168.1.199:8081".into(),
        fallback_priority: 0,
        config: Some(config.into()),
        status: "disconnected".into(),
        error_message: None,
        created_at: None,
        updated_at: None,
    }
}

#[test]
fn parallel_slots_reflects_the_registered_providers_own_config() {
    let mut router = router();
    router.register_openai(
        "pinned",
        ProviderConfig { parallel_slots: Some(4), ..Default::default() },
        0,
    );
    router.register_openai("unpinned", ProviderConfig::default(), 0);
    assert_eq!(router.parallel_slots("pinned"), Some(4));
    assert_eq!(router.parallel_slots("unpinned"), None);
    assert_eq!(router.parallel_slots("does-not-exist"), None);
}

#[test]
fn register_from_row_reads_parallel_slots_out_of_the_config_json_blob() {
    let mut router = router();
    router.register_from_row(
        &row("openai_compat", r#"{"model":"qwen3.6","parallel_slots":2}"#),
        None,
        0,
    );
    assert_eq!(router.parallel_slots("p1"), Some(2));
    assert_eq!(router.resolve_model("p1", None), "qwen3.6");
    assert_eq!(router.resolve_model("p1", Some("x")), "x");
}

#[test]
fn self_hosted_provider_with_no_sampling_config_gets_the_repetition_safe_defaults() {
    let mut router = router();
    router.register_openai(
        "llama-server",
        ProviderConfig { provider_type: "custom_openai".into(), ..Default::default() },
        0,
    );
    let s = router.sampling("llama-server");
    assert_eq!(s.presence_penalty, some("1.0"));
    assert_eq!(s.top_k, Some(20));
}

#[test]
fn a_configured_sampling_field_overrides_the_default_but_others_still_apply() {
    let mut router = router();
    router.register_openai(
        "llama-server",
        ProviderConfig {
            provider_type: "custom_openai".into(),
            temperature: some("0.1"),
            ..Default::default()
        },
        0,
    );
    let s = router.sampling("llama-server");
    assert_eq!(s.temperature, some("0.1"));
    assert_eq!(s.presence_penalty, some("1.0"));
}

#[test]
fn hosted_anthropic_provider_gets_no_sampling_defaults() {
    let mut router = router();
    router.register_anthropic("hosted", ProviderConfig::default(), 0);
    assert_eq!(router.sampling("hosted"), SamplingParams::default());
}

#[test]
fn context_length_reflects_the_registered_providers_own_config() {
    let mut router = router();
    router.register_openai(
        "with-ctx",
        ProviderConfig { context_length: Some(32000), ..Default::default() },
        0,
    );
    router.register_openai("no-ctx", ProviderConfig::default(), 0);
    assert_eq!(router.context_length("with-ctx"), Some(32000));
    assert_eq!(router.context_length("no-ctx"), None);
    assert_eq!(router.context_length("does-not-exist"), None);
}

#[test]
fn register_from_row_reads_sampling_and_context_length_out_of_the_config_json_blob() {
    let mut router = router();
    router.register_from_row(
        &row(
            "custom_openai",
            r#"{"model":"qwen3.6","temperature":0.2,"presence_penalty":1.3,"context_length":32000}"#,
        ),
        Some("the-key"),
        0,
    );
    let s = router.sampling("p1");
    assert_eq!(s.temperature, some("0.2"));
    assert_eq!(s.presence_penalty, some("1.3"));
    assert_eq!(router.context_length("p1"), Some(32000));
    match router.service("p1") {
        Ok(Service::OpenAI(p)) => {
            assert_eq!(p.config.provider_type, "custom_openai");
            assert_eq!(p.config.base_url, "http://192.168.1.199:8081");
        }
        _ => panic!("p1 speaks the OpenAI dialect"),
    }
}

#[test]
fn an_explicitly_requested_provider_is_never_swapped_for_a_healthy_one() {
    let mut router = router();
    router.register_openai(
        "qwen-selfhosted",
        ProviderConfig {
            provider_type: "custom_openai".into(),
            base_url: "http://100.82.113.84:8081".into(),
            fallback_priority: 1,
            ..Default::default()
        },
        0,
    );
    router.register_openai(
        "openrouter-no-key",
        ProviderConfig {
            provider_type: "openrouter".into(),
            base_url: "https://openrouter.ai/api".into(),
            fallback_priority: 100,
            ..Default::default()
        },
        0,
    );
    set_health(&mut router, "qwen-selfhosted", "unhealthy");
    set_health(&mut router, "openrouter-no-key", "healthy");
    assert_eq!(router.get_provider_id(Some("qwen-selfhosted")).unwrap(), "qwen-selfhosted");
}

#[test]
fn unpreferred_selection_follows_fallback_priority_not_map_order() {
    let mut router = router();
    for (id, priority) in [("demoted-a", 100), ("active", 1), ("demoted-b", 100)] {
        router.register_openai(
            id,
            ProviderConfig {
                provider_type: "custom_openai".into(),
                fallback_priority: priority,
                ..Default::default()
            },
            0,
        );
        set_health(&mut router, id, "healthy");
    }
    assert_eq!(router.get_provider_id(None).unwrap(), "active");
}

#[test]
fn unpreferred_selection_prefers_healthy_over_a_better_priority_thats_down() {
    let mut router = router();
    router.register_openai(
        "preferred-but-down",
        ProviderConfig { fallback_priority: 1, ..Default::default() },
        0,
    );
    router.register_openai(
        "backup-thats-up",
        ProviderConfig { fallback_priority: 50, ..Default::default() },
        0,
    );
    set_health(&mut router, "preferred-but-down", "unhealthy");
    set_health(&mut router, "backup-thats-up", "healthy");
    assert_eq!(router.get_provider_id(None).unwrap(), "backup-thats-up");
}

#[test]
fn an_unregistered_preferred_id_falls_back_by_priority() {
    let mut router = router();
    router.register_openai(
        "active",
        ProviderConfig { fallback_priority: 1, ..Default::default() },
        0,
    );
    assert_eq!(router.get_provider_id(Some("deleted-long-ago")).unwrap(), "active");
}

#[test]
fn an_empty_registry_still_errors() {
    let router = router();
    assert!(router.get_provider_id(None).is_err());
    assert!(router.get_provider_id(Some("anything")).is_err());
}

#[test]
fn each_provider_is_due_once() {
    let mut router = router();
    for name in ["a", "b", "a", "c", "b"] {
        router.register_anthropic(name, ProviderConfig::default(), 100);
    }
    let mut due = router.due_for_check(100);
    due.sort();
    assert_eq!(due, vec!["a".to_string(), "b".to_string(), "c".to_string()]);
}

#[test]
fn states_grow_old_and_providers_go() {
    let mut router = router();
    router.register_anthropic("a", ProviderConfig::default(), 100);
    assert_eq!(router.due_for_check(100), vec!["a".to_string()]);
    router.set_health(
        "a",
        HealthStatus { status: "healthy".into(), latency_ms: some("1.5"), error: None },
        100,
    );
    assert!(router.due_for_check(129).is_empty());
    assert_eq!(router.due_for_check(130).len(), 1);
    assert_eq!(router.health_of("a").unwrap().latency_ms, some("1.5"));
    assert_eq!(router.resolve_model("a", None), "some-model");
    assert_eq!(router.provider_ids(), vec!["a".to_string()]);
    let all = router.provider_health();
    assert_eq!((all.len(), all[0].0.as_str(), all[0].1.status.as_str()), (1, "a", "healthy"));
    assert_eq!(
        router.resolve_provider(None).unwrap(),
        ("a".to_string(), "some-model".to_string())
    );
    router.unregister("a");
    assert!(router.provider_ids().is_empty());
    assert!(router.health_of("a").is_none());
    assert!(router.service("a").is_err());
    // A state of a provider that is gone is not noted.
    set_health(&mut router, "a", "healthy");
    assert!(router.provider_ids().is_empty());
}
