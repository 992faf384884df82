use bigtiny::config::LocalEngineConfig;
use bigtiny::error::ProviderError;
use bigtiny::json::Json;
use bigtiny::local::generation::{
    error_delta, prefill_chunks, sampler_stages, token_budget, wants_logits, Generation, Stage,
};
use bigtiny::local::manager::{SlotKind, SlotManager};
use bigtiny::local::provider::{
    flatten_for_template, plain_transcript, prompt_turns, unavailable, LocalProvider,
};
use bigtiny::local::summarizer::{
    is_complete_document, summary_budget, summary_turns, validates, Attempt, LocalSummarizer,
    Next, Outcome, SummaryChain, SummaryText,
};
use bigtiny::local::tools::{
    judge_call, tool_system_block, tools_schema, ToolCallScanner,
};
use bigtiny::provider::base::{Delta, SamplingParams};
use bigtiny::provider::tag_split::{longest_tag_prefix_suffix, TagSplitter};

fn j(text: &str) -> Json {
    Json::parse(text).unwrap()
}

fn cfg(path: &str) -> LocalEngineConfig {
    LocalEngineConfig { enabled: true, model_path: path.into(), ..Default::default() }
}

fn tool(name: &str) -> Json {
    j(&format!(
        "{{\"type\":\"function\",\"function\":{{\"name\":\"{name}\",\"description\":\"d\",\"parameters\":{{\"type\":\"object\",\"properties\":{{\"path\":{{\"type\":\"string\"}}}}}}}}}}"
    ))
}

#[test]
fn model_label_comes_from_the_gguf_filename() {
    let p = LocalProvider::new("local", cfg("/models/LFM2.5-1.2B-Q4.gguf"));
    assert_eq!(p.resolve_model(None), "LFM2.5-1.2B-Q4");
    assert_eq!(p.resolve_model(Some("")), "LFM2.5-1.2B-Q4");
    assert_eq!(p.resolve_model(Some("other")), "other");
    assert_eq!(LocalProvider::new("local", cfg("")).resolve_model(None), "local");
}

#[test]
fn flatten_without_tools_is_the_old_plain_transcript() {
    let msgs = vec![
        j(r#"{"role":"system","content":"be brief"}"#),
        j(r#"{"role":"user","content":"hi"}"#),
    ];
    let pairs = flatten_for_template(&msgs, &[]);
    assert_eq!(
        pairs,
        vec![
            ("system".to_string(), "be brief".to_string()),
            ("user".to_string(), "hi".to_string()),
        ]
    );
}

#[test]
fn flatten_appends_the_tool_block_to_the_leading_system_message() {
    let tools = vec![j(
        r#"{"type":"function","function":{"name":"read_file","description":"read","parameters":{}}}"#,
    )];
    let msgs = vec![
        j(r#"{"role":"system","content":"be brief"}"#),
        j(r#"{"role":"user","content":"hi"}"#),
    ];
    let pairs = flatten_for_template(&msgs, &tools);
    assert_eq!(pairs.len(), 2);
    assert_eq!(pairs[0].0, "system");
    assert!(pairs[0].1.starts_with("be brief"));
    assert!(pairs[0].1.contains("read_file"));
    assert!(pairs[0].1.contains("<tool_call>"));
}

#[test]
fn flatten_synthesizes_a_system_turn_when_there_is_none() {
    let tools = vec![j(r#"{"function":{"name":"t"}}"#)];
    let msgs = vec![j(r#"{"role":"user","content":"hi"}"#)];
    let pairs = flatten_for_template(&msgs, &tools);
    assert_eq!(pairs.len(), 2);
    assert_eq!(pairs[0].0, "system");
    assert!(pairs[0].1.contains("<tool_call>"));
    assert_eq!(pairs[1], ("user".to_string(), "hi".to_string()));
}

#[test]
fn flatten_round_trips_a_tool_call_and_its_result() {
    let tools = vec![j(r#"{"function":{"name":"read_file"}}"#)];
    let msgs = vec![
        j(r#"{"role":"user","content":"read a"}"#),
        j(
            r#"{"role":"assistant","content":"","tool_calls":[{"id":"call_1","type":"function","function":{"name":"read_file","arguments":{"path":"a"}}}]}"#,
        ),
        j(r#"{"role":"tool","tool_call_id":"call_1","content":"hello"}"#),
    ];
    let pairs = flatten_for_template(&msgs, &tools);
    assert_eq!(pairs.len(), 4);
    let assistant = &pairs[2];
    assert_eq!(assistant.0, "assistant");
    assert!(assistant.1.contains("<tool_call>"));
    assert!(assistant.1.contains("read_file"));
    let result = &pairs[3];
    assert_eq!(result.0, "user");
    assert!(result.1.contains("<tool_response>"));
    assert!(result.1.contains("hello"));
    assert_eq!(
        assistant.1,
        "<tool_call>{\"name\": \"read_file\", \"arguments\": {\"path\":\"a\"}}</tool_call>"
    );
    assert_eq!(
        result.1,
        "<tool_response>{\"tool_call_id\": \"call_1\", \"content\": \"hello\"}</tool_response>"
    );
}

#[test]
fn consecutive_tool_results_share_one_turn() {
    let msgs = vec![
        j(r#"{"role":"tool","tool_call_id":"a","content":"one \"quoted\""}"#),
        j(r#"{"role":"tool","tool_call_id":"b","content":[{"type":"text","text":"x"},{"type":"image"},{"text":"y"}]}"#),
        j(r#"{"content":"no role"}"#),
    ];
    let pairs = flatten_for_template(&msgs, &[]);
    assert_eq!(pairs.len(), 1);
    assert_eq!(
        pairs[0].1,
        "<tool_response>{\"tool_call_id\": \"a\", \"content\": \"one \\\"quoted\\\"\"}</tool_response>\n<tool_response>{\"tool_call_id\": \"b\", \"content\": \"x\\ny\"}</tool_response>"
    );
    assert_eq!(
        plain_transcript(&vec![("user".to_string(), "hi".to_string())]),
        "user: hi\nassistant: "
    );
}

#[test]
fn an_empty_prompt_is_an_error() {
    match prompt_turns(&[], &[]) {
        Err(ProviderError::Other { user_message, http_status, .. }) => {
            assert_eq!(user_message, "no messages to send");
            assert_eq!(http_status, 400);
        }
        other => panic!("expected an error, got {other:?}"),
    }
    assert_eq!(prompt_turns(&[], &[tool("a")]).unwrap().len(), 1);
}

#[test]
fn health_is_specific_about_why_it_is_down() {
    let disabled = LocalProvider::new("local", LocalEngineConfig::default());
    let h = disabled.check_health(false, false);
    assert_eq!(h.status, "disconnected");
    assert!(h.error.unwrap().contains("disabled"));

    let missing = LocalProvider::new("local", cfg("no-such-model.gguf"));
    let h = missing.check_health(false, false);
    assert_eq!(h.status, "disconnected");
    assert!(
        h.error.unwrap().contains("not found"),
        "a missing file and a disabled engine need different messages"
    );
    assert_eq!(missing.check_health(false, true).status, "connected");
    assert_eq!(missing.check_health(true, false).latency_ms.as_deref(), Some("0.0"));
    let blank = LocalProvider::new("local", cfg("  "));
    assert_eq!(blank.check_health(false, false).error.as_deref(), Some("no local model configured"));
}

#[test]
fn health_check_does_not_load_the_model() {
    let slots = SlotManager::new();
    let p = LocalProvider::new("local", cfg("some-model.gguf"));
    let h = p.check_health(slots.get(SlotKind::Summarizer).is_some(), true);
    assert_eq!(h.status, "connected");
    assert_eq!(h.latency_ms, None);
    assert!(slots.get(SlotKind::Summarizer).is_none());
}

#[test]
fn discover_models_is_empty_when_unconfigured() {
    let p = LocalProvider::new("local", LocalEngineConfig::default());
    assert!(p.discover_models(None).is_empty());
}

#[test]
fn discover_models_never_reports_the_automatic_sentinel_as_zero() {
    let automatic = LocalEngineConfig {
        enabled: true,
        model_path: "no-such-model.gguf".into(),
        n_ctx: 0,
        ..Default::default()
    };
    let p = LocalProvider::new("local", automatic);
    let models = p.discover_models(None);
    assert_eq!(models.len(), 1);
    assert_eq!(models[0].context_length, Some(4096));
    assert_eq!(p.discover_models(Some(1234))[0].context_length, Some(1234));

    let mut pinned_cfg = cfg("no-such-model.gguf");
    pinned_cfg.n_ctx = 8192;
    let p = LocalProvider::new("local", pinned_cfg);
    let models = p.discover_models(None);
    assert_eq!(models[0].context_length, Some(8192));
}

#[test]
fn tools_are_dropped_where_calling_is_turned_off() {
    let mut c = cfg("m.gguf");
    let on = LocalProvider::new("local", c.clone());
    assert!(on.supports_tools());
    assert_eq!(on.tools_for_turn(Some(vec![tool("a")])).len(), 1);
    assert!(on.tools_for_turn(None).is_empty());
    c.tool_calls = false;
    let off = LocalProvider::new("local", c);
    assert!(!off.supports_tools());
    assert!(off.tools_for_turn(Some(vec![tool("a")])).is_empty());
    match unavailable("model file not found: x") {
        ProviderError::Other { user_message, http_status, .. } => {
            assert_eq!(user_message, "local model unavailable: model file not found: x");
            assert_eq!(http_status, 503);
        }
        other => panic!("got {other:?}"),
    }
}

#[test]
fn extracts_a_whole_call_and_the_surrounding_text() {
    let tools = [tool("read_file")];
    let mut sc = ToolCallScanner::new(&tools);
    let out = sc.feed(
        r#"sure<tool_call>{"name":"read_file","arguments":{"path":"a"}}</tool_call> done"#,
    );
    assert_eq!(out.text, "sure done");
    assert_eq!(out.calls.len(), 1);
    assert_eq!(out.calls[0].function.get_str("name"), Some("read_file"));
    assert_eq!(out.calls[0].function.get("arguments").unwrap().get_str("path"), Some("a"));
    assert!(out.calls[0].id.starts_with("call_"));
    assert!(out.errors.is_empty());
}

#[test]
fn keeps_two_adjacent_calls_separate() {
    let tools = [tool("a"), tool("b")];
    let mut sc = ToolCallScanner::new(&tools);
    let out = sc.feed(
        r#"<tool_call>{"name":"a","arguments":{}}</tool_call><tool_call>{"name":"b","arguments":{}}</tool_call>"#,
    );
    assert_eq!(out.calls.len(), 2);
    assert_eq!(out.calls[0].function.get_str("name"), Some("a"));
    assert_eq!(out.calls[1].function.get_str("name"), Some("b"));
    assert_ne!(out.calls[0].id, out.calls[1].id);
    assert_eq!(out.calls[0].id.len(), 41);
}

#[test]
fn reassembles_a_call_split_one_char_at_a_time() {
    let tools = [tool("read_file")];
    let mut sc = ToolCallScanner::new(&tools);
    let mut text = String::new();
    let mut calls = Vec::new();
    for ch in r#"x<tool_call>{"name":"read_file","arguments":{}}</tool_call>y"#.chars() {
        let out = sc.feed(&ch.to_string());
        text.push_str(&out.text);
        calls.extend(out.calls);
    }
    text.push_str(&sc.flush());
    assert_eq!(text, "xy");
    assert_eq!(calls.len(), 1);
}

#[test]
fn an_unterminated_span_becomes_text_on_flush_not_a_call() {
    let tools = [tool("read_file")];
    let mut sc = ToolCallScanner::new(&tools);
    let out = sc.feed(r#"<tool_call>{"name":"read_file""#);
    assert!(out.calls.is_empty());
    assert!(out.text.is_empty());
    assert_eq!(sc.flush(), r#"<tool_call>{"name":"read_file""#);
}

#[test]
fn rejects_an_unknown_tool_and_bad_json_without_executing() {
    let tools = [tool("read_file")];
    let mut sc = ToolCallScanner::new(&tools);
    let out = sc.feed(r#"<tool_call>{"name":"rm_rf","arguments":{}}</tool_call>"#);
    assert!(out.calls.is_empty());
    assert_eq!(out.errors.len(), 1);
    assert!(out.errors[0].contains("unknown tool"));

    let mut sc = ToolCallScanner::new(&tools);
    let out = sc.feed(r#"<tool_call>{not json}</tool_call>"#);
    assert!(out.calls.is_empty());
    assert_eq!(out.errors.len(), 1);
    assert!(out.errors[0].contains("malformed"));
}

#[test]
fn each_reason_to_refuse_a_call_is_told() {
    let allowed = vec!["t".to_string()];
    let judge = |text: &str| judge_call(Json::parse(text), text, &allowed);
    assert_eq!(
        judge(r#"{"arguments":{}}"#).unwrap_err(),
        r#"ignored a tool call with no name: {"arguments":{}}"#
    );
    assert_eq!(judge(r#"{"name":"u"}"#).unwrap_err(), "ignored a call to unknown tool 'u'");
    assert_eq!(
        judge(r#"{"name":"t","arguments":[1]}"#).unwrap_err(),
        r#"ignored a call whose arguments were not an object: {"name":"t","arguments":[1]}"#
    );
    assert!(judge("nope").unwrap_err().starts_with("ignored a malformed tool call ("));
    assert_eq!(judge(r#"{"name":"t"}"#).unwrap().0, "t");
}

#[test]
fn a_missing_arguments_key_defaults_to_empty_object() {
    let tools = [tool("noargs")];
    let mut sc = ToolCallScanner::new(&tools);
    let out = sc.feed(r#"<tool_call>{"name":"noargs"}</tool_call>"#);
    assert_eq!(out.calls.len(), 1);
    assert_eq!(out.calls[0].function.get("arguments"), Some(&j("{}")));
}

#[test]
fn text_that_merely_contains_an_angle_bracket_passes_through() {
    let tools = [tool("a")];
    let mut sc = ToolCallScanner::new(&tools);
    let out = sc.feed("1 < 2 and a > b");
    assert_eq!(out.text, "1 < 2 and a > b");
    assert!(out.calls.is_empty());
}

#[test]
fn system_block_lists_each_tool_and_the_exact_syntax() {
    let tools = [tool("read_file"), tool("write_file")];
    let block = tool_system_block(&tools);
    assert!(block.contains("<tool_call>"));
    assert!(block.contains("</tool_call>"));
    assert!(block.contains("read_file"));
    assert!(block.contains("write_file"));
    let one = tool_system_block(&[j(r#"{"name":" t ","description":"does"}"#)]);
    assert!(one.ends_with(
        "Available tools:\n- t: does\n  parameters: {\"properties\":{},\"type\":\"object\"}\n"
    ));
}

#[test]
fn the_schema_of_the_calls_names_each_tool() {
    assert!(tools_schema(&[]).is_none());
    assert!(tools_schema(&[j(r#"{"name":"  "}"#)]).is_none());
    let s = tools_schema(&[j(r#"{"name":"t"}"#)]).unwrap();
    assert_eq!(
        s.to_value(),
        j(r#"{"oneOf":[{"type":"object","properties":{"name":{"enum":["t"]},"arguments":{"type":"object","properties":{}}},"required":["name","arguments"],"additionalProperties":false}]}"#)
            .to_value()
    );
}

#[test]
fn a_tag_may_arrive_in_any_pieces() {
    let whole = "a<think>b</think>c<think>d";
    let mut at_once = TagSplitter::thinking();
    let all = at_once.feed(whole);
    assert_eq!(all.outside, "ac");
    assert_eq!(all.inside, "bd");
    assert!(at_once.is_inside());
    for cut in 0..whole.len() {
        let mut sp = TagSplitter::thinking();
        let x = sp.feed(&whole[..cut]);
        let y = sp.feed(&whole[cut..]);
        assert_eq!(format!("{}{}", x.outside, y.outside), "ac", "cut at {cut}");
        assert_eq!(format!("{}{}", x.inside, y.inside), "bd", "cut at {cut}");
    }
    let mut sp = TagSplitter::thinking();
    assert_eq!(sp.feed("tail<thi").outside, "tail");
    assert_eq!(sp.flush(), "<thi");
    assert_eq!(sp.flush(), "");
    let chars = |s: &str| s.chars().collect::<Vec<char>>();
    assert_eq!(longest_tag_prefix_suffix(&chars("abc<th"), &chars("<think>")), 3);
    assert_eq!(longest_tag_prefix_suffix(&chars("abc"), &chars("<think>")), 0);
    assert_eq!(longest_tag_prefix_suffix(&chars("<think>"), &chars("<think>")), 0);
}

fn contents(ds: &[Delta]) -> String {
    ds.iter().filter_map(|d| d.content.clone()).collect()
}

fn reasoning(ds: &[Delta]) -> String {
    ds.iter().filter_map(|d| d.reasoning.clone()).collect()
}

#[test]
fn a_generation_streams_reasoning_text_and_calls() {
    let tools = [tool("read_file")];
    let mut g = Generation::begin(10, 100, None, &tools).unwrap_or_else(|m| panic!("{m}"));
    let text = "<think>hm <tool_call>{}</tool_call></think>ok <tool_call>{\"name\":\"read_file\"}</tool_call><tool_call>{\"name\":\"x\"}</tool_call>";
    let mut all = Vec::new();
    for ch in text.chars() {
        assert!(g.wants_more());
        all.extend(g.piece(&ch.to_string()));
        if g.wants_more() && g.position() < 99 {
            g.advance();
        }
    }
    assert_eq!(reasoning(&all), "hm <tool_call>{}</tool_call>");
    assert_eq!(contents(&all), "ok \n[ignored a call to unknown tool 'x']\n");
    let calls: Vec<_> = all.iter().filter_map(|d| d.tool_calls.as_ref()).collect();
    assert_eq!(calls.len(), 1);
    let last = g.finish();
    let last = last.last().unwrap();
    assert_eq!(last.finish_reason.as_deref(), Some("tool_calls"));
    let usage = last.usage.as_ref().unwrap();
    assert_eq!(usage.get("input_tokens"), Some(&10));
    assert!(!usage.contains_key("prompt_tokens") && !usage.contains_key("completion_tokens"));
}

#[test]
fn a_generation_without_tools_passes_calls_through_as_text() {
    let mut g = Generation::begin(4, 6, Some(50), &[]).unwrap_or_else(|m| panic!("{m}"));
    assert_eq!(g.position(), 4);
    let d = g.piece("<tool_call>x<thi");
    assert_eq!(contents(&d), "<tool_call>x");
    g.advance();
    g.advance();
    assert!(!g.wants_more());
    let end = g.finish();
    assert_eq!(end.len(), 2);
    assert_eq!(end[0].content.as_deref(), Some("<thi"));
    assert_eq!(end[1].finish_reason.as_deref(), Some("length"));
    assert_eq!(end[1].usage.as_ref().unwrap().get("output_tokens"), Some(&2));
}

#[test]
fn an_open_call_at_the_end_is_text() {
    let tools = [tool("t")];
    let mut g = Generation::begin(1, 100, None, &tools).unwrap_or_else(|m| panic!("{m}"));
    assert!(g.piece("<tool_call>{\"name\":\"t\"").is_empty());
    let end = g.finish();
    assert_eq!(end[0].content.as_deref(), Some("<tool_call>{\"name\":\"t\""));
    assert_eq!(end[1].finish_reason.as_deref(), Some("stop"));
}

#[test]
fn the_budget_of_a_turn() {
    assert_eq!(token_budget(None, 10_000, 100), 2048);
    assert_eq!(token_budget(Some(16), 10_000, 100), 16);
    assert_eq!(token_budget(Some(0), 10_000, 100), 2048);
    assert_eq!(token_budget(Some(-5), 1000, 100), 900);
    assert_eq!(token_budget(Some(16), 100, 100), 0);
    match Generation::begin(0, 10, None, &[]) {
        Err(m) => assert_eq!(m, "prompt tokenized to nothing"),
        Ok(_) => panic!("nothing to generate from"),
    }
    match Generation::begin(12, 10, None, &[]) {
        Err(m) => assert_eq!(m, "prompt (12 tokens) leaves no room in a 10-token context"),
        Ok(_) => panic!("no room"),
    }
    match Generation::begin(12, u32::MAX, None, &[]) {
        Err(m) => assert_eq!(m, "prompt (12 tokens) leaves no room in a -1-token context"),
        Ok(_) => panic!("no room"),
    }
    let d = error_delta("boom".to_string());
    assert_eq!(d.content.as_deref(), Some("[local engine error: boom]"));
    assert_eq!(d.finish_reason.as_deref(), Some("error"));
    assert_eq!(d.error_type.as_deref(), Some("boom"));
}

#[test]
fn a_prompt_is_fed_in_chunks() {
    assert_eq!(prefill_chunks(5, 2), vec![(0, 2), (2, 4), (4, 5)]);
    assert_eq!(prefill_chunks(4, 2), vec![(0, 2), (2, 4)]);
    assert_eq!(prefill_chunks(3, 0), vec![(0, 1), (1, 2), (2, 3)]);
    assert!(prefill_chunks(0, 8).is_empty());
    assert!(wants_logits(4, 5));
    assert!(!wants_logits(3, 5));
}

#[test]
fn schema_validation_accepts_and_rejects() {
    let schema = j(r#"{"type":"object","properties":{"n":{"type":"integer"}},"required":["n"]}"#);
    assert!(validates(&j(r#"{"n": 1}"#), &schema));
    assert!(!validates(&j(r#"{"n": "not a number"}"#), &schema));
    assert!(!validates(&j("{}"), &schema));
}

#[test]
fn an_uncompilable_schema_does_not_reject_everything() {
    let bogus = j(r#"{ "type": "not-a-real-type" }"#);
    assert!(validates(&j(r#"{"anything": true}"#), &bogus));
}

#[test]
fn unconfigured_summarizer_reports_unavailable() {
    assert!(!LocalSummarizer::new(LocalEngineConfig::default()).is_available());
    assert!(!LocalSummarizer::new(cfg("  ")).is_available());
    assert!(LocalSummarizer::new(cfg("m.gguf")).is_available());
}

#[test]
fn a_summary_asks_for_its_schema_last() {
    let turns = summary_turns(&[j(r#"{"content":"x"}"#)], &j(r#"{"type":"object"}"#));
    assert_eq!(turns[0], ("user".to_string(), "x".to_string()));
    assert_eq!(
        turns[1].1,
        "Respond with JSON only, matching this schema:\n{\"type\":\"object\"}"
    );
    assert_eq!(summary_budget(10, 4096), Ok(1024));
    assert_eq!(summary_budget(4000, 4096), Ok(96));
    assert_eq!(
        summary_budget(20, 20).unwrap_err(),
        "prompt (20 tokens) does not fit the 20-token context"
    );
    assert_eq!(summary_budget(0, 20).unwrap_err(), "prompt tokenized to nothing");
    assert!(is_complete_document(" {\"a\": 1} \n"));
    assert!(!is_complete_document("{\"a\": {}"));
    assert!(!is_complete_document("[1]"));
}

#[test]
fn a_summary_is_tried_three_times() {
    let (mut chain, first) = SummaryChain::new();
    assert_eq!(first, Attempt::Configured);
    assert!(matches!(chain.next(Outcome::NoJson), Next::Again(Attempt::Burn)));
    assert!(matches!(chain.next(Outcome::Value(j("1"), false)), Next::Again(Attempt::Greedy)));
    match chain.next(Outcome::Failed("boom".to_string())) {
        Next::GiveUp(m) => assert_eq!(
            m,
            "local summarizer produced no schema-valid JSON after 3 attempts: boom"
        ),
        _ => panic!("no attempt is left"),
    }
    let (mut chain, _) = SummaryChain::new();
    match chain.next(Outcome::Value(j("{\"n\":1}"), true)) {
        Next::Done(v) => assert_eq!(v.get_u64("n"), Some(1)),
        _ => panic!("the value fits"),
    }
}

#[test]
fn the_stages_of_the_sampler() {
    let none = SamplingParams::default();
    assert_eq!(sampler_stages(&none, false, false), vec![Stage::Temperature, Stage::Draw]);
    assert_eq!(sampler_stages(&none, true, true), vec![Stage::Grammar, Stage::Greedy]);
    let all = SamplingParams {
        top_k: Some(40),
        top_p: Some("0.9".into()),
        min_p: Some("0.05".into()),
        presence_penalty: Some("0.1".into()),
        ..Default::default()
    };
    assert_eq!(
        sampler_stages(&all, true, false),
        vec![
            Stage::Grammar,
            Stage::Penalties,
            Stage::TopK(40),
            Stage::TopP,
            Stage::MinP,
            Stage::Temperature,
            Stage::Draw
        ]
    );
    let off = SamplingParams { top_k: Some(0), ..Default::default() };
    assert_eq!(sampler_stages(&off, false, false).len(), 2);
    assert_eq!(sampler_stages(&all, false, true), vec![Stage::Greedy]);
}

#[test]
fn a_structured_answer_ends_with_its_document() {
    let mut text = SummaryText::begin(7, 4096).unwrap();
    assert!(text.wants_more());
    assert_eq!(text.position(), 7);
    assert!(text.read(Some("{\"a\": {}")));
    assert_eq!(text.position(), 8);
    assert!(!text.read(Some("}")));
    assert!(!text.wants_more());
    assert!(!text.read(Some(" and more")));
    assert_eq!(text.finish(), "{\"a\": {}}");
}

#[test]
fn a_structured_answer_ends_with_the_model_or_the_room() {
    let mut ended = SummaryText::begin(7, 4096).unwrap();
    assert!(ended.read(Some("no")));
    assert!(!ended.read(None));
    assert!(!ended.wants_more());
    assert_eq!(ended.finish(), "no");

    let mut short = SummaryText::begin(18, 20).unwrap();
    assert!(short.read(Some("a")));
    assert!(short.read(Some("b")));
    assert!(!short.wants_more());
    assert!(!short.read(Some("c")));
    assert_eq!(short.finish(), "ab");

    assert!(matches!(SummaryText::begin(0, 20), Err(m) if m == "prompt tokenized to nothing"));
    assert!(matches!(
        SummaryText::begin(20, 20),
        Err(m) if m == "prompt (20 tokens) does not fit the 20-token context"
    ));
}

#[test]
fn the_calls_of_a_turn_are_read_again_from_a_later_prompt() {
    let tools = [tool("find"), tool(r#"say \"it\" \\ twice"#)];
    let message = j(
        r#"{"role":"assistant","content":"","tool_calls":[
            {"function":{"name":"find","arguments":{"q":"<tool_call>","n":0.1}}},
            {"function":{"name":"say \"it\" \\ twice"}},
            {"function":{"name":"find","arguments":{"deep":[{"a":null}]}}}]}"#,
    );
    let turns = flatten_for_template(&[message], &tools);
    let (role, text) = turns.last().unwrap();
    assert_eq!(role, "assistant");
    let mut scanner = ToolCallScanner::new(&tools);
    let out = scanner.feed(text);
    assert_eq!(out.text, "\n\n");
    assert!(out.errors.is_empty());
    assert_eq!(scanner.flush(), "");
    let read: Vec<String> = out.calls.iter().map(|c| c.function.print()).collect();
    assert_eq!(
        read,
        vec![
            r#"{"arguments":{"n":0.1,"q":"<tool_call>"},"name":"find"}"#,
            r#"{"arguments":{},"name":"say \"it\" \\ twice"}"#,
            r#"{"arguments":{"deep":[{"a":null}]},"name":"find"}"#,
        ]
    );
}

#[test]
fn a_model_is_reported_by_the_name_of_its_file() {
    assert_eq!(LocalProvider::new("local", cfg("/m/tiny.q4.gguf")).model_label, "tiny.q4");
    assert_eq!(LocalProvider::new("local", cfg("")).model_label, "local");
}
