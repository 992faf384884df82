use bigtiny::dict::Dict;
use bigtiny::error::MCPServerError;
use bigtiny::json::Json;
use bigtiny::mcp::builtin::{builtin_named, Builtin, BUILTIN_SERVERS};
use bigtiny::mcp::client::{
    call_outcome, connection_id, dial, env_pairs, error_result, new_call_id, registrable_tools,
    short_id, valid_headers, CallOutcome, Dial,
};
use bigtiny::mcp::manager::{
    backoff_secs, connect_timeout_error, connect_timeout_message, row_to_config, sort_tools,
    strings_in, MCPManager,
};
use bigtiny::mcp::sse_transport::{
    call_params, call_result, initialize_params, notification, read_answer,
    sse_url_to_message_url, tools_from_result, SseTransport,
};
use bigtiny::mcp::tools::{
    extract_content_from_json, extract_content_from_json_sized, extract_content_from_rmcp,
    extract_content_from_rmcp_sized, join_parts, truncate_output, validate_tool_args, verdict_result, CappedJoin, ContentPart, Verdict,
    MAX_TOOL_OUTPUT_BYTES, TRUNCATION_MESSAGE,
};
use bigtiny::models::mcp::{MCPServerConfig, ToolDefinition, TransportType};
use bigtiny::models::schedule::{Recipe, ScheduleJob};
use bigtiny::routes::mcp::MCPServerRow;
use rmcp::model::ContentBlock;

fn j(text: &str) -> Json {
    Json::parse(text).unwrap()
}

fn tool_of(name: &str, schema: &str, server: &str) -> ToolDefinition {
    ToolDefinition {
        name: name.to_string(),
        description: String::new(),
        input_schema: j(schema),
        server_id: server.to_string(),
    }
}

#[test]
fn truncate_output_leaves_short_content_untouched() {
    let (content, truncated) = truncate_output("hello");
    assert_eq!(content, "hello");
    assert!(!truncated);
}

#[test]
fn truncate_output_truncates_long_content_by_bytes() {
    let long = "a".repeat(MAX_TOOL_OUTPUT_BYTES + 100);
    let (content, truncated) = truncate_output(&long);
    assert!(truncated);
    assert!(content.contains(TRUNCATION_MESSAGE));
    assert!(content.len() < long.len());
}

#[test]
fn half_a_character_at_the_cut_is_replaced() {
    let long = format!("a{}", "\u{e9}".repeat(MAX_TOOL_OUTPUT_BYTES / 2));
    let (content, truncated) = truncate_output(&long);
    assert!(truncated);
    let kept = "\u{e9}".repeat(MAX_TOOL_OUTPUT_BYTES / 2 - 1);
    assert_eq!(content, format!("a{kept}\u{fffd}\n{TRUNCATION_MESSAGE}"));
}

#[test]
fn extract_content_from_json_joins_text_and_resource_parts() {
    let content = j(
        r#"[{"type": "text", "text": "hello"}, {"type": "resource", "resource": {"uri": "file:///x"}}, {"type": "image", "data": "..."}, "bare string"]"#,
    );
    let out = extract_content_from_json(&content);
    assert!(out.contains("hello"));
    assert!(out.contains("file:///x"));
    assert!(out.contains("bare string"));
    assert_eq!(out, "hello\n{\"uri\":\"file:///x\"}\nbare string");
}

#[test]
fn long_parts_are_counted_but_not_kept() {
    let mut join = CappedJoin::new();
    join.push(&"x".repeat(MAX_TOOL_OUTPUT_BYTES));
    join.push("yz");
    join.push("more");
    let (text, seen) = join.finish();
    assert_eq!(text.len(), MAX_TOOL_OUTPUT_BYTES + 1);
    assert_eq!(seen, MAX_TOOL_OUTPUT_BYTES + 6);
    let (text, seen) = extract_content_from_json_sized(&j(r#"[{"type":"text","text":"ab"},"c"]"#));
    assert_eq!((text.as_str(), seen), ("ab\nc", 3));
    let (text, seen) = join_parts(&[
        ContentPart::Text("a".into()),
        ContentPart::Other,
        ContentPart::Resource(j(r#"{"b":1}"#)),
    ]);
    assert_eq!((text.as_str(), seen), ("a\n{\"b\":1}", 8));
}

#[test]
fn blocks_of_the_protocol_are_read() {
    let blocks = [
        ContentBlock::text("a"),
        ContentBlock::image("data", "image/png"),
        ContentBlock::embedded_text("file:///x", "inside"),
    ];
    let out = extract_content_from_rmcp(&blocks);
    assert!(out.starts_with("a\n{"), "{out}");
    assert!(out.contains("file:///x") && out.contains("inside") && !out.contains("image/png"));
    assert_eq!(extract_content_from_rmcp_sized(&blocks[..1]), ("a".to_string(), 1));
}

#[test]
fn validate_tool_args_noop_on_empty_schema() {
    let tool = tool_of("t", "{}", "s");
    assert!(validate_tool_args(&tool, &j(r#"{"anything": 1}"#)).is_ok());
}

#[test]
fn validate_tool_args_rejects_mismatched_args() {
    let tool = tool_of(
        "t",
        r#"{"type": "object", "properties": {"path": {"type": "string"}}, "required": ["path"]}"#,
        "s",
    );
    assert!(validate_tool_args(&tool, &j("{}")).is_err());
    assert!(validate_tool_args(&tool, &j(r#"{"path": "/tmp"}"#)).is_ok());
}

#[test]
fn validate_tool_args_fails_open_without_panicking_on_an_uncompilable_schema() {
    let tool = tool_of("t", r#"{"type": 123}"#, "s");
    assert!(validate_tool_args(&tool, &j(r#"{"anything": 1}"#)).is_ok());
}

#[test]
fn the_first_fault_is_told_with_its_place() {
    let tool = tool_of(
        "t",
        r#"{"type": "object", "properties": {"n": {"type": "integer"}}, "required": ["n"]}"#,
        "s",
    );
    assert_eq!(
        validate_tool_args(&tool, &j("{}")),
        Err("root -> \"n\" is a required property".to_string())
    );
    assert_eq!(
        validate_tool_args(&tool, &j(r#"{"n": "x"}"#)),
        Err("/n -> \"x\" is not of type \"integer\"".to_string())
    );
}

#[test]
fn each_verdict_has_its_result() {
    assert_eq!(verdict_result(Verdict::Accepted), Ok(()));
    assert_eq!(verdict_result(Verdict::NoSchema), Ok(()));
    assert_eq!(
        verdict_result(Verdict::Refused(String::new(), "why".into())),
        Err("root -> why".to_string())
    );
    assert_eq!(verdict_result(Verdict::Refused("/a".into(), "why".into())), Err("/a -> why".to_string()));
}

#[test]
fn only_rewrites_the_trailing_sse_segment() {
    assert_eq!(sse_url_to_message_url("https://host:1234/sse"), "https://host:1234/message");
}

#[test]
fn only_the_final_sse_occurrence_matters_when_it_is_the_trailing_segment() {
    assert_eq!(
        sse_url_to_message_url("https://sse.example.com/mcp/sse"),
        "https://sse.example.com/mcp/message"
    );
}

#[test]
fn requests_count_up() {
    let mut t = SseTransport::new("http://h/sse");
    assert_eq!(t.message_url, "http://h/message");
    let first = t.request("tools/list", Json::object());
    assert_eq!(
        first.to_value(),
        j(r#"{"jsonrpc":"2.0","id":1,"method":"tools/list","params":{}}"#).to_value()
    );
    let second = t.request("tools/call", call_params("t", &j(r#"{"a":1}"#)));
    assert_eq!(second.get_i64("id"), Some(2));
    assert_eq!(second.get("params").unwrap().get_str("name"), Some("t"));
    assert!(notification("n", Json::object()).get("id").is_none());
    assert_eq!(initialize_params().get_str("protocolVersion"), Some("2024-11-05"));
}

#[test]
fn answers_are_results_or_errors() {
    assert_eq!(read_answer(&j(r#"{"result":{"a":1}}"#)).unwrap(), j(r#"{"a":1}"#));
    assert_eq!(read_answer(&j("{}")).unwrap(), Json::object());
    match read_answer(&j(r#"{"error":{"code":-32601,"message":"no"}}"#)) {
        Err(MCPServerError::Protocol { code, message }) => {
            assert_eq!((code, message.as_str()), (-32601, "no"))
        }
        other => panic!("got {other:?}"),
    }
    match read_answer(&j(r#"{"error":{}}"#)) {
        Err(MCPServerError::Protocol { code, message }) => {
            assert_eq!((code, message.as_str()), (0, "unknown error"))
        }
        other => panic!("got {other:?}"),
    }
    let tools = tools_from_result(
        &j(r#"{"tools":[{"name":"a","description":"d","inputSchema":{"type":"object"}},{}]}"#),
        "srv",
    );
    assert_eq!(tools.len(), 2);
    assert_eq!(tools[0].server_id, "srv");
    assert_eq!(tools[1].name, "");
    assert_eq!(
        call_result(&j(r#"{"isError":true,"content":[{"type":"text","text":"x"}]}"#)),
        (true, "x".to_string(), 1)
    );
    assert_eq!(call_result(&j("{}")), (false, String::new(), 0));
}

fn shuffled() -> MCPManager {
    let mut manager = MCPManager::new();
    manager.connected(
        "srv",
        vec![tool_of("zebra", "{}", "srv"), tool_of("alpha", "{}", "srv"), tool_of("mike", "{}", "srv")],
        None,
    );
    manager
}

fn names(tools: Vec<ToolDefinition>) -> Vec<String> {
    tools.into_iter().map(|t| t.name).collect()
}

#[test]
fn list_tools_is_sorted_and_stable_across_calls() {
    let manager = shuffled();
    let first = names(manager.list_tools(None));
    let second = names(manager.list_tools(None));
    assert_eq!(first, vec!["alpha", "mike", "zebra"]);
    assert_eq!(first, second, "tool order must be identical across repeat calls");
}

#[test]
fn prune_registry_for_drops_only_that_servers_tools() {
    let mut manager = MCPManager::new();
    manager.connected(
        "srv-a",
        vec![tool_of("a_tool", "{}", "srv-a"), tool_of("a2_tool", "{}", "srv-a")],
        None,
    );
    manager.connected("srv-b", vec![tool_of("b_tool", "{}", "srv-b")], None);
    manager.prune_registry_for("srv-a");
    let names = names(manager.list_tools(None));
    assert!(!names.contains(&"a_tool".to_string()));
    assert!(!names.contains(&"a2_tool".to_string()));
    assert!(names.contains(&"b_tool".to_string()));
}

#[test]
fn a_reconnected_server_offers_only_what_it_lists_now() {
    let mut m = shuffled();
    m.connected("srv", vec![tool_of("new", "{}", "srv")], Some(7));
    assert_eq!(names(m.list_tools(None)), vec!["new"]);
    assert_eq!(names(m.list_tools(Some("srv"))), vec!["new"]);
    assert!(m.list_tools(Some("other")).is_empty());
    let plan = m.plan_call("new", &j("{}"), None).unwrap_or_else(|e| panic!("{e:?}"));
    assert_eq!((plan.server_id.as_str(), plan.timeout_secs), ("srv", 7));
    assert_eq!(
        m.plan_call("new", &j("{}"), Some(3)).map(|p| p.timeout_secs).unwrap_or_else(|e| panic!("{e:?}")),
        3
    );
    assert!(m.has_tool("new") && !m.has_tool("zebra"));
    assert!(m.evict("srv"));
    assert!(!m.evict("srv"));
    assert!(!m.is_connected("srv"));
    assert!(m.list_tools(None).is_empty());
}

#[test]
fn a_call_that_cannot_be_made_says_why() {
    let mut m = MCPManager::new();
    match m.plan_call("nope", &j("{}"), None) {
        Err(r) => {
            assert_eq!(r.content, "[Unknown tool: nope]");
            assert!(r.is_error);
            assert!(r.tool_call_id.starts_with("nope_"));
        }
        Ok(_) => panic!("no such tool"),
    }
    m.connected("s", vec![tool_of("t", r#"{"type":"object","required":["a"]}"#, "s")], None);
    match m.plan_call("t", &j("{}"), None) {
        Err(r) => assert!(r.content.starts_with("[Invalid arguments for tool 't': "), "{}", r.content),
        Ok(_) => panic!("a is missing"),
    }
    m.connected("s2", vec![tool_of("u", "{}", "elsewhere")], None);
    match m.plan_call("u", &j("{}"), None) {
        Err(r) => assert_eq!(r.content, "[Server for tool 'u' is not connected]"),
        Ok(_) => panic!("the server is not there"),
    }
}

fn server_row(id: &str, enabled: bool) -> MCPServerRow {
    MCPServerRow {
        id: id.into(),
        name: id.into(),
        transport: "sse".into(),
        command: None,
        args: Some(r#"["a", 1, "b"]"#.into()),
        url: Some("http://h/sse".into()),
        env: Some("not json".into()),
        headers: Some(r#"{"Authorization":"sealed","N":1}"#.into()),
        timeout_s: Some(0),
        status: "disconnected".into(),
        error_message: None,
        enabled: if enabled { 1 } else { 0 },
        created_at: None,
        updated_at: None,
    }
}

#[test]
fn failures_wait_longer_and_longer() {
    for (n, secs) in [(0, 5), (1, 5), (2, 10), (3, 20), (4, 40), (5, 80), (6, 160), (7, 300), (99, 300)] {
        assert_eq!(backoff_secs(n), secs, "{n} failures");
    }
    let mut m = MCPManager::new();
    assert!(m.reconnect_is_due("s", 0));
    assert!(!m.connect_failed("s", 1000));
    assert!(!m.reconnect_is_due("s", 5999));
    assert!(m.reconnect_is_due("s", 6000));
    m.note_reconnect_failure("s", 6000);
    assert!(!m.reconnect_is_due("s", 15_999));
    let rows = vec![server_row("s", true), server_row("off", false), server_row("new", true)];
    assert_eq!(m.servers_to_connect(&rows, 15_999), vec!["new".to_string()]);
    assert_eq!(m.servers_to_connect(&rows, 16_000), vec!["s".to_string(), "new".to_string()]);
    m.connected("s", vec![], None);
    assert_eq!(m.servers_to_connect(&rows, 0), vec!["new".to_string()]);
    assert_eq!(connect_timeout_message(), "connect timed out after 60s");
    assert_eq!(connect_timeout_error(), MCPServerError::Timeout(60));
}

#[test]
fn a_stored_server_is_read() {
    let mut opened: Dict<String> = Dict::new();
    opened.insert("Authorization", "secret".to_string());
    let c = row_to_config(&server_row("s", true), &opened);
    assert_eq!(c.transport, TransportType::Sse);
    assert_eq!(c.args, None);
    assert_eq!(strings_in(Some(&j(r#"["a","b"]"#))), Some(vec!["a".to_string(), "b".to_string()]));
    assert_eq!(c.env, None);
    assert_eq!(c.timeout_s, None);
    let h = c.headers.unwrap();
    assert_eq!(h.get_str("Authorization"), Some("secret"));
    assert_eq!(h.get_u64("N"), Some(1));
    assert_eq!(strings_in(Some(&j("{}"))), None);
    assert_eq!(env_pairs(Some(&j(r#"{"A":"1"}"#))), vec![("A".to_string(), "1".to_string())]);
    assert!(env_pairs(Some(&j(r#"{"A":"1","B":2}"#))).is_empty());
    assert!(env_pairs(None).is_empty());
}

#[test]
fn a_server_without_an_address_cannot_be_dialled() {
    let mut c = MCPServerConfig::new("n", TransportType::Sse);
    match dial(&c) {
        Err(MCPServerError::Generic(m)) => assert_eq!(m, "sse transport requires a url"),
        _ => panic!("there is no address"),
    }
    c.url = Some("http://h/sse".into());
    assert!(matches!(dial(&c), Ok(Dial::Post(u)) if u == "http://h/sse"));
    c.transport = TransportType::StreamableHttp;
    assert!(matches!(dial(&c), Ok(Dial::Http(_))));
    c.transport = TransportType::Stdio;
    assert!(matches!(dial(&c), Err(MCPServerError::Generic(_))));
    c.command = Some("run".into());
    assert!(matches!(dial(&c), Ok(Dial::Process(s)) if s == "run"));
    c.transport = TransportType::InProcess;
    assert!(dial(&c).is_err());
}

#[test]
fn every_failure_of_a_call_is_a_result() {
    let r = call_outcome("t", "id".into(), CallOutcome::Done(false, "caf\u{e9}".into(), 700), 12);
    assert_eq!((r.content.as_str(), r.output_size_bytes, r.duration_ms), ("caf\u{e9}", 700, 12));
    let r = call_outcome("t", "id".into(), CallOutcome::Failed("boom".into()), 1);
    assert_eq!(r.content, "[Tool 't' error: boom]");
    let r = call_outcome("t", "id".into(), CallOutcome::TimedOut(30), 1);
    assert_eq!(r.content, "[Tool 't' timed out after 30s]");
    assert!(r.is_error && !r.truncated);
    let r = error_result("t", "why".into());
    assert!(r.is_error && r.tool_call_id.len() == 10);
    assert_eq!(short_id().len(), 8);
    assert_ne!(new_call_id("t"), new_call_id("t"));
}

#[test]
fn unknown_builtin_name_is_a_clean_error_not_a_panic() {
    let result = builtin_named("no-such-server");
    assert!(result.is_err());
    assert_eq!(
        result,
        Err(MCPServerError::Generic("unknown in-process server: no-such-server".to_string()))
    );
    for name in BUILTIN_SERVERS {
        assert!(builtin_named(name).is_ok(), "{name}");
    }
    assert_eq!(builtin_named("kitty-web"), Ok(Builtin::KittyWeb));
}

#[test]
fn test_mcp_server_new() {
    let cfg = MCPServerConfig::new("test-server", TransportType::Sse);
    assert_eq!(cfg.name, "test-server");
    assert_eq!(cfg.transport, TransportType::Sse);
    assert_ne!(cfg.id, MCPServerConfig::new("test-server", TransportType::Sse).id);
}

#[test]
fn what_is_made_now_says_when() {
    let server = MCPServerConfig::new("n", TransportType::Sse);
    let job = ScheduleJob::new("n", "0 0 * * *", "r");
    let recipe = Recipe::new("n", "t");
    for time in [
        server.created_at,
        server.updated_at,
        job.created_at,
        job.updated_at,
        recipe.created_at,
        recipe.updated_at,
    ] {
        let time = time.unwrap();
        assert!(time.ends_with("+00:00"), "{time}");
        assert!(time.contains('T'), "{time}");
    }
}

#[test]
fn test_transport_type_serde() {
    let parsed = TransportType::parse("streamable_http").unwrap();
    assert_eq!(parsed, TransportType::StreamableHttp);
    assert_eq!(TransportType::parse("carrier-pigeon"), None);
    assert_eq!(TransportType::from_stored("carrier-pigeon"), TransportType::StreamableHttp);
    assert_eq!(parsed.as_str(), "streamable_http");
}

#[test]
fn test_schedule_job_new() {
    let job = ScheduleJob::new("daily", "0 0 * * *", "recipe1");
    assert!(job.enabled);
    assert_eq!(job.cron, "0 0 * * *");
}

#[test]
fn test_recipe_new() {
    let r = Recipe::new("greet", "Hello {{name}}");
    assert_eq!(r.max_steps, 30);
    assert_eq!(r.name, "greet");
    assert!(r.created_at.unwrap().contains('T'));
}

#[test]
fn sorting_keeps_every_tool() {
    let sorted = sort_tools(vec![tool_of("b", "{}", "1"), tool_of("a", "{}", "2"), tool_of("b", "{}", "3")]);
    assert_eq!(names(sorted), vec!["a", "b", "b"]);
}

#[test]
fn tools_with_a_broken_schema_are_not_offered() {
    let listed = vec![
        tool_of("a", r#"{"type": 123}"#, "s"),
        tool_of("b", "{}", "s"),
        tool_of("c", r#"{"type": "object"}"#, "s"),
        tool_of("d", "null", "s"),
    ];
    assert_eq!(names(registrable_tools(&listed)), vec!["b", "c", "d"]);
}

#[test]
fn a_connection_goes_by_its_server() {
    let mut c = MCPServerConfig::new("n", TransportType::Sse);
    assert_eq!(connection_id(&c), c.id);
    c.id = String::new();
    assert_eq!(connection_id(&c).len(), 8);
    assert_eq!(shuffled().connected_servers(), vec!["srv".to_string()]);
}

#[test]
fn headers_that_are_none_are_left_out() {
    let headers = j(r#"{"Authorization":"Bearer x","bad name":"v","X-Line":"a\nb","N":1}"#);
    let valid = valid_headers(Some(&headers));
    assert_eq!(valid.len(), 1);
    assert_eq!(valid.get("Authorization").map(|s| s.as_str()), Some("Bearer x"));
    assert!(valid_headers(None).is_empty());
}

#[test]
fn what_is_left_out_of_the_output_is_noticed() {
    let mut join = CappedJoin::new();
    join.push(&"é".repeat(51_201));
    let (text, seen) = join.finish();
    assert_eq!(seen, 102_402);
    assert!(text.len() > MAX_TOOL_OUTPUT_BYTES);
    let (shown, cut) = truncate_output(&text);
    assert!(cut);
    assert!(shown.ends_with(TRUNCATION_MESSAGE));

    let mut join = CappedJoin::new();
    join.push(&"a".repeat(MAX_TOOL_OUTPUT_BYTES - 1));
    join.push("日本");
    join.push("more");
    let (text, seen) = join.finish();
    assert_eq!(seen, MAX_TOOL_OUTPUT_BYTES + 9);
    assert!(truncate_output(&text).1);
}

#[test]
fn headers_are_checked_by_their_characters() {
    let all = j(r#"{"A-1!":"x\ty","":"x","a b":"x","ä":"x","Ok":"é","No":"a\u007fb","Nl":"a\nb"}"#);
    let valid = valid_headers(Some(&all));
    assert_eq!(valid.len(), 2);
    assert!(valid.contains_key("A-1!") && valid.contains_key("Ok"));
    let long = Json::object().with(&"a".repeat(65536), Json::string("x"));
    assert!(valid_headers(Some(&long)).is_empty());
}
