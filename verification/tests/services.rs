use bigtiny::dict::Dict;
use bigtiny::error::{RecipeError, SchedulerError};
use bigtiny::json::Json;
use bigtiny::local::backend::SelectedBackend;
use bigtiny::local::manager::SlotStatus;
use bigtiny::network::{
    direct_answer_counts, direct_url, is_candidate, is_tailscale_ip, parse_peers, pick_direct_address, tunnel_host,
    Address, ResolveStep, TailscaleClient, MAX_URL_CHARS,
};
use bigtiny::config::ProviderConfig;
use bigtiny::provider::base::HealthStatus;
use bigtiny::provider::router::ProviderRouter;
use bigtiny::pyrepr::{parse, try_parse};
use bigtiny::recipes::{
    is_recipe_extension, no_such_recipe, prepare_run, read_recipe, render_template, try_render, RecipeRow,
    UNTAMED,
};
use bigtiny::templates::{tame, template_code, Token, MAX_BRANCHES, MAX_CODE, MAX_TAG};
use bigtiny::routes::chat::{
    add_paths, approval_refusal, compaction_plan, compaction_reply, deleted_reply, fork_cutoff, fork_kept,
    merge_metadata, patch_refusal, session_provider, session_reply, stats_status,
    CompactionResult, CreateSessionRequest, ForkAction, ForkCopy, ForkEvent, ForkRun, ListQuery,
    MessageRow,
};
use bigtiny::routes::mcp::{
    create_server, encrypt_headers, normalize_headers, normalize_json_field, reconnect_after,
    redact_headers, texts_in, update_server, updated_reply, MCPServerRow, Reconnect,
};
use bigtiny::routes::memory::{injection_rate_pct, memory_stats};
use bigtiny::routes::pathway::{
    beliefs_reply, disabled_reply, forgotten_reply, pathway_stats, paused_reply, wants_pause, Belief,
};
use bigtiny::routes::providers::{
    create_provider, created_reply, key_to_seal, merge_config, probed_health, tested_reply,
    to_public_json, update_provider, ProviderRow, Stored,
};
use bigtiny::routes::recipes::create_recipe;
use bigtiny::routes::reply::{err_response, missing, ok_response, written};
use bigtiny::routes::schedules::{create_schedule, scheduler_status, update_schedule};
use bigtiny::routes::status::{
    backend_to_json, embeddings_reply, health_reply, health_summary, models_status,
    provider_status, slot_to_json, status,
};
use bigtiny::scheduler::{
    AddAction, AddEnd, AddEvent, AddRun, collision, enabled_jobs, run_session_id, run_session_name, to_seconds_cron, EditAction,
    EditEnd, EditEvent, EditRun, InFlight, JobAction, JobEvent, JobRun, LiveJobs, ScheduleRow, Swap,
};
use bigtiny::server::events::{event_json, serialize_sse, SSEEvent, SSEEventType};
use bigtiny::server::middleware::{authorized, constant_time_eq, unauthorized, AuthConfig};

fn j(text: &str) -> Json {
    Json::parse(text).unwrap()
}

fn same(a: &Json, b: &str) {
    assert_eq!(a.to_value(), j(b).to_value());
}

/// A stand-in for the vault: the sealed form is the text in hexadecimal, marked.
fn seal(plain: &str) -> String {
    let hex: String = plain.bytes().map(|b| format!("{b:02x}")).collect();
    format!("enc:v1:{hex}")
}

fn open(sealed: &str) -> String {
    let hex = sealed.strip_prefix("enc:v1:").expect("a sealed text");
    let bytes = (0..hex.len() / 2)
        .map(|i| u8::from_str_radix(&hex[2 * i..2 * i + 2], 16).unwrap())
        .collect();
    String::from_utf8(bytes).unwrap()
}

fn seal_all(plain: &Dict<String>) -> Dict<String> {
    let mut sealed = Dict::new();
    for i in 0..plain.len() {
        let (name, text) = plain.entry(i);
        sealed.insert(name, seal(text));
    }
    sealed
}

fn v4(text: &str) -> Address {
    Address { is_ipv4: true, text: text.into() }
}

fn v6(text: &str) -> Address {
    Address { is_ipv4: false, text: text.into() }
}

#[test]
fn is_tailscale_ip_true_only_inside_the_cgnat_range() {
    assert!(is_tailscale_ip("100.64.0.1"));
    assert!(is_tailscale_ip("100.100.100.100"));
    assert!(is_tailscale_ip("100.127.255.255"));
    assert!(!is_tailscale_ip("100.63.255.255"));
    assert!(!is_tailscale_ip("100.128.0.0"));
    assert!(!is_tailscale_ip("192.168.1.50"));
    assert!(!is_tailscale_ip("8.8.8.8"));
    assert!(!is_tailscale_ip("myhost.example.com"));
    assert!(!is_tailscale_ip("100.64.0"));
    assert!(!is_tailscale_ip("100.64.0.256"));
    assert!(!is_tailscale_ip("100.64.0.01"));
}

#[test]
fn parse_peers_indexes_by_every_tailscale_ip_and_trims_trailing_dot() {
    let data = j(
        r#"{"Peer": {"nodekey:abc": {"DNSName": "llm-box.tailnet-1234.ts.net.", "TailscaleIPs": ["100.64.1.2", "fd7a:115c:a1e0::1"]}}}"#,
    );
    let peers = parse_peers(&data);
    assert_eq!(peers.len(), 2, "indexed under both addresses");
    let by_v4 = peers.get("100.64.1.2").expect("v4 key present");
    assert_eq!(by_v4.name, "llm-box.tailnet-1234.ts.net");
    assert_eq!(by_v4.tailscale_ip, "100.64.1.2");
    assert_eq!(by_v4.direct_ips, vec!["100.64.1.2", "fd7a:115c:a1e0::1"]);
    let by_v6 = peers.get("fd7a:115c:a1e0::1").expect("v6 key present");
    assert_eq!(by_v6.name, by_v4.name);
}

#[test]
fn parse_peers_skips_entries_with_no_name_or_no_addresses() {
    let data = j(
        r#"{"Peer": {"no-name": { "TailscaleIPs": ["100.64.1.2"] }, "no-addrs": { "DNSName": "empty-box.ts.net." }, "empty-name": { "DNSName": "", "TailscaleIPs": ["100.64.1.3"] }, "empty-addrs": { "DNSName": "no-ip.ts.net.", "TailscaleIPs": [] }}}"#,
    );
    let peers = parse_peers(&data);
    assert!(peers.is_empty());
}

#[test]
fn parse_peers_on_missing_or_malformed_peer_map_returns_empty() {
    assert!(parse_peers(&j("{}")).is_empty());
    assert!(parse_peers(&j(r#"{ "Peer": "not an object" }"#)).is_empty());
}

/// The direct form of an address, where everything that is needed is known.
fn maybe_direct_url(ts: &mut TailscaleClient, url: &str) -> Option<String> {
    let host = tunnel_host(url)?;
    match ts.resolve_step(&host, 0) {
        ResolveStep::Known(ip) => direct_url(url, ip.as_deref()),
        step => panic!("more is needed: {step:?}"),
    }
}

#[test]
fn maybe_direct_url_is_none_for_loopback_hosts() {
    let mut ts = TailscaleClient::new();
    assert_eq!(maybe_direct_url(&mut ts, "http://localhost:8080/v1"), None);
    assert_eq!(maybe_direct_url(&mut ts, "http://127.0.0.1:8080/v1"), None);
    assert_eq!(maybe_direct_url(&mut ts, "http://[::1]:8080/v1"), None);
    assert_eq!(maybe_direct_url(&mut ts, "not an address"), None);
}

#[test]
fn maybe_direct_url_is_none_for_a_non_tailscale_host() {
    let mut ts = TailscaleClient::new();
    ts.found_direct("192.168.1.50", Some("192.168.1.50".to_string()), 0);
    assert_eq!(maybe_direct_url(&mut ts, "http://192.168.1.50:8080/v1"), None);
    assert!(!is_candidate("192.168.1.50"));
}

#[test]
fn maybe_direct_url_is_none_when_no_direct_address_is_known() {
    let mut ts = TailscaleClient::new();
    ts.found_direct("100.64.1.2", None, 0);
    assert_eq!(maybe_direct_url(&mut ts, "http://100.64.1.2:8080/v1"), None);
}

#[test]
fn maybe_direct_url_rewrites_the_host_to_the_resolved_direct_address() {
    let mut ts = TailscaleClient::new();
    ts.found_direct("100.64.1.2", Some("192.168.1.50".to_string()), 0);
    let rewritten = maybe_direct_url(&mut ts, "http://100.64.1.2:8080/v1/chat/completions")
        .expect("a direct address was seeded");
    assert_eq!(rewritten, "http://192.168.1.50:8080/v1/chat/completions");
}

#[test]
fn addresses_too_long_for_a_url_go_through_the_tunnel() {
    let host = "http://100.64.1.2/";
    let ip = Some("192.168.1.50");
    assert_eq!(direct_url("http://100.64.1.2/a", ip).as_deref(), Some("http://192.168.1.50/a"));
    let longest = host.to_string() + &"a".repeat(MAX_URL_CHARS - host.len());
    assert_eq!(direct_url(&longest, ip).unwrap().len(), MAX_URL_CHARS + 2);
    let longer = longest + "a";
    assert_eq!(direct_url(&longer, ip), None);
    assert_eq!(direct_url(host, Some(longer.as_str())), None);
    assert_eq!(direct_url(host, None), None);
}

#[test]
fn pick_direct_address_prefers_ipv4_over_an_earlier_ipv6_result() {
    assert_eq!(
        pick_direct_address(&vec![v6("::1"), v4("192.168.1.50")]).as_deref(),
        Some("192.168.1.50")
    );
}

#[test]
fn pick_direct_address_skips_tailscale_cgnat_addresses() {
    assert_eq!(
        pick_direct_address(&vec![v4("100.64.5.5"), v4("10.0.0.9")]).as_deref(),
        Some("10.0.0.9")
    );
}

#[test]
fn pick_direct_address_falls_back_to_ipv6_when_no_ipv4_exists() {
    assert_eq!(pick_direct_address(&vec![v6("::1")]).as_deref(), Some("::1"));
    assert_eq!(pick_direct_address(&vec![]), None);
}

#[test]
fn stale_resolved_cache_entries_are_re_resolved() {
    let mut ts = TailscaleClient::new();
    ts.found_direct("100.64.1.2", Some("10.0.0.9".into()), 0);
    assert_eq!(
        ts.resolve_step("100.64.1.2", 1_000_000),
        ResolveStep::NeedPeers,
        "a stale resolved address must not be trusted past its TTL"
    );
    ts.peers_read(Dict::new(), 1_000_000);
    assert_eq!(ts.resolve_step("100.64.1.2", 1_000_000), ResolveStep::Known(None));
}

#[test]
fn fresh_resolved_cache_entries_short_circuit() {
    let mut ts = TailscaleClient::new();
    ts.found_direct("100.64.1.2", Some("192.168.1.50".into()), 0);
    assert_eq!(
        ts.resolve_step("100.64.1.2", 0),
        ResolveStep::Known(Some("192.168.1.50".to_string()))
    );
}

#[test]
fn a_listed_peer_is_looked_up_by_its_name() {
    let mut ts = TailscaleClient::new();
    assert!(ts.warn_if_first());
    assert!(!ts.warn_if_first());
    let peers =
        parse_peers(&j(r#"{"Peer":{"k":{"DNSName":"box.ts.net.","TailscaleIPs":["100.64.1.2"]}}}"#));
    ts.peers_read(peers, 10);
    assert_eq!(
        ts.resolve_step("100.64.1.2", 10),
        ResolveStep::NeedLookup("box.ts.net".to_string())
    );
}

#[test]
fn parses_real_format_result_shape_with_apostrophe() {
    let input = "{'hints': [{'text': \"don't do this\", 'confidence': 0.8, 'type': 'single', 'primitive': 'write', 'domain': 'dev', 'attribution_id': 'a1', 'edge_id': 'e1'}, {'text': 'use edit', 'confidence': 0.5, 'type': 'single'}], 'confidence': 0.6, 'novelty': 0.1, 'is_flow_state': false}";
    let v = parse(input).unwrap();
    let hints = v.get_array("hints").unwrap();
    assert_eq!(hints.len(), 2);
    assert_eq!(hints[0].get_str("text"), Some("don't do this"));
    assert_eq!(hints[1].get_str("text"), Some("use edit"));
    assert_eq!(v.get("confidence").unwrap().to_value(), 0.6);
    assert_eq!(v.get_bool("is_flow_state"), Some(false));
}

#[test]
fn parses_booleans_and_none() {
    assert_eq!(parse("True").unwrap(), Json::Bool(true));
    assert_eq!(parse("False").unwrap(), Json::Bool(false));
    assert_eq!(parse("None").unwrap(), Json::Null);
}

#[test]
fn parses_empty_containers_and_numbers() {
    assert_eq!(parse("[]").unwrap(), j("[]"));
    assert_eq!(parse("{}").unwrap(), j("{}"));
    assert_eq!(parse("-1.0").unwrap().to_value(), -1.0);
    assert_eq!(parse("3").unwrap().to_value(), 3.0);
}

#[test]
fn rejects_malformed_input() {
    assert!(parse("").is_err());
    assert!(parse("[1, 2").is_err());
    assert!(parse("{'a': }").is_err());
    assert!(parse("'unterminated").is_err());
    assert!(try_parse("not python").is_none());
}

#[test]
fn literals_nest_and_escape() {
    same(
        &parse(" { 'a' : [ 'x\\n\\'y' , \"z\" , ] , 'b' : {} } ").unwrap(),
        r#"{"a":["x\n'y","z"],"b":{}}"#,
    );
    assert!(parse("1 2").is_err());
    assert!(try_parse("[True]").is_some());
}

#[test]
fn render_template_substitutes_variables() {
    let params = j(r#"{"name": "world"}"#);
    let out = render_template("Hello {{ name }}!", &params).unwrap();
    assert_eq!(out, "Hello world!");
}

#[test]
fn render_template_supports_control_flow() {
    let params = j(r#"{"items": ["a", "b"]}"#);
    let out = render_template("{% for i in items %}{{ i }}{% endfor %}", &params).unwrap();
    assert_eq!(out, "ab");
}

fn recipe() -> RecipeRow {
    RecipeRow {
        id: "r".into(),
        name: "greet".into(),
        prompt_template: "Hi {{ who }}".into(),
        instructions: Some("Be kind to {{ who }}".into()),
        system_prompt_layer: Some("poet".into()),
        required_mcp_servers: Some(r#"["files"]"#.into()),
        ..read_recipe("name: x", "x").unwrap().unwrap()
    }
}

#[test]
fn a_run_is_prepared_from_its_recipe() {
    let params = j(r#"{"who":"Ann"}"#);
    let run = prepare_run(&recipe(), "r", &params).unwrap_or_else(|e| panic!("{e:?}"));
    assert_eq!(run.prompt, "Hi Ann");
    same(
        &run.metadata,
        r#"{"recipe_id":"r","parameters":{"who":"Ann"},"recipe_name":"greet","persona_override":"Be kind to Ann\nYou are a poet."}"#,
    );
    assert_eq!(run.required_servers, vec!["files".to_string()]);
    let plain = RecipeRow {
        instructions: Some(String::new()),
        system_prompt_layer: None,
        required_mcp_servers: None,
        ..recipe()
    };
    let run = prepare_run(&plain, "r", &params).unwrap_or_else(|e| panic!("{e:?}"));
    assert!(run.metadata.get("persona_override").is_none());
    assert!(run.required_servers.is_empty());
    let broken = RecipeRow { prompt_template: "{% if %}".into(), ..recipe() };
    assert!(matches!(prepare_run(&broken, "r", &params), Err(RecipeError::Template(_))));
    assert!(matches!(no_such_recipe("r"), RecipeError::NotFound(m) if m == "r"));
}

#[test]
fn a_recipe_is_read_from_yaml() {
    let row = read_recipe("name: daily\nprompt_template: go\nmax_steps: 3\n", "file").unwrap().unwrap();
    assert_eq!((row.name.as_str(), row.prompt_template.as_str()), ("daily", "go"));
    let row = read_recipe("prompt_template: go\n", "file").unwrap().unwrap();
    assert_eq!(row.name, "file");
    assert!(read_recipe("- a\n- b\n", "file").unwrap().is_none());
    assert!(read_recipe("a: [", "file").is_err());
    assert!(is_recipe_extension(Some("yml")) && is_recipe_extension(Some("yaml")));
    assert!(!is_recipe_extension(Some("json")) && !is_recipe_extension(None));
}

#[test]
fn five_fields_get_a_sixth() {
    assert_eq!(to_seconds_cron("0 0 * * *"), "0 0 0 * * *");
    assert_eq!(to_seconds_cron("*/5  * * * *"), "0 */5  * * * *");
    assert_eq!(to_seconds_cron("1 0 0 * * *"), "1 0 0 * * *");
    assert_eq!(to_seconds_cron(""), "");
}

fn schedule(enabled: i32) -> ScheduleRow {
    ScheduleRow {
        id: "s".into(),
        name: "n".into(),
        cron: "0 0 * * *".into(),
        recipe_id: "r".into(),
        parameters: Some(r#"{"a":1}"#.into()),
        enabled,
    }
}

#[test]
fn a_job_does_not_run_twice_at_once() {
    let mut jobs = InFlight::new();
    assert!(jobs.claim("a"));
    assert!(!jobs.claim("a"));
    assert!(jobs.claim("b"));
    jobs.release("a");
    assert!(jobs.claim("a"));
}

#[test]
fn a_run_drops_its_session_unless_its_record_points_to_it() {
    let mut run = JobRun::new();
    assert!(matches!(run.next(JobEvent::Read(Some(schedule(1)))), JobAction::MakeSession));
    assert!(matches!(run.next(JobEvent::SessionMade(true)), JobAction::Record));
    match run.next(JobEvent::Recorded(true)) {
        JobAction::Run { recipe_id, parameters } => {
            assert_eq!(recipe_id, "r");
            assert_eq!(parameters.get_u64("a"), Some(1));
        }
        _ => panic!("the recipe is run"),
    }
    assert!(matches!(run.next(JobEvent::Ran("id".into())), JobAction::NoteSuccess(s) if s == "id"));
    assert!(matches!(run.next(JobEvent::SuccessNoted(false)), JobAction::DropSession));
    assert!(matches!(run.next(JobEvent::Dropped), JobAction::Stop));
    assert!(matches!(run.next(JobEvent::RunFailed("e".into())), JobAction::NoteFailure(s) if s == "e"));
    assert!(matches!(run.next(JobEvent::FailureNoted(true)), JobAction::DropSession));
    assert!(matches!(run.next(JobEvent::FailureNoted(false)), JobAction::Stop));
    assert!(matches!(run.next(JobEvent::Recorded(false)), JobAction::DropSession));
    assert!(matches!(run.next(JobEvent::SessionMade(false)), JobAction::Stop));
    assert!(matches!(run.next(JobEvent::Read(Some(schedule(0)))), JobAction::Stop));
    assert!(matches!(run.next(JobEvent::Read(None)), JobAction::Stop));
    assert_eq!(run_session_id("x"), "_job_x");
    assert_eq!(run_session_name("x"), "scheduled:x");
}

#[test]
fn an_old_entry_is_retired_only_for_a_new_one() {
    let mut live = LiveJobs::new();
    assert_eq!(live.swap("a", None), Swap::Kept);
    assert_eq!(live.swap("a", Some(1)), Swap::Fresh);
    assert_eq!(live.swap("a", None), Swap::Kept);
    assert_eq!(live.swap("a", Some(2)), Swap::Retire(1));
    assert_eq!(live.unregister("a"), Some(2));
    assert_eq!(live.unregister("a"), None);
    assert_eq!(enabled_jobs(vec![schedule(0), schedule(1)]).len(), 1);
    assert!(matches!(collision("x"), SchedulerError::Cron(m) if m == "schedule id collision, retry: x"));
}

#[test]
fn an_edit_is_stored_last_and_taken_back_where_it_is_not() {
    let mut edit = EditRun::new(Some("1 1 * * *".into()), None);
    match edit.next(EditEvent::Read(Some(schedule(1)))) {
        EditAction::Register(cron) => assert_eq!(cron, "1 1 * * *"),
        _ => panic!("the new times are tried first"),
    }
    assert!(matches!(edit.next(EditEvent::Registered(true)), EditAction::Store));
    match edit.next(EditEvent::Stored(false)) {
        EditAction::Restore(cron) => assert_eq!(cron.as_deref(), Some("0 0 * * *")),
        _ => panic!("the clockwork goes back"),
    }
    assert!(matches!(
        edit.next(EditEvent::Restored(true)),
        EditAction::Finish(EditEnd::NotStored)
    ));
    assert!(matches!(edit.next(EditEvent::Stored(true)), EditAction::Finish(EditEnd::Done)));
    assert!(matches!(
        edit.next(EditEvent::Registered(false)),
        EditAction::Finish(EditEnd::NotRegistered)
    ));

    // A schedule that was off is not turned on by an edit that is not stored.
    let mut edit = EditRun::new(None, Some(true));
    match edit.next(EditEvent::Read(Some(schedule(0)))) {
        EditAction::Register(cron) => assert_eq!(cron, "0 0 * * *"),
        _ => panic!("the times are tried first"),
    }
    assert!(matches!(edit.next(EditEvent::Stored(false)), EditAction::Restore(None)));

    let mut edit = EditRun::new(None, Some(false));
    assert!(matches!(edit.next(EditEvent::Read(Some(schedule(1)))), EditAction::Unregister));
    assert!(matches!(edit.next(EditEvent::Unregistered), EditAction::Store));
    assert!(matches!(
        edit.next(EditEvent::Read(None)),
        EditAction::Finish(EditEnd::NotFound)
    ));
}

#[test]
fn encrypt_headers_unwraps_double_encoded_string() {
    let double_encoded = Json::string(r#"{"Authorization":"Bearer secret"}"#);
    let sealed = seal_all(&texts_in(&normalize_headers(&double_encoded)));
    let stored = encrypt_headers(&double_encoded, &sealed);
    let parsed = Json::parse(&stored)
        .expect("stored headers must be a parseable JSON object, not a re-stringified string");
    assert!(parsed.is_object(), "stored headers must decode to an object");
    let encrypted_auth =
        parsed.get_str("Authorization").expect("Authorization header must survive normalization");
    assert_ne!(encrypted_auth, "Bearer secret");
    assert_eq!(open(encrypted_auth), "Bearer secret");
}

#[test]
fn encrypt_headers_still_handles_plain_object() {
    let plain = j(r#"{"X-Api-Key": "abc123"}"#);
    let sealed = seal_all(&texts_in(&normalize_headers(&plain)));
    let stored = encrypt_headers(&plain, &sealed);
    let parsed = Json::parse(&stored).unwrap();
    assert_eq!(open(parsed.get_str("X-Api-Key").unwrap()), "abc123");
}

fn server() -> MCPServerRow {
    MCPServerRow {
        id: "s".into(),
        name: "n".into(),
        transport: "stdio".into(),
        command: Some("run".into()),
        args: None,
        url: None,
        env: None,
        headers: Some(r#"{"A":"enc","N":1}"#.into()),
        enabled: 0,
        timeout_s: None,
        status: "disconnected".into(),
        error_message: None,
        created_at: None,
        updated_at: None,
    }
}

#[test]
fn headers_are_masked_when_shown() {
    let shown = redact_headers(&server());
    assert!(!shown.print().contains("enc"));
    let reply = updated_reply(Ok(Some(server())));
    assert_eq!(reply.status, 200);
    assert_eq!(updated_reply(Ok(None)).status, 404);
    assert_eq!(updated_reply(Err("e".into())).status, 500);
}

#[test]
fn servers_are_created_and_changed() {
    let none: Dict<String> = Dict::new();
    let s = create_server(&j(r#"{"name":"n","transport":"sse","args":"[\"a\"]","enabled":"x"}"#), &none)
        .unwrap_or_else(|e| panic!("{e:?}"));
    assert_eq!(s.args.as_deref(), Some(r#"["a"]"#));
    assert!(s.enabled);
    assert_eq!(create_server(&j("{}"), &none).unwrap_err(), err_response(400, "name and transport are required"));
    let p = update_server(&j(r#"{"enabled":false,"env":{"A":"1"}}"#), &none);
    assert_eq!((p.enabled, p.env.as_deref()), (Some(0), Some(r#"{"A":"1"}"#)));
    assert!(p.patches_connection());
    assert!(!update_server(&j(r#"{"name":"m"}"#), &none).patches_connection());
    assert_eq!(reconnect_after(&j(r#"{"name":"m"}"#), &server()), Reconnect::Leave);
    assert_eq!(reconnect_after(&j(r#"{"url":"u"}"#), &server()), Reconnect::Close);
    let on = MCPServerRow { enabled: 1, ..server() };
    assert_eq!(reconnect_after(&j(r#"{"url":"u"}"#), &on), Reconnect::Renew);
    assert_eq!(normalize_json_field(&Json::string("3")), "\"3\"");
    assert_eq!(normalize_json_field(&j("[1]")), "[1]");
}

#[test]
fn rate_is_zero_when_denominator_empty() {
    assert_eq!(injection_rate_pct(0, 0), "0.0");
}

#[test]
fn rate_truncates_to_one_decimal() {
    assert_eq!(injection_rate_pct(100, 50), "50.0");
    assert_eq!(injection_rate_pct(3, 1), "33.3");
    assert_eq!(injection_rate_pct(300, 1), "0.3");
    assert_eq!(injection_rate_pct(3, 2), "66.6");
    same(&memory_stats(3, 1), r#"{"total_prompts":3,"injected_prompts":1,"injection_rate_pct":33.3}"#);
}

#[test]
fn merge_config_omitted_api_key_leaves_existing_key_untouched() {
    let existing = r#"{"api_key": "sk-old", "model": "gpt-4o"}"#;
    let body = j(r#"{"fallback_priority": 1}"#);
    let merged = j(&merge_config(Some(existing), &body, None));
    assert_eq!(merged.get_str("api_key"), Some("sk-old"));
}

#[test]
fn merge_config_string_api_key_is_encrypted_not_stored_as_plaintext() {
    let existing = r#"{"api_key": "sk-old"}"#;
    let body = j(r#"{"api_key": "sk-new"}"#);
    assert_eq!(key_to_seal(&body).as_deref(), Some("sk-new"));
    let sealed = key_to_seal(&body).map(|key| seal(&key));
    let merged = j(&merge_config(Some(existing), &body, sealed.as_deref()));
    let stored = merged.get_str("api_key").unwrap();
    assert_ne!(stored, "sk-new");
    assert!(stored.starts_with("enc:v1:"));
}

#[test]
fn merge_config_string_api_key_round_trips_through_decrypt() {
    let body = j(r#"{"api_key": "sk-new"}"#);
    let sealed = key_to_seal(&body).map(|key| seal(&key));
    let merged = j(&merge_config(None, &body, sealed.as_deref()));
    let stored = merged.get_str("api_key").unwrap();
    assert_eq!(open(stored), "sk-new");
}

#[test]
fn merge_config_explicit_null_api_key_clears_existing_key() {
    let existing = r#"{"api_key": "sk-old", "model": "gpt-4o"}"#;
    let body = j(r#"{"api_key": null}"#);
    let merged = j(&merge_config(Some(existing), &body, None));
    assert!(merged.get("api_key").is_none());
    assert_eq!(merged.get_str("model"), Some("gpt-4o"));
}

fn provider_row(config: &str) -> ProviderRow {
    ProviderRow {
        id: "p1".into(),
        name: "legacy".into(),
        provider_type: "openai_compat".into(),
        base_url: "http://127.0.0.1:1".into(),
        fallback_priority: 1,
        config: Some(config.into()),
        status: "disconnected".into(),
        error_message: None,
        created_at: None,
        updated_at: None,
    }
}

#[test]
fn to_public_json_substitutes_an_empty_object_for_an_unparseable_config() {
    let public = to_public_json(&provider_row("sk-plaintext-not-json"));
    assert_eq!(public.get_str("config"), Some("{}"));
    assert_eq!(public.get_bool("has_api_key"), Some(false));
    assert!(!public.print().contains("sk-plaintext-not-json"));
    let public = to_public_json(&provider_row(r#"{"api_key":"enc:v1:k","model":"m"}"#));
    assert_eq!(public.get_bool("has_api_key"), Some(true));
    assert!(!public.print().contains("enc:v1:k"));
}

#[test]
fn providers_are_created_changed_and_tested() {
    let body = j(r#"{"name":"n","provider_type":"anthropic","base_url":"u","id":"","config":{"model":"m"}}"#);
    let p = create_provider(&body, None).unwrap_or_else(|e| panic!("{e:?}"));
    assert_eq!((p.id, p.config.as_str()), (None, r#"{"model":"m"}"#));
    assert_eq!(create_provider(&j("{}"), None).unwrap_err().status, 400);
    let u = update_provider(&provider_row("{}"), &j(r#"{"fallback_priority":7}"#), None);
    assert_eq!((u.name, u.fallback_priority), (None, Some(7)));
    assert_eq!(created_reply(&Stored::Taken, "x"), err_response(409, "provider id already exists: x"));
    assert_eq!(created_reply(&Stored::Vanished, "x").status, 500);
    assert_eq!(created_reply(&Stored::Failed("e".into()), "x").status, 500);
    same(&created_reply(&Stored::Reloaded(provider_row("{}")), "x").body, r#"{"id":"p1"}"#);
    assert_eq!(probed_health(Ok(204), "1.5").status, "healthy");
    assert_eq!(probed_health(Ok(500), "1.5").error.as_deref(), Some("HTTP 500"));
    assert_eq!(probed_health(Err("down".into()), "1.5").latency_ms, None);
    assert_eq!(tested_reply(Ok(probed_health(Ok(200), "1.5"))).status, 200);
    assert_eq!(tested_reply(Ok(probed_health(Ok(500), "1.5"))).status, 502);
    assert_eq!(tested_reply(Err("no such provider".into())).status, 404);
}

#[test]
fn test_sse_event_content() {
    let e = SSEEvent::content("hello");
    assert_eq!(e.event_type, SSEEventType::LlmDelta);
    assert_eq!(e.content, Some("hello".into()));
}

#[test]
fn test_serialize_sse_format() {
    let e = SSEEvent::content("hi");
    let s = serialize_sse(&e);
    assert!(s.starts_with("data: "));
    assert!(s.ends_with("\n\n"));
    assert_eq!(s, "data: {\"type\":\"llm_delta\",\"content\":\"hi\"}\n\n");
}

#[test]
fn test_sse_event_stop() {
    let e = SSEEvent::stop("done", None);
    assert_eq!(e.event_type, SSEEventType::LlmStop);
    assert!(e.is_last);
}

#[test]
fn an_event_tells_only_what_it_has() {
    let e = SSEEvent {
        recoverable: false,
        ttfb_ms: Some("1.5".into()),
        total_tokens: Some(3),
        ..SSEEvent::reasoning("r")
    };
    same(
        &event_json(&e),
        r#"{"type":"reasoning_delta","content":"r","recoverable":false,"ttfb_ms":1.5,"total_tokens":3}"#,
    );
}

fn auth(secret: Option<&str>, required: bool) -> AuthConfig {
    AuthConfig { secret: secret.map(String::from), required }
}

#[test]
fn health_stays_open_even_with_secret_configured() {
    assert!(authorized(&auth(Some("s3cret"), false), "/api/health", None));
}

#[test]
fn protected_route_rejects_missing_key() {
    assert!(!authorized(&auth(Some("s3cret"), false), "/api/chat/", None));
    let reply = unauthorized();
    assert_eq!(reply.status, 401);
    assert_eq!(reply.body.get_str("error"), Some("Unauthorized"));
    assert_eq!(reply.body.get_str("detail"), Some("Missing or invalid X-API-Key"));
}

#[test]
fn protected_route_rejects_wrong_key() {
    assert!(!authorized(&auth(Some("s3cret"), false), "/api/chat/", Some("wrong")));
}

#[test]
fn protected_route_allows_correct_key() {
    assert!(authorized(&auth(Some("s3cret"), false), "/api/chat/", Some("s3cret")));
}

#[test]
fn no_secret_configured_is_a_noop() {
    assert!(authorized(&auth(None, false), "/api/chat/", None));
}

#[test]
fn required_with_no_secret_fails_closed_on_protected_routes() {
    assert!(!authorized(&auth(None, true), "/api/chat/", None));
}

#[test]
fn required_with_no_secret_still_leaves_health_open() {
    assert!(authorized(&auth(None, true), "/api/health", None));
}

#[test]
fn required_with_secret_behaves_like_non_required() {
    assert!(authorized(&auth(Some("s3cret"), true), "/api/chat/", Some("s3cret")));
}

#[test]
fn keys_of_different_lengths_differ() {
    assert!(constant_time_eq(b"abc", b"abc"));
    assert!(!constant_time_eq(b"abc", b"abcd"));
    assert!(!constant_time_eq(b"abc\0", b"abc"));
    assert!(constant_time_eq(b"", b""));
}

fn message(rowid: i64, id: &str) -> MessageRow {
    MessageRow {
        rowid,
        id: id.into(),
        role: "user".into(),
        content: None,
        tool_calls: None,
        tool_call_id: None,
        token_count: None,
        content_format: None,
    }
}

#[test]
fn a_fork_ends_at_its_message() {
    let rows = || vec![message(1, "a"), message(2, "b"), message(3, "c")];
    assert_eq!(fork_cutoff(&rows(), Some("b")).unwrap_or_else(|e| panic!("{e:?}")), Some(2));
    assert!(fork_cutoff(&rows(), Some("zzz")).is_err());
    assert_eq!(fork_kept(rows(), Some(2)).len(), 2);
    assert_eq!(fork_kept(rows(), None).len(), 3);
    let mut copy = ForkCopy::new(2);
    copy.inserted(1, 10);
    assert_eq!(copy.carried(Some("s".into())), None);
    copy.inserted(2, 11);
    assert_eq!(copy.carried(None), None);
    assert_eq!(copy.carried(Some("s".into())), Some(("s".to_string(), 11)));
}

#[test]
fn attached_paths_add_up() {
    let meta = j(r#"{"attached_paths":["a"],"k":1}"#);
    let patch = j(r#"{"attached_paths":["b","a"],"x":2}"#);
    assert!(patch_refusal(&patch).is_none());
    same(&merge_metadata(meta, &patch), r#"{"attached_paths":["a","b"],"k":1,"x":2}"#);
    assert_eq!(patch_refusal(&j("[]")).unwrap().status, 400);
    assert_eq!(add_paths(vec![], &vec![j("\"a\""), j("\"a\"")]).len(), 1);
}

#[test]
fn sessions_are_named_listed_and_deleted() {
    let req = CreateSessionRequest {
        cwd: Some("/w".into()),
        mode: None,
        name: None,
        provider: Some("p".into()),
        model: Some(String::new()),
    };
    assert_eq!(req.session_name(), "");
    let meta = req.metadata();
    same(&meta, r#"{"mode":"chat","cwd":"/w","chat_dir":"/w","provider":"p"}"#);
    assert_eq!(session_provider(Some(&meta.print())).as_deref(), Some("p"));
    assert!(meta.get("model").is_none());
    assert_eq!(session_provider(Some("not json")), None);
    assert_eq!(session_provider(None), None);
    let q = ListQuery { limit: Some(-1), offset: Some(-3) };
    assert_eq!((q.page_limit(), q.page_offset()), (0, 0));
    let q = ListQuery { limit: Some(501), offset: None };
    assert_eq!((q.page_limit(), q.page_offset()), (500, 0));
    assert_eq!(ListQuery { limit: None, offset: None }.page_limit(), 50);
    assert_eq!(deleted_reply(Ok(0), "s").status, 404);
    assert_eq!(deleted_reply(Ok(1), "s").status, 200);
    assert_eq!(deleted_reply(Err("e".into()), "s").status, 500);
    same(&session_reply("s").body, r#"{"session_id":"s"}"#);
    assert_eq!(stats_status("session not found"), 404);
    assert_eq!(stats_status("disk"), 500);
    assert!(approval_refusal(&vec!["a".to_string()], "a", "s").is_none());
    assert_eq!(
        approval_refusal(&vec![], "a", "s").unwrap(),
        err_response(404, "no pending action a for session s")
    );
    same(&compaction_reply(None).body, r#"{"compacted":false}"#);
    same(
        &compaction_reply(Some(CompactionResult {
            messages_compacted: 4,
            tokens_before: 9,
            tokens_after: 2,
        }))
        .body,
        r#"{"compacted":true,"messages_compacted":4,"tokens_before":9,"tokens_after":2}"#,
    );
}

#[test]
fn the_other_routes_answer() {
    assert_eq!(disabled_reply().status, 200);
    same(&forgotten_reply(Ok(Some(2)), "b").body, r#"{"id":"b","dropped":2}"#);
    same(&forgotten_reply(Ok(None), "b").body, r#"{"error":"belief not found"}"#);
    assert_eq!(forgotten_reply(Err("e".into()), "b").status, 500);
    assert!(wants_pause(&j("{}")) && !wants_pause(&j(r#"{"paused":false}"#)));
    same(
        &pathway_stats(3, &vec![("a".to_string(), 1), ("b".to_string(), 2)], 1, "m"),
        r#"{"total":3,"by_layer":{"a":1,"b":2},"embedding_migration":{"pending":1,"current_model":"m"}}"#,
    );
    let r = create_recipe(&j(r#"{"name":"n","prompt_template":"t"}"#)).unwrap_or_else(|e| panic!("{e:?}"));
    assert_eq!(r.max_steps, 30);
    assert_eq!(create_recipe(&j("{}")).unwrap_err().status, 400);
    let s = create_schedule(&j(r#"{"name":"n","cron":"c","recipe_id":"r","enabled":false}"#))
        .unwrap_or_else(|e| panic!("{e:?}"));
    assert!(!s.enabled);
    assert_eq!(create_schedule(&j("{}")).unwrap_err().status, 400);
    assert_eq!(scheduler_status(&SchedulerError::NotFound("x".into())), 404);
    assert_eq!(scheduler_status(&collision("x")), 500);
    assert_eq!(missing(Ok(true), "w"), None);
    assert_eq!(missing(Ok(false), "w"), Some(err_response(404, "w")));
    assert_eq!(missing(Err("e".into()), "w"), Some(err_response(500, "e")));
    assert_eq!(written(Ok(())), ok_response());
    assert_eq!(written(Err("e".into())).status, 500);
    assert_eq!(embeddings_reply().status, 503);
}

#[test]
fn the_state_is_told() {
    let slot = SlotStatus {
        kind: "embedder".into(),
        loaded: true,
        model_path: Some("m".into()),
        n_embd: Some(8),
        backend: Some(SelectedBackend::cpu(&[])),
        n_gpu_layers: Some(0),
        n_ctx: Some(512),
        error: None,
    };
    same(
        &slot_to_json(&slot),
        r#"{"kind":"embedder","loaded":true,"model_path":"m","n_embd":8,"backend":{"backend":"cpu","device":null,"device_index":null,"memory_free":0,"memory_total":0,"usable_memory":0},"n_gpu_layers":0,"n_ctx":512,"error":null}"#,
    );
    assert_eq!(backend_to_json(&SelectedBackend::cpu(&[])).get_str("backend"), Some("cpu"));
    same(
        &models_status(true, "auto", &SelectedBackend::cpu(&[]), &vec![], &vec![]),
        r#"{"enabled":true,"backend_preference":"auto","backend_selected":{"backend":"cpu","device":null,"device_index":null,"memory_free":0,"memory_total":0,"usable_memory":0},"devices":[],"slots":[]}"#,
    );
    same(
        &health_reply(health_summary(true, "cpu", &vec![slot])),
        r#"{"status":"ok","local":{"enabled":true,"backend":"cpu","slots_loaded":1}}"#,
    );
    let h = HealthStatus { status: "healthy".into(), latency_ms: Some("1.5".into()), error: None };
    same(
        &provider_status("p", &h),
        r#"{"id":"p","status":"healthy","latency_ms":1.5,"error":null}"#,
    );
    same(
        &status(&vec![("p".to_string(), h)]),
        r#"{"status":"ok","providers":[{"id":"p","status":"healthy","latency_ms":1.5,"error":null}]}"#,
    );
}

#[test]
fn try_direct_rejects_a_server_error_from_a_stale_direct_address() {
    assert!(
        !direct_answer_counts(Some(500)),
        "a 500 from the direct path must not be treated as usable"
    );
}

#[test]
fn try_direct_rejects_an_auth_error_from_a_stale_direct_address() {
    assert!(
        !direct_answer_counts(Some(401)),
        "a 401 from the direct path must not be treated as usable"
    );
    assert!(direct_answer_counts(Some(200)) && direct_answer_counts(Some(299)));
    assert!(!direct_answer_counts(Some(300)) && !direct_answer_counts(Some(199)));
    assert!(!direct_answer_counts(None), "a silent address must not be treated as usable");
}

#[test]
fn beliefs_are_listed_and_counted() {
    let belief = Belief {
        id: "b".into(),
        text: "t".into(),
        layer: "core".into(),
        confidence: "0.5".into(),
        tested: true,
        domain: None,
        support_count: 3,
        distinct_sessions: 2,
        contradict_count: 1,
        pinned: false,
    };
    same(
        &beliefs_reply(Ok(vec![belief])).body,
        r#"{"beliefs":[{"id":"b","text":"t","layer":"core","confidence":0.5,"tested":true,"domain":null,"support_count":3,"distinct_sessions":2,"contradict_count":1,"pinned":false}],"count":1}"#,
    );
    assert_eq!(beliefs_reply(Err("e".into())), err_response(500, "e"));
    same(&paused_reply(Ok(()), "s", true).body, r#"{"session_id":"s","paused":true}"#);
    assert_eq!(paused_reply(Err("e".into()), "s", true).status, 500);
    let patch = update_schedule(&j(r#"{"cron":"* * * * *","enabled":"no"}"#));
    assert_eq!((patch.cron.as_deref(), patch.enabled), (Some("* * * * *"), None));
}

#[test]
fn a_compaction_works_with_the_session_s_provider() {
    let mut router = ProviderRouter::new(false, "some-model".into());
    let plan = compaction_plan(&router, None, 1000);
    assert_eq!((plan.provider_id, plan.model, plan.context_length), (None, None, 1000));
    router.register_openai(
        "a",
        ProviderConfig { model: "m".into(), context_length: Some(32), ..Default::default() },
        0,
    );
    router.register_anthropic("b", ProviderConfig::default(), 0);
    let plan = compaction_plan(&router, Some(r#"{"provider":"b"}"#), 1000);
    assert_eq!(plan.provider_id.as_deref(), Some("b"));
    assert_eq!((plan.model.as_deref(), plan.context_length), (Some("some-model"), 1000));
    let plan = compaction_plan(&router, Some("not json"), 1000);
    assert_eq!(plan.provider_id.as_deref(), Some("a"));
    assert_eq!((plan.model.as_deref(), plan.context_length), (Some("m"), 32));
}

#[test]
fn shown_headers_do_not_depend_on_their_texts() {
    let other = MCPServerRow { headers: Some(r#"{"A":"quite another","N":1}"#.into()), ..server() };
    assert_eq!(redact_headers(&other), redact_headers(&server()));
}

#[test]
fn an_event_is_one_frame() {
    let s = serialize_sse(&SSEEvent::content("two\nlines\r\n\u{1}"));
    let line = s.strip_prefix("data: ").unwrap().strip_suffix("\n\n").unwrap();
    assert!(line.chars().all(|c| c >= ' '), "{line:?}");
    assert_eq!(j(line).get_str("content"), Some("two\nlines\r\n\u{1}"));
}

#[test]
fn printed_values_read_back() {
    let text = r#"{"a":[1,-2,18446744073709551615,true,null,"x\"\\\u0007"],"b":{"c":{}}}"#;
    let v = j(text);
    assert_eq!(v.print(), text);
    assert_eq!(j(&v.print()), v);
    let twice = Json::Obj(vec![
        ("k".to_string(), Json::Uint(1)),
        ("k".to_string(), Json::Uint(2)),
    ]);
    assert_eq!(twice.print(), r#"{"k":2}"#);
}

#[test]
fn an_event_is_sent_in_the_order_of_its_fields() {
    let e = SSEEvent {
        tool_name: Some("find".into()),
        tool_args: Some(j(r#"{"z":1,"a":2}"#)),
        duration_ms: Some(7),
        is_last: true,
        recoverable: false,
        ttfb_ms: Some("1.5".into()),
        model: Some("m".into()),
        total_tokens: Some(3),
        ..SSEEvent::content("hi")
    };
    assert_eq!(
        serialize_sse(&e),
        "data: {\"type\":\"llm_delta\",\"content\":\"hi\",\"tool_name\":\"find\",\
         \"tool_args\":{\"a\":2,\"z\":1},\"duration_ms\":7,\"is_last\":true,\
         \"recoverable\":false,\"ttfb_ms\":1.5,\"model\":\"m\",\"total_tokens\":3}\n\n"
    );
}

#[test]
fn printed_floats_read_back() {
    for text in ["0.1", "-0.0", "5e-324", "1.7976931348623157e308", "1e16", "123456789.125"] {
        let v = j(text);
        assert_eq!(j(&v.print()), v, "{text}");
    }
    let held = j(r#"[{"$serde_json::private::RawValue":"1"}]"#);
    assert_eq!(held.print(), "[1]");
}

#[test]
fn quoted_text_keeps_its_characters() {
    assert_eq!(parse("'é'").unwrap(), j(r#""é""#));
    assert_eq!(parse("{'naïve \\é': ['日本', \"\u{1f600}\"]}").unwrap(), j(r#"{"naïve é":["日本","😀"]}"#));
    assert!(parse("é").is_err());
    assert!(parse("[1,\u{a0}2]").is_err());
}

#[test]
fn missing_open_and_further_values_are_errors() {
    for text in [
        "", " ", "[,1]", "[1,,2]", "{'a': }", "{: 1}", "{'a' 1}", ")", "]", "}", ":", ",", "[1, 2",
        "(1, 2]", "{'a': 1", "'unterminated", "\"unterminated'", "1 2", "[1] x", "None None", "'a' 'b'",
    ] {
        assert!(parse(text).is_err(), "{text}");
        assert_eq!(try_parse(text), None, "{text}");
    }
}

#[test]
fn white_space_around_a_text_says_nothing() {
    for text in ["{'a': (1, 'x ')}", "[1, 2", "'unterminated", "1 2", ""] {
        let wide = format!(" \t\r\n\u{b}{text} \n\u{c}");
        assert_eq!(parse(&wide).ok(), parse(text).ok(), "{text}");
        assert_eq!(try_parse(&wide), parse(text).ok(), "{text}");
    }
}

#[test]
fn templates_that_may_not_come_back_are_refused() {
    let none = Json::object();
    for text in [
        "{% set ns = namespace() %}{% set ns.x = ns %}{{ ns }}",
        "{% set made = namespace %}{{ made() }}",
        "{{ 'a'|indent(18446744073709551615) }}",
        "{{ 'a'|indent(width) }}",
        "{% filter indent(99999) %}a{% endfilter %}",
        "{{ [1]|batch(18446744073709551615) }}",
        "{{ '%99999999999d'|format(1) }}",
        "{{ 1 is divisibleby(0) }}",
        "{{ 1 is divisibleby 0 }}",
        "{{ [1]|select('divisibleby', 0) }}",
        "{{ ''[::-1] }}",
        "{{ ''[a[0]:b:-1] }}",
        "{{ [1] * 3 }}",
        "{{ range(1, 2, -1) }}",
        "{% for i in [1] %}{{ loop.cycle() }}{% endfor %}",
        "{{ ['a']|map('in' ~ 'dent', 1) }}",
        "{{ ['a']|map('in' 'dent', 1) }}",
        "{{ ['a']|map('indent', 1) }}",
        "{{ '}}' ~ namespace() }}",
        "{% raw %}{{ ' {% endraw %}{{ ' }} ' ~ namespace() }}",
        "{%- raw -%}{#{%- endraw -%}{{ namespace() }}",
    ] {
        assert!(!tame(text), "{text}");
        match try_render(text, &none) {
            Err(RecipeError::Template(m)) => assert_eq!(m, UNTAMED),
            other => panic!("{text}: {other:?}"),
        }
    }
    let risky = RecipeRow { instructions: Some("{{ range(3, 2, step) }}".into()), ..recipe() };
    let params = j(r#"{"who":"Ann"}"#);
    assert!(matches!(prepare_run(&risky, "r", &params), Err(RecipeError::Template(m)) if m == UNTAMED));
}

#[test]
fn built_ins_are_used_where_they_come_back() {
    let params = j(
        r#"{"map":"m","format":"f","debug":true,"items":[3,1,2],
            "users":[{"name":"Ann","on":true},{"name":"Bob","on":false}],"text":"a\nb"}"#,
    );
    for (text, said) in [
        ("{{ map }} {{ format|upper }} {% if debug %}yes{% endif %}", "m F yes"),
        ("{% for i in range(3) %}{{ i }}{% endfor %}", "012"),
        ("{% for i in range(1, 3) %}{{ i }}{% endfor %}", "12"),
        ("{{ users|map(attribute='name')|join(': ') }}", "Ann: Bob"),
        ("{{ users|selectattr('on')|map(attribute='name')|join }}", "Ann"),
        ("{{ items|select('odd')|join(',') }}", "3,1"),
        ("{{ ['a']|map('upper')|join }}", "A"),
        ("{{ text|indent(2) }}", "a\n  b"),
        ("{{ items|batch(2)|length }}", "2"),
        ("{{ items[:2]|join(',') }}", "3,1"),
        ("{{ {'a': 1, 'b': 2}.b }}", "2"),
        ("{{ 9 is divisibleby(3) }}", "True"),
        ("{% for i in items %}{{ loop.cycle('x', 'y') }}{% endfor %}", "xyx"),
        ("{% raw %}{{ namespace() }}{% endraw %} {{ map }}", "{{ namespace() }} m"),
        ("{{ 'namespace()' }}{# range(1, 2, 3) #}", "namespace()"),
    ] {
        assert_eq!(try_render(text, &params), Ok(said.to_string()), "{text}");
    }
    let named = j(r#"{"range":"r","namespace":"n","user":{"range":"u"}}"#);
    assert_eq!(
        try_render("{{ range }} {{ namespace }} {{ user.range }} {% if range %}y{% endif %}", &named),
        Ok("r n u y".to_string())
    );
}

#[test]
fn templates_that_go_too_deep_are_refused() {
    let params = j(r#"{"a":1}"#);
    let refused = Err(RecipeError::Template(UNTAMED.to_string()));
    let signs = |n: usize| format!("{{{{ {}a }}}}", "-".repeat(n));
    assert_eq!(try_render(&signs(MAX_TAG - 1), &params), Ok("-1".to_string()));
    assert_eq!(try_render(&signs(MAX_TAG), &params), refused);
    assert_eq!(try_render(&signs(1_000_000), &params), refused);
    let nots = |n: usize| format!("{{{{ {}a }}}}", "not ".repeat(n));
    assert_eq!(try_render(&nots(MAX_TAG - 2), &params), Ok("True".to_string()));
    assert_eq!(try_render(&nots(300_000), &params), refused);
    let filters = |n: usize| format!("{{{{ a{} }}}}", "|abs".repeat(n));
    assert_eq!(try_render(&filters(99), &params), Ok("1".to_string()));
    assert_eq!(try_render(&filters(100), &params), refused);
    let choices = |n: usize| format!("{{{{ {}a }}}}", "0 if not a else ".repeat(n));
    assert_eq!(try_render(&choices(39), &params), Ok("1".to_string()));
    assert_eq!(try_render(&choices(40), &params), refused);
    let branches = |n: usize| {
        format!("{{% if false %}}x{}{{% endif %}}", "{% elif false %}y".repeat(n) + "{% else %}z")
    };
    assert_eq!(try_render(&branches(MAX_BRANCHES), &params), Ok("z".to_string()));
    assert_eq!(try_render(&branches(MAX_BRANCHES + 1), &params), refused);
    let nested = "{% if a %}".repeat(70) + &branches(MAX_BRANCHES) + &"{% endif %}".repeat(70);
    assert_eq!(try_render(&nested, &params), Ok("z".to_string()));
    let tags = |n: usize| "{{ a }}".repeat(n);
    assert_eq!(try_render(&tags(MAX_CODE / 2), &params), Ok("1".repeat(MAX_CODE / 2)));
    assert_eq!(try_render(&tags(MAX_CODE / 2 + 1), &params), refused);
    let words = "word ".repeat(100_000) + "{{ a }}";
    assert_eq!(try_render(&words, &params).unwrap().len(), 500_001);
}

#[test]
fn brackets_that_close_none_are_errors_of_the_template() {
    for text in ["{{ ( }} namespace() }}", "{{ a ) }}", "{{ 'a }}", "{# a", "{% raw %}a"] {
        assert!(tame(text), "{text}");
        match try_render(text, &Json::object()) {
            Err(RecipeError::Template(m)) => assert!(m.contains("syntax error"), "{text}: {m}"),
            other => panic!("{text}: {other:?}"),
        }
    }
}

#[test]
fn words_of_a_prompt_are_no_code() {
    let params = j(r#"{"who":"Ann","items":["a","b"]}"#);
    let text = "Map the namespace: {{ who }}, * {# range(1) #} {{ items|join(': ') }} slice";
    assert!(tame(text));
    assert_eq!(
        try_render(text, &params).unwrap(),
        "Map the namespace: Ann, *  a: b slice"
    );
    let word = |w: &str| Token::Word(w.to_string());
    let sign = |w: &str| Token::Sign(w.to_string());
    assert_eq!(
        template_code("a{{ b|d('c') }}d{%- if e_1 -%}"),
        vec![
            Token::Tag,
            word("b"),
            sign("|"),
            word("d"),
            sign("("),
            Token::Text("c".to_string()),
            sign(")"),
            Token::Tag,
            word("if"),
            word("e_1"),
        ]
    );
    assert!(tame("{{ mapping }} {{ my_range }}"));
}

#[test]
fn of_two_peers_with_one_address_the_later_key_has_it() {
    let peer = |name: &str| format!(r#"{{"DNSName":"{name}.","TailscaleIPs":["100.64.1.2"]}}"#);
    let (a, b) = (j(&peer("first")), j(&peer("second")));
    let data = Json::object().with(
        "Peer",
        Json::Obj(vec![("k2".to_string(), b), ("k1".to_string(), a)]),
    );
    assert_eq!(parse_peers(&data).get("100.64.1.2").unwrap().name, "second");
}

#[test]
fn headers_that_are_no_object_are_not_shown() {
    let with = |h: &str| MCPServerRow { headers: Some(h.into()), ..server() };
    for text in ["Bearer abc123", "\"Bearer abc123\"", "[\"abc123\"]"] {
        let shown = redact_headers(&with(text));
        assert_eq!(shown.get_str("headers"), Some("***"), "{text}");
        assert!(!shown.print().contains("abc123"));
    }
    assert_eq!(redact_headers(&with("null")).get_str("headers"), Some("null"));
    assert_eq!(redact_headers(&with("")).get_str("headers"), Some(""));
}

#[test]
fn a_schedule_is_added_whole_or_not_at_all() {
    let on = AddRun::new(true);
    assert_eq!(on.next(AddEvent::Looked(true)), AddAction::Finish(AddEnd::Taken));
    assert_eq!(on.next(AddEvent::Looked(false)), AddAction::Register);
    assert_eq!(on.next(AddEvent::Registered(false)), AddAction::Finish(AddEnd::NotRegistered));
    assert_eq!(on.next(AddEvent::Registered(true)), AddAction::Store);
    assert_eq!(on.next(AddEvent::Stored(true)), AddAction::Finish(AddEnd::Done));
    assert_eq!(on.next(AddEvent::Stored(false)), AddAction::Unregister);
    assert_eq!(on.next(AddEvent::Unregistered), AddAction::Finish(AddEnd::NotStored));
    assert_eq!(AddRun::new(false).next(AddEvent::Looked(false)), AddAction::Store);
}

#[test]
fn a_fork_is_made_whole_or_not_at_all() {
    let run = ForkRun::new(true);
    assert_eq!(run.next(ForkEvent::Read), ForkAction::MakeSession);
    assert_eq!(run.next(ForkEvent::Made(false)), ForkAction::Finish(false));
    assert_eq!(run.next(ForkEvent::Made(true)), ForkAction::Describe);
    assert_eq!(run.next(ForkEvent::Described), ForkAction::CopyMessages);
    assert_eq!(run.next(ForkEvent::Copied(true)), ForkAction::Carry);
    assert_eq!(run.next(ForkEvent::Carried), ForkAction::Finish(true));
    assert_eq!(run.next(ForkEvent::Copied(false)), ForkAction::DropSession);
    assert_eq!(run.next(ForkEvent::Dropped), ForkAction::Finish(false));
    assert_eq!(ForkRun::new(false).next(ForkEvent::Made(true)), ForkAction::CopyMessages);
}
