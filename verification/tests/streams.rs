use bigtiny::json::Json;
use bigtiny::provider::anthropic_stream::{block_value, usage_map_from_anthropic, AnthropicSSEStream};
use bigtiny::provider::base::Delta;
use bigtiny::provider::openai_stream::{
    arguments_value, usage_of, OpenAISSEStream, Poll, MAX_TOOL_ARGUMENTS_BYTES,
};
use bigtiny::provider::sse::{take_lines, MAX_SSE_LINE_BYTES, MAX_STREAM_DURATION_SECS};

/// What a connection delivers.
enum Event<'a> {
    Bytes(&'a [u8]),
    Silence,
    Close,
}

fn openai(events: &[Event], elapsed_secs: u64) -> Vec<Delta> {
    let mut s = OpenAISSEStream::new();
    let mut out = Vec::new();
    let mut next = events.iter();
    loop {
        match s.poll(elapsed_secs) {
            Poll::Ready(d) => out.push(d),
            Poll::Finished => return out,
            Poll::Wait => match next.next() {
                Some(Event::Bytes(b)) => s.chunk(b),
                Some(Event::Silence) => s.fail(),
                Some(Event::Close) | None => s.end(),
            },
        }
    }
}

fn anthropic(events: &[Event]) -> Vec<Delta> {
    let mut s = AnthropicSSEStream::new();
    let mut out = Vec::new();
    let mut next = events.iter();
    loop {
        match s.poll() {
            Poll::Ready(d) => out.push(d),
            Poll::Finished => return out,
            Poll::Wait => match next.next() {
                Some(Event::Bytes(b)) => s.chunk(b),
                Some(Event::Silence) => s.fail(),
                Some(Event::Close) | None => s.end(),
            },
        }
    }
}

fn openai_text(chunk: &str) -> Vec<Delta> {
    openai(&[Event::Bytes(chunk.as_bytes()), Event::Close], 0)
}

fn anthropic_text(chunk: &str) -> Vec<Delta> {
    anthropic(&[Event::Bytes(chunk.as_bytes()), Event::Close])
}

fn contents(deltas: &[Delta]) -> Vec<String> {
    deltas.iter().filter_map(|d| d.content.clone()).collect()
}

fn reasoning(deltas: &[Delta]) -> String {
    deltas.iter().filter_map(|d| d.reasoning.clone()).collect()
}

fn is_transient_error(d: &Delta) {
    assert_eq!(d.error_type.as_deref(), Some("request"));
    assert_eq!(d.finish_reason.as_deref(), Some("error"));
}

#[test]
fn openai_compat_multiple_data_lines_in_one_chunk_are_all_emitted() {
    let deltas = openai_text(
        "data: {\"choices\":[{\"delta\":{\"content\":\"Hello\"}}]}\n\n\
         data: {\"choices\":[{\"delta\":{\"content\":\" world\"}}]}\n\n",
    );
    assert_eq!(contents(&deltas), vec!["Hello".to_string(), " world".to_string()]);
}

#[test]
fn openai_compat_data_line_split_across_chunk_boundary_still_parses() {
    let deltas = openai(
        &[
            Event::Bytes(b"data: {\"choices\":[{\"delta\":{\"content\":\"Hel"),
            Event::Bytes(b"lo\"}}]}\n\n"),
        ],
        0,
    );
    assert_eq!(contents(&deltas), vec!["Hello".to_string()]);
}

#[test]
fn openai_compat_multi_byte_utf8_split_across_chunks_round_trips() {
    let mut chunk1 = b"data: {\"choices\":[{\"delta\":{\"content\":\"caf".to_vec();
    chunk1.push(0xC3);
    let chunk2 = b"\xA9\"}}]}\n\ndata: [DONE]\n\n".to_vec();
    let deltas = openai(&[Event::Bytes(&chunk1), Event::Bytes(&chunk2)], 0);
    assert_eq!(contents(&deltas).concat(), "caf\u{e9}");
}

#[test]
fn complete_tool_calls_are_flushed_when_the_stream_ends_without_done() {
    let deltas = openai_text(
        "data: {\"choices\":[{\"delta\":{\"tool_calls\":[{\"index\":0,\"id\":\"call_1\",\"type\":\"function\",\"function\":{\"name\":\"read_file\",\"arguments\":\"{\\\"path\\\":\\\"a.txt\\\"}\"}}]}}]}\n\n",
    );
    let tool_calls = deltas
        .into_iter()
        .find_map(|d| d.tool_calls)
        .expect("expected a Delta carrying tool_calls");
    assert_eq!(tool_calls.len(), 1);
    assert_eq!(tool_calls[0].id, "call_1");
    assert_eq!(tool_calls[0].function.get_str("name"), Some("read_file"));
}

#[test]
fn openai_compat_idle_read_timeout_terminates_a_silent_stream_as_a_transient_error() {
    let deltas = openai(&[Event::Silence], 0);
    is_transient_error(deltas.last().expect("expected at least the error Delta"));
}

#[test]
fn top_level_error_object_surfaces_as_a_transient_error_delta() {
    let deltas = openai_text(
        "data: {\"error\": {\"message\": \"upstream failure\", \"type\": \"server_error\"}}\n\n",
    );
    is_transient_error(deltas.last().expect("expected the error Delta"));
}

#[test]
fn an_overlong_line_without_newline_terminates_as_a_transient_error() {
    let garbage = vec![b'x'; MAX_SSE_LINE_BYTES + 1];
    let deltas = openai(&[Event::Bytes(&garbage)], 0);
    assert_eq!(deltas.len(), 1, "exactly one transient-error delta");
    is_transient_error(&deltas[0]);
}

#[test]
fn overlong_tool_arguments_terminate_as_a_transient_error() {
    let chunk = format!(
        "data: {{\"choices\":[{{\"delta\":{{\"tool_calls\":[{{\"index\":0,\"id\":\"call_1\",\"type\":\"function\",\"function\":{{\"name\":\"boom\",\"arguments\":\"{}\"}}}}]}}}}]}}\n\n",
        "x".repeat(MAX_TOOL_ARGUMENTS_BYTES + 1)
    );
    let deltas = openai_text(&chunk);
    is_transient_error(deltas.last().expect("expected the transient-error Delta"));
}

#[test]
fn a_stream_past_the_total_duration_cap_terminates_as_a_transient_error() {
    let deltas = openai(&[], MAX_STREAM_DURATION_SECS + 1);
    is_transient_error(deltas.last().expect("expected the transient-error Delta"));
}

#[test]
fn done_marker_ends_stream() {
    let deltas =
        openai_text("data: {\"choices\":[{\"delta\":{\"content\":\"Hi\"}}]}\n\ndata: [DONE]\n\n");
    assert_eq!(deltas.len(), 1);
    assert_eq!(deltas[0].content.as_deref(), Some("Hi"));
}

#[test]
fn openai_compat_trailing_complete_line_without_newline_is_still_decoded() {
    let deltas = openai_text("data: {\"choices\":[{\"delta\":{\"content\":\"Hi\"}}]}");
    assert_eq!(contents(&deltas), vec!["Hi".to_string()]);
}

#[test]
fn openai_compat_tool_call_captures_name_and_wraps_arguments() {
    let deltas = openai_text(
        "data: {\"choices\":[{\"delta\":{\"tool_calls\":[{\"index\":0,\"id\":\"call_1\",\"type\":\"function\",\"function\":{\"name\":\"read_file\",\"arguments\":\"\"}}]}}]}\n\n\
         data: {\"choices\":[{\"delta\":{\"tool_calls\":[{\"index\":0,\"function\":{\"arguments\":\"{\\\"path\\\":\"}}]}}]}\n\n\
         data: {\"choices\":[{\"delta\":{\"tool_calls\":[{\"index\":0,\"function\":{\"arguments\":\"\\\"a.txt\\\"}\"}}]}}]}\n\n\
         data: [DONE]\n\n",
    );
    let tool_calls = deltas
        .into_iter()
        .find_map(|d| d.tool_calls)
        .expect("expected a Delta carrying tool_calls");
    assert_eq!(tool_calls.len(), 1);
    let tc = &tool_calls[0];
    assert_eq!(tc.id, "call_1");
    assert_eq!(tc.function.get_str("name"), Some("read_file"));
    assert_eq!(tc.function.get("arguments").and_then(|v| v.get_str("path")), Some("a.txt"));
}

#[test]
fn zero_argument_tool_call_flushes_as_empty_object_not_error() {
    let deltas = openai_text(
        "data: {\"choices\":[{\"delta\":{\"tool_calls\":[{\"index\":0,\"id\":\"call_1\",\"type\":\"function\",\"function\":{\"name\":\"list_files\"}}]}}]}\n\n\
         data: {\"choices\":[{\"delta\":{},\"finish_reason\":\"tool_calls\"}]}\n\n\
         data: [DONE]\n\n",
    );
    assert!(
        deltas.iter().all(|d| d.error_type.is_none()),
        "no error delta for a legitimate zero-arg call: {deltas:?}"
    );
    let tool_calls = deltas
        .into_iter()
        .find_map(|d| d.tool_calls)
        .expect("expected a Delta carrying tool_calls");
    assert_eq!(tool_calls.len(), 1);
    assert_eq!(
        tool_calls[0].function.get("arguments"),
        Some(&Json::object()),
        "empty streamed arguments must become an empty object"
    );
}

#[test]
fn tool_calls_flush_sorted_by_index_not_arrival_order() {
    let deltas = openai_text(
        "data: {\"choices\":[{\"delta\":{\"tool_calls\":[{\"index\":2,\"id\":\"call_c\",\"type\":\"function\",\"function\":{\"name\":\"third\",\"arguments\":\"{}\"}}]}}]}\n\n\
         data: {\"choices\":[{\"delta\":{\"tool_calls\":[{\"index\":0,\"id\":\"call_a\",\"type\":\"function\",\"function\":{\"name\":\"first\",\"arguments\":\"{}\"}}]}}]}\n\n\
         data: {\"choices\":[{\"delta\":{\"tool_calls\":[{\"index\":1,\"id\":\"call_b\",\"type\":\"function\",\"function\":{\"name\":\"second\",\"arguments\":\"{}\"}}]}}]}\n\n\
         data: [DONE]\n\n",
    );
    let tool_calls = deltas
        .into_iter()
        .find_map(|d| d.tool_calls)
        .expect("expected a Delta carrying tool_calls");
    let names: Vec<&str> =
        tool_calls.iter().filter_map(|tc| tc.function.get_str("name")).collect();
    assert_eq!(names, vec!["first", "second", "third"]);
}

#[test]
fn dangling_partial_think_tag_is_flushed_at_end_of_stream() {
    let deltas = openai_text("data: {\"choices\":[{\"delta\":{\"content\":\"tail<th\"}}]}\n\n");
    assert_eq!(
        contents(&deltas).concat(),
        "tail<th",
        "the held-back partial tag must be flushed"
    );
}

#[test]
fn think_tag_split_across_sse_chunks_is_still_recognized() {
    let deltas = openai_text(
        "data: {\"choices\":[{\"delta\":{\"content\":\"<think>\"}}]}\n\n\
         data: {\"choices\":[{\"delta\":{\"content\":\"reasoning here\"}}]}\n\n\
         data: {\"choices\":[{\"delta\":{\"content\":\"</think>answer\"}}]}\n\n\
         data: [DONE]\n\n",
    );
    assert_eq!(contents(&deltas).concat(), "answer");
    assert_eq!(reasoning(&deltas), "reasoning here");
}

#[test]
fn think_tag_split_mid_tag_across_sse_chunks_is_still_recognized() {
    let deltas = openai_text(
        "data: {\"choices\":[{\"delta\":{\"content\":\"<thi\"}}]}\n\n\
         data: {\"choices\":[{\"delta\":{\"content\":\"nk>secret</th\"}}]}\n\n\
         data: {\"choices\":[{\"delta\":{\"content\":\"ink>answer\"}}]}\n\n\
         data: [DONE]\n\n",
    );
    assert_eq!(contents(&deltas).concat(), "answer");
    assert_eq!(reasoning(&deltas), "secret");
}

#[test]
fn cached_tokens_are_captured_from_prompt_tokens_details() {
    let deltas = openai_text(
        "data: {\"choices\":[{\"delta\":{}}],\"usage\":{\"prompt_tokens\":100,\"completion_tokens\":20,\"prompt_tokens_details\":{\"cached_tokens\":64}}}\n\ndata: [DONE]\n\n",
    );
    let usage = deltas
        .iter()
        .find_map(|d| d.usage.as_ref())
        .expect("expected a Delta carrying usage");
    assert_eq!(usage.get("input_tokens"), Some(&100));
    assert_eq!(usage.get("cache_read_tokens"), Some(&64));
    assert_eq!(usage.get("output_tokens"), Some(&20));
}

#[test]
fn finish_reason_survives_a_tool_calling_turn() {
    let deltas = openai_text(
        "data: {\"choices\":[{\"delta\":{\"tool_calls\":[{\"index\":0,\"id\":\"call_1\",\"type\":\"function\",\"function\":{\"name\":\"read_file\",\"arguments\":\"{}\"}}]}}]}\n\n\
         data: {\"choices\":[{\"delta\":{},\"finish_reason\":\"tool_calls\"}]}\n\n\
         data: [DONE]\n\n",
    );
    assert!(
        deltas.iter().any(|d| d.finish_reason.as_deref() == Some("tool_calls")),
        "expected some Delta to carry finish_reason \"tool_calls\", got {deltas:?}"
    );
}

#[test]
fn anthropic_multiple_data_lines_in_one_chunk_are_all_emitted() {
    let deltas = anthropic_text(
        "event: content_block_delta\n\
         data: {\"type\":\"content_block_delta\",\"index\":0,\"delta\":{\"type\":\"text_delta\",\"text\":\"Hi\"}}\n\n\
         event: content_block_delta\n\
         data: {\"type\":\"content_block_delta\",\"index\":0,\"delta\":{\"type\":\"text_delta\",\"text\":\" there\"}}\n\n",
    );
    assert_eq!(contents(&deltas), vec!["Hi".to_string(), " there".to_string()]);
}

#[test]
fn anthropic_data_line_split_across_chunk_boundary_still_parses() {
    let deltas = anthropic(&[
        Event::Bytes(b"data: {\"type\":\"content_block_delta\",\"index\":0,\"delta\":{\"type\":\"text_delta\",\"te"),
        Event::Bytes(b"xt\":\"Hello\"}}\n\n"),
    ]);
    assert_eq!(contents(&deltas), vec!["Hello".to_string()]);
}

#[test]
fn anthropic_multi_byte_utf8_split_across_chunks_round_trips() {
    let mut chunk1 =
        b"data: {\"type\":\"content_block_delta\",\"index\":0,\"delta\":{\"type\":\"text_delta\",\"text\":\"caf"
            .to_vec();
    chunk1.push(0xC3);
    let chunk2 = b"\xA9\"}}\n\n".to_vec();
    let deltas = anthropic(&[Event::Bytes(&chunk1), Event::Bytes(&chunk2)]);
    assert_eq!(contents(&deltas).concat(), "caf\u{e9}");
}

#[test]
fn anthropic_idle_read_timeout_terminates_a_silent_stream_as_a_transient_error() {
    let deltas = anthropic(&[Event::Silence]);
    is_transient_error(deltas.last().expect("expected at least the error Delta"));
}

#[test]
fn message_stop_ends_stream() {
    let deltas = anthropic_text(
        "data: {\"type\":\"content_block_delta\",\"index\":0,\"delta\":{\"type\":\"text_delta\",\"text\":\"Hi\"}}\n\n\
         data: {\"type\":\"message_stop\"}\n\n",
    );
    assert_eq!(deltas.len(), 1);
    assert_eq!(deltas[0].content.as_deref(), Some("Hi"));
}

#[test]
fn anthropic_trailing_complete_line_without_newline_is_still_decoded() {
    let deltas = anthropic_text(
        "data: {\"type\":\"content_block_delta\",\"index\":0,\"delta\":{\"type\":\"text_delta\",\"text\":\"Hi\"}}",
    );
    assert_eq!(contents(&deltas), vec!["Hi".to_string()]);
}

#[test]
fn anthropic_tool_call_captures_name_and_wraps_arguments() {
    let deltas = anthropic_text(
        "data: {\"type\":\"content_block_start\",\"index\":0,\"content_block\":{\"type\":\"tool_use\",\"id\":\"toolu_1\",\"name\":\"read_file\"}}\n\n\
         data: {\"type\":\"content_block_delta\",\"index\":0,\"delta\":{\"type\":\"input_json_delta\",\"partial_json\":\"{\\\"path\\\":\"}}\n\n\
         data: {\"type\":\"content_block_delta\",\"index\":0,\"delta\":{\"type\":\"input_json_delta\",\"partial_json\":\"\\\"a.txt\\\"}\"}}\n\n\
         data: {\"type\":\"content_block_stop\",\"index\":0}\n\n\
         data: {\"type\":\"message_delta\",\"delta\":{\"stop_reason\":\"tool_use\"}}\n\n",
    );
    let tool_calls = deltas
        .into_iter()
        .find_map(|d| d.tool_calls)
        .expect("expected a Delta carrying tool_calls");
    assert_eq!(tool_calls.len(), 1);
    let tc = &tool_calls[0];
    assert_eq!(tc.id, "toolu_1");
    assert_eq!(tc.function.get_str("name"), Some("read_file"));
    assert_eq!(tc.function.get("arguments").and_then(|v| v.get_str("path")), Some("a.txt"));
}

#[test]
fn message_start_captures_input_and_cache_tokens() {
    let deltas = anthropic_text(
        "data: {\"type\":\"message_start\",\"message\":{\"role\":\"assistant\",\"usage\":{\"input_tokens\":12,\"output_tokens\":1,\"cache_creation_input_tokens\":340,\"cache_read_input_tokens\":890}}}\n\n",
    );
    let usage = deltas[0].usage.as_ref().expect("expected usage on message_start Delta");
    assert_eq!(usage.get("input_tokens"), Some(&1242));
    assert_eq!(usage.get("cache_creation_tokens"), Some(&340));
    assert_eq!(usage.get("cache_read_tokens"), Some(&890));
}

#[test]
fn message_delta_captures_final_output_tokens() {
    let deltas = anthropic_text(
        "data: {\"type\":\"message_delta\",\"delta\":{\"stop_reason\":\"end_turn\"},\"usage\":{\"output_tokens\":57}}\n\n",
    );
    let usage = deltas[0].usage.as_ref().expect("expected usage on message_delta Delta");
    assert_eq!(usage.get("output_tokens"), Some(&57));
}

#[test]
fn any_cut_of_the_bytes_gives_the_same_fragments() {
    let bytes = "data: {\"choices\":[{\"delta\":{\"content\":\"<think>a</think>caf\u{e9}\"}}]}\r\n\ndata: {\"choices\":[{\"delta\":{\"tool_calls\":[{\"index\":0,\"id\":\"c\",\"function\":{\"name\":\"t\",\"arguments\":\"{}\"}}]}}]}\n\ndata: [DONE]\n".as_bytes();
    let whole = openai(&[Event::Bytes(bytes)], 0);
    for cut in 0..bytes.len() {
        let two = openai(&[Event::Bytes(&bytes[..cut]), Event::Bytes(&bytes[cut..])], 0);
        assert_eq!(two, whole, "cut at {cut}");
    }
    let mut buf = b"a\r\nb\nrest".to_vec();
    assert_eq!(take_lines(&mut buf).len(), 2);
    assert_eq!(buf, b"rest".to_vec());
}

#[test]
fn broken_arguments_are_marked() {
    let ok = arguments_value("{\"a\":1}", Json::parse("{\"a\":1}"));
    assert_eq!(ok.get_u64("a"), Some(1));
    assert_eq!(arguments_value("", Json::parse("")), Json::object());
    let bad = arguments_value("{", Json::parse("{"));
    assert!(bad.get_str("__error").unwrap().starts_with("malformed tool arguments: "));
    assert_eq!(block_value("", Json::parse("")), Json::object());
    assert_eq!(block_value("[1]", Json::parse("[1]")), Json::parse("[1]").unwrap());
}

#[test]
fn usage_is_read_by_either_name() {
    let u = usage_of(&Json::parse("{\"prompt_tokens\":3,\"total_tokens\":9}").unwrap());
    assert_eq!(u.get("input_tokens"), Some(&3));
    let none = usage_map_from_anthropic(&Json::parse("{}").unwrap());
    assert!(none.is_none());
    let some = usage_map_from_anthropic(&Json::parse("{\"output_tokens\":1}").unwrap()).unwrap();
    assert_eq!(some.get("output_tokens"), Some(&1));
}

#[test]
fn the_end_of_a_stream_gives_out_what_was_held() {
    let mut s = OpenAISSEStream::new();
    s.chunk(b"data: {\"choices\":[{\"delta\":{\"content\":\"<think>a</th\",\"tool_calls\":[{\"index\":0,\"id\":\"c\",\"function\":{\"name\":\"t\"}}]}}]}\n");
    s.end();
    let mut out = Vec::new();
    while let Poll::Ready(d) = s.poll(0) {
        out.push(d);
    }
    assert_eq!(reasoning(&out), "a</th");
    assert_eq!(out.last().unwrap().tool_calls.as_ref().unwrap()[0].id, "c");
    assert!(matches!(s.poll(0), Poll::Finished));
}

#[test]
fn held_text_comes_out_at_the_end_marker() {
    let deltas = openai_text(
        "data: {\"choices\":[{\"delta\":{\"content\":\"tail<th\"}}]}\n\ndata: [DONE]\n\n",
    );
    assert_eq!(contents(&deltas).concat(), "tail<th");
    let deltas = openai_text(
        "data: {\"choices\":[{\"delta\":{\"content\":\"<think>why</th\"}}]}\n\ndata: [DONE]\n\n",
    );
    assert_eq!(reasoning(&deltas), "why</th");
}
