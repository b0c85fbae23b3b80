use local_openai::api::{
    user_query_input, AIAgentActionResult, AIAgentInput, Action, LocalOpenAIBackendSettings,
    Message, MessageContent, RequestInputConversion, RequestParams, ResponseEvent,
    ResponseEventType, RunShellCommand, Task, Tool, ToolCall, ToolCallResult, ToolResult,
    ToolResultKind, WaitUntilCompleteValue,
};
use local_openai::error::AIApiError;
use local_openai::local_openai::chat::{
    chat_completions_request, chat_completions_url, chunk_event, classify_sse_line,
    ChatCompletionChoice, ChatCompletionChunk, ChatCompletionDelta, ChatCompletionToolCallDelta,
    ChatCompletionToolCallFunctionDelta, LineStep, OpenAIStreamEvent, OpenAIToolCallDelta, SseLine,
    SseReader, line_step,
};
use local_openai::local_openai::events::{
    add_messages_event, agent_output_message, append_message_event, create_task_event,
    finished_event, init_event,
};
use local_openai::local_openai::history::{build_openai_history, message_from_task_message,
    openai_tool_call_from_warp_tool_call, tool_call_result_message_from_action_result,
};
use local_openai::local_openai::tools::{
    openai_arguments_for_warp_tool_call, openai_name_for_warp_tool_call, run_shell_arguments,
};
use local_openai::local_openai::{
    active_task, flush_utf8_text, local_model, push_utf8_text, require_setting,
    start_local_stream, take_sse_line, LocalStream, DEFAULT_LOCAL_MAX_TOKENS,
};
use local_openai::local_openai_text;
use local_openai::text::{is_white_space, trimmed};

fn other_message(e: &AIApiError) -> String {
    match e {
        AIApiError::Other(m) => m.clone(),
        AIApiError::ErrorStatus(_, b) => panic!("unexpected status error {b}"),
    }
}

fn params(input: Vec<AIAgentInput>, tasks: Vec<Task>) -> RequestParams {
    RequestParams { input, tasks, model: "test-model".to_string(), conversation_token: None }
}

fn task(id: &str, messages: Vec<Message>) -> Task {
    Task { id: id.to_string(), description: "test".to_string(), messages }
}

fn settings(api_key: Option<&str>, base_url: Option<&str>, model: Option<&str>) -> LocalOpenAIBackendSettings {
    LocalOpenAIBackendSettings {
        api_key: api_key.map(str::to_string),
        base_url: base_url.map(str::to_string),
        model: model.map(str::to_string),
    }
}

fn message(content: MessageContent) -> Message {
    Message {
        id: "m".to_string(),
        task_id: "task-1".to_string(),
        request_id: "r".to_string(),
        message: Some(content),
    }
}

fn shell(command: &str, wait: Option<bool>) -> RunShellCommand {
    RunShellCommand {
        command: command.to_string(),
        is_read_only: true,
        is_risky: false,
        uses_pager: false,
        wait_until_complete_value: wait.map(WaitUntilCompleteValue::WaitUntilComplete),
    }
}

fn action_result(conversion: RequestInputConversion) -> AIAgentActionResult {
    AIAgentActionResult {
        id: "call_1".to_string(),
        task_id: "task-1".to_string(),
        rendered: "output".to_string(),
        request_input: conversion,
    }
}

fn content_chunk(contents: &[Option<&str>]) -> ChatCompletionChunk {
    ChatCompletionChunk {
        choices: contents
            .iter()
            .map(|c| ChatCompletionChoice {
                delta: ChatCompletionDelta { content: c.map(str::to_string), tool_calls: None },
                finish_reason: None,
            })
            .collect(),
    }
}

fn is_uuid(s: &str) -> bool {
    s.len() == 36
        && s.char_indices().all(|(i, c)| {
            if [8, 13, 18, 23].contains(&i) {
                c == '-'
            } else {
                c.is_ascii_digit() || ('a'..='f').contains(&c)
            }
        })
}

fn single_action(e: &ResponseEvent) -> &Action {
    match &e.event_type {
        Some(ResponseEventType::ClientActions(actions)) => {
            assert_eq!(actions.len(), 1);
            actions[0].action.as_ref().unwrap()
        }
        other => panic!("expected client actions, got {other:?}"),
    }
}

fn output_text(m: &Message) -> &str {
    match &m.message {
        Some(MessageContent::AgentOutput { text }) => text,
        other => panic!("expected agent output, got {other:?}"),
    }
}

#[test]
fn white_space_matches_std_for_every_char() {
    for u in 0u32..=0x10ffff {
        if let Some(c) = char::from_u32(u) {
            assert_eq!(is_white_space(c), c.is_whitespace(), "U+{u:04X}");
        }
    }
}

#[test]
fn trimmed_matches_std_trim() {
    for s in ["", "   ", " a ", "\t\nab c\u{3000}", "\u{2028}x\u{a0}", "no-space"] {
        assert_eq!(trimmed(s), s.trim());
    }
}

#[test]
fn require_setting_trims_and_names_missing_settings() {
    assert_eq!(require_setting(Some("  sk-local ".to_string()), "OpenAI API key").unwrap(), "sk-local");
    for value in [None, Some("   ".to_string())] {
        let e = require_setting(value, "OpenAI Base URL").unwrap_err();
        assert_eq!(other_message(&e), "OpenAI Base URL is required for the local OpenAI text backend");
    }
}

#[test]
fn local_model_prefers_setting_then_selection_then_default() {
    assert_eq!(local_model(Some(" local-model ".to_string()), "selected"), "local-model");
    assert_eq!(local_model(Some("  ".to_string()), " selected-model "), "selected-model");
    assert_eq!(local_model(None, "  "), "gpt-4o-mini");
    assert_eq!(local_openai_text::local_model(Some(" m ".to_string())), "m");
    assert_eq!(local_openai_text::local_model(None), "gpt-4o-mini");
}

#[test]
fn extract_user_query_errors() {
    let e = local_openai::local_openai::extract_user_query(&[]).unwrap_err();
    assert_eq!(other_message(&e), "Local OpenAI text backend received an empty request");
    let e = local_openai::local_openai::extract_user_query(&[user_query_input("  ")]).unwrap_err();
    assert_eq!(other_message(&e), "Local OpenAI text backend received an empty user query");
    let e = local_openai::local_openai::extract_user_query(&[AIAgentInput::Other("Foo".to_string())])
        .unwrap_err();
    assert_eq!(
        other_message(&e),
        "Local OpenAI text backend only supports plain user queries in this phase; received Foo"
    );
    // Only the last input counts.
    let q = local_openai::local_openai::extract_user_query(&[
        AIAgentInput::ResumeConversation,
        user_query_input(" last "),
    ])
    .unwrap();
    assert_eq!(q, "last");
}

#[test]
fn active_task_id_requires_a_task() {
    let e = local_openai::local_openai::active_task_id(&params(vec![], vec![])).unwrap_err();
    assert_eq!(other_message(&e), "Local OpenAI text backend requires an active task");
    let e = local_openai::local_openai::active_task_id(&params(vec![], vec![task("  ", vec![])]))
        .unwrap_err();
    assert_eq!(other_message(&e), "Local OpenAI text backend requires an active task");
}

#[test]
fn active_task_creates_a_task_with_a_fresh_uuid() {
    let existing = active_task(&params(vec![], vec![task(" task-1 ", vec![])]), "hello");
    assert_eq!(existing.id, "task-1");
    assert!(existing.create_event.is_none());

    let created = active_task(&params(vec![], vec![]), "hello");
    assert!(is_uuid(&created.id), "{}", created.id);
    match single_action(created.create_event.as_ref().unwrap()) {
        Action::CreateTask { task: Some(t) } => {
            assert_eq!(t.id, created.id);
            assert_eq!(t.description, "hello");
        }
        other => panic!("unexpected {other:?}"),
    }
    let other = active_task(&params(vec![], vec![]), "hello");
    assert_ne!(other.id, created.id);
}

#[test]
fn classify_sse_lines() {
    assert_eq!(classify_sse_line(""), SseLine::Ignored);
    assert_eq!(classify_sse_line("   "), SseLine::Ignored);
    assert_eq!(classify_sse_line("event: ping"), SseLine::Ignored);
    assert_eq!(classify_sse_line(": comment data:"), SseLine::Ignored);
    assert_eq!(classify_sse_line("  data:   [DONE]  \r"), SseLine::Done);
    assert_eq!(classify_sse_line("data:data: {\"a\":1} "), SseLine::Data("{\"a\":1}".to_string()));
    assert_eq!(classify_sse_line("data:"), SseLine::Data(String::new()));
    assert_eq!(classify_sse_line("data: [DONE] x"), SseLine::Data("[DONE] x".to_string()));
}

#[test]
fn chunk_event_prefers_content_then_tool_calls() {
    assert_eq!(chunk_event(ChatCompletionChunk { choices: vec![] }), None);
    assert_eq!(chunk_event(content_chunk(&[Some("")])), None);
    assert_eq!(chunk_event(content_chunk(&[None, Some("second")])), None);
    let chunk = ChatCompletionChunk {
        choices: vec![ChatCompletionChoice {
            delta: ChatCompletionDelta {
                content: Some(String::new()),
                tool_calls: Some(vec![ChatCompletionToolCallDelta {
                    index: 2,
                    id: None,
                    function: Some(ChatCompletionToolCallFunctionDelta {
                        name: Some("run_shell_command".to_string()),
                        arguments: None,
                    }),
                }]),
            },
            finish_reason: None,
        }],
    };
    assert_eq!(
        chunk_event(chunk),
        Some(OpenAIStreamEvent::ToolCallDelta(OpenAIToolCallDelta {
            index: 2,
            id: None,
            function_name: Some("run_shell_command".to_string()),
            arguments_delta: String::new(),
        }))
    );
}

#[test]
fn text_backend_delta_is_first_nonempty_content() {
    let line = SseLine::Data(content_chunk(&[None, Some(""), Some("b"), Some("c")]));
    assert_eq!(local_openai_text::parse_sse_delta(line), Some("b".to_string()));
    assert_eq!(local_openai_text::parse_sse_delta(SseLine::Done), None);
    let deltas = local_openai_text::text_deltas(vec![
        SseLine::Ignored,
        SseLine::Data(content_chunk(&[Some("hel")])),
        SseLine::Data(content_chunk(&[Some("")])),
        SseLine::Data(content_chunk(&[Some("lo")])),
        SseLine::Done,
    ]);
    assert_eq!(deltas, vec!["hel".to_string(), "lo".to_string()]);
}

#[test]
fn utf8_push_keeps_cut_characters_pending() {
    let bytes = "héllo".as_bytes();
    let mut pending = Vec::new();
    let mut text = String::new();
    push_utf8_text(&mut pending, &mut text, &bytes[..2]).unwrap();
    assert_eq!(text, "h");
    assert_eq!(pending, vec![bytes[1]]);
    push_utf8_text(&mut pending, &mut text, &bytes[2..]).unwrap();
    assert_eq!(text, "héllo");
    assert!(pending.is_empty());
    flush_utf8_text(&mut pending, &mut text).unwrap();
    assert_eq!(text, "héllo");
}

#[test]
fn utf8_push_rejects_invalid_bytes_and_flush_rejects_cut_characters() {
    let mut pending = Vec::new();
    let mut text = String::new();
    let e = push_utf8_text(&mut pending, &mut text, &[b'a', 0xff, b'b']).unwrap_err();
    assert_eq!(other_message(&e), "Local OpenAI backend received invalid UTF-8 in SSE response");
    assert_eq!(text, "a");
    assert_eq!(pending, vec![0xff, b'b']);

    let mut pending = Vec::new();
    let mut text = String::new();
    push_utf8_text(&mut pending, &mut text, &[0xe2, 0x82]).unwrap();
    assert_eq!(text, "");
    let e = flush_utf8_text(&mut pending, &mut text).unwrap_err();
    assert_eq!(other_message(&e), "Local OpenAI backend received incomplete UTF-8 in SSE response");
    assert_eq!(pending, vec![0xe2, 0x82]);
}

/// The lines a reader gives for `body` cut at `cuts`.
fn read_lines(body: &[u8], cuts: &[usize]) -> Vec<String> {
    let mut reader = SseReader::new();
    let mut lines = Vec::new();
    let mut start = 0;
    for &end in cuts.iter().chain(std::iter::once(&body.len())) {
        reader.push(&body[start..end]).unwrap();
        lines.extend(reader.take_lines());
        start = end;
    }
    if let Some(rest) = reader.finish().unwrap() {
        lines.push(rest);
    }
    lines
}

#[test]
fn sse_reader_lines_do_not_depend_on_chunking() {
    let body = "data: {\"content\":\"h\u{e9}llo\"}\r\n\ndata: \u{20ac}\u{1d11e}\ndata: [DONE]".as_bytes();
    let whole = read_lines(body, &[]);
    assert_eq!(
        whole,
        vec![
            "data: {\"content\":\"h\u{e9}llo\"}".to_string(),
            String::new(),
            "data: \u{20ac}\u{1d11e}".to_string(),
            "data: [DONE]".to_string(),
        ]
    );
    for a in 0..=body.len() {
        for b in a..=body.len() {
            assert_eq!(read_lines(body, &[a, b]), whole);
        }
    }
}

#[test]
fn line_step_stops_at_done_and_skips_silent_lines() {
    assert_eq!(line_step(SseLine::Done), LineStep::Stop);
    assert_eq!(line_step(SseLine::Ignored), LineStep::Skip);
    assert_eq!(line_step(SseLine::Data(ChatCompletionChunk { choices: vec![] })), LineStep::Skip);
    let chunk = ChatCompletionChunk {
        choices: vec![ChatCompletionChoice {
            delta: ChatCompletionDelta { content: Some("hi".to_string()), tool_calls: None },
            finish_reason: None,
        }],
    };
    assert_eq!(
        line_step(SseLine::Data(chunk)),
        LineStep::Yield(OpenAIStreamEvent::Content("hi".to_string()))
    );
}

#[test]
fn utf8_push_fails_exactly_where_no_character_can_follow() {
    // Starts of a character's encoding cut off at the end stay pending.
    for cut in [&[0xc3u8][..], &[0xe0, 0xa0], &[0xed, 0x9f], &[0xf0, 0x90, 0x80], &[0xf4, 0x8f, 0xbf]] {
        let mut pending = Vec::new();
        let mut text = String::from("x");
        push_utf8_text(&mut pending, &mut text, cut).unwrap();
        assert_eq!(pending, cut.to_vec());
        assert_eq!(text, "x");
        assert!(pending.len() <= 3);
    }
    // Bytes that no character's encoding starts with fail at once: stray
    // bytes, an overlong start, a surrogate, a value above U+10FFFF.
    for bad in [&[0xffu8][..], &[0x80], &[0xf8], &[0xe0, 0x80], &[0xed, 0xa0], &[0xf4, 0x90]] {
        let mut pending = Vec::new();
        let mut text = String::new();
        assert!(push_utf8_text(&mut pending, &mut text, bad).is_err());
        assert!(std::str::from_utf8(bad).unwrap_err().error_len().is_some());
    }
}

#[test]
fn utf8_flush_after_push_reports_a_cut_character() {
    let mut pending = Vec::new();
    let mut text = String::new();
    push_utf8_text(&mut pending, &mut text, "é".as_bytes()).unwrap();
    flush_utf8_text(&mut pending, &mut text).unwrap();
    assert_eq!(text, "é");
    assert!(pending.is_empty());

    let mut reader = SseReader::new();
    reader.push(&[b'a', 0xe2, 0x82]).unwrap();
    assert!(reader.finish().is_err());
    assert_eq!(reader.pending_bytes, vec![0xe2, 0x82]);
    assert_eq!(reader.text_buffer, "a");
}

#[test]
fn utf8_decoding_chunk_by_chunk_matches_whole_decoding() {
    let whole = "data: {\"content\":\"héllo wörld €𝄞\"}\n";
    let bytes = whole.as_bytes();
    for cut in 0..=bytes.len() {
        for cut2 in cut..=bytes.len() {
            let mut pending = Vec::new();
            let mut text = String::new();
            push_utf8_text(&mut pending, &mut text, &bytes[..cut]).unwrap();
            push_utf8_text(&mut pending, &mut text, &bytes[cut..cut2]).unwrap();
            push_utf8_text(&mut pending, &mut text, &bytes[cut2..]).unwrap();
            flush_utf8_text(&mut pending, &mut text).unwrap();
            assert_eq!(text, whole);
            assert!(pending.is_empty());
        }
    }
}

#[test]
fn take_sse_line_splits_lines() {
    let mut buffer = "a\r\nb\n\nc".to_string();
    assert_eq!(take_sse_line(&mut buffer), Some("a".to_string()));
    assert_eq!(buffer, "b\n\nc");
    assert_eq!(take_sse_line(&mut buffer), Some("b".to_string()));
    assert_eq!(take_sse_line(&mut buffer), Some(String::new()));
    assert_eq!(take_sse_line(&mut buffer), None);
    assert_eq!(buffer, "c");
}

#[test]
fn sse_reader_reads_lines_across_chunks() {
    let body = "data: {\"a\":1}\r\n\ndata: [DONE]\nrest";
    let mut reader = SseReader::new();
    let mut lines = Vec::new();
    for chunk in body.as_bytes().chunks(3) {
        reader.push(chunk).unwrap();
        while let Some(line) = reader.next_line() {
            lines.push(line);
        }
    }
    assert_eq!(lines, vec!["data: {\"a\":1}", "", "data: [DONE]"]);
    assert_eq!(reader.finish().unwrap(), Some("rest".to_string()));
    assert_eq!(SseReader::new().finish().unwrap(), None);
}

#[test]
fn chat_url_drops_trailing_slashes() {
    assert_eq!(chat_completions_url("http://h/v1"), "http://h/v1/chat/completions");
    assert_eq!(chat_completions_url("http://h/v1//"), "http://h/v1/chat/completions");
    assert_eq!(chat_completions_url(""), "/chat/completions");
}

#[test]
fn request_offers_tool_choice_only_with_tools() {
    let r = chat_completions_request("m".to_string(), vec![], vec![], DEFAULT_LOCAL_MAX_TOKENS);
    assert!(r.stream);
    assert_eq!(r.max_tokens, 4096);
    assert_eq!(r.tool_choice, None);
}

#[test]
fn local_openai_text_posts_to_configured_base_url_and_emits_text_events() {
    let start = start_local_stream(
        settings(Some("sk-local"), Some("http://127.0.0.1:1234/v1"), Some("local-model")),
        &params(vec![user_query_input("hello")], vec![task("task-1", vec![])]),
        vec![],
    )
    .unwrap();
    assert_eq!(start.api_key, "sk-local");
    assert_eq!(chat_completions_url(&start.base_url), "http://127.0.0.1:1234/v1/chat/completions");
    assert_eq!(start.request.model, "local-model");
    assert!(start.request.stream);
    assert_eq!(start.request.messages.len(), 1);
    assert_eq!(start.request.messages[0].role, "user");
    assert_eq!(start.request.messages[0].content.as_deref(), Some("hello"));
    assert_eq!(start.opening_events.len(), 1);
    assert!(matches!(start.opening_events[0].event_type, Some(ResponseEventType::Init(_))));

    let mut state = start.stream;
    let second = state.on_content("hel".to_string());
    let third = state.on_content("lo".to_string());
    let closing = state.finish(vec![]);
    assert_eq!(closing.len(), 1);
    assert!(matches!(closing[0].event_type, Some(ResponseEventType::Finished(_))));
    match single_action(&second) {
        Action::AddMessagesToTask { task_id, messages } => {
            assert_eq!(task_id, "task-1");
            assert_eq!(output_text(&messages[0]), "hel");
        }
        other => panic!("unexpected {other:?}"),
    }
    match single_action(&third) {
        Action::AppendToMessageContent { task_id, message: Some(m), mask: Some(mask) } => {
            assert_eq!(task_id, "task-1");
            assert_eq!(mask.paths, vec!["agent_output.text".to_string()]);
            assert_eq!(output_text(m), "lo");
        }
        other => panic!("unexpected {other:?}"),
    }
}

#[test]
fn local_openai_text_creates_task_when_request_has_no_active_tasks() {
    let start = start_local_stream(
        settings(Some("sk-local"), Some("http://h/v1"), Some("local-model")),
        &params(vec![user_query_input("hello")], vec![]),
        vec![],
    )
    .unwrap();
    assert_eq!(start.opening_events.len(), 2);
    match &start.opening_events[0].event_type {
        Some(ResponseEventType::Init(init)) => {
            assert!(init.conversation_id.is_empty());
            assert!(init.run_id.starts_with("local-openai-text-"));
            assert!(is_uuid(&init.run_id["local-openai-text-".len()..]));
        }
        other => panic!("unexpected {other:?}"),
    }
    let created_id = match single_action(&start.opening_events[1]) {
        Action::CreateTask { task: Some(t) } => {
            assert_eq!(t.description, "hello");
            t.id.clone()
        }
        other => panic!("unexpected {other:?}"),
    };
    assert!(!created_id.is_empty());
    let mut state = start.stream;
    match single_action(&state.on_content("hello".to_string())) {
        Action::AddMessagesToTask { task_id, .. } => assert_eq!(task_id, &created_id),
        other => panic!("unexpected {other:?}"),
    }
}

#[test]
fn local_openai_text_uses_selected_model_when_local_model_setting_is_empty() {
    let mut p = params(vec![user_query_input("hello")], vec![task("task-1", vec![])]);
    p.model = "selected-model".to_string();
    let start = start_local_stream(settings(Some("sk-local"), Some("http://h/v1"), None), &p, vec![])
        .unwrap();
    assert_eq!(start.request.model, "selected-model");
}

#[test]
fn local_openai_text_requests_default_completion_token_budget() {
    let start = start_local_stream(
        settings(Some("sk-local"), Some("http://h/v1"), Some("local-model")),
        &params(vec![user_query_input("hello")], vec![task("task-1", vec![])]),
        vec![],
    )
    .unwrap();
    assert_eq!(start.request.max_tokens, 4096);
}

#[test]
fn start_local_stream_reports_the_first_failure() {
    let p = params(vec![user_query_input("hello")], vec![]);
    let e = start_local_stream(settings(None, None, None), &p, vec![]).err().unwrap();
    assert_eq!(other_message(&e), "OpenAI API key is required for the local OpenAI text backend");
    let e = start_local_stream(settings(Some("k"), Some(" "), None), &p, vec![]).err().unwrap();
    assert_eq!(other_message(&e), "OpenAI Base URL is required for the local OpenAI text backend");
    let e = start_local_stream(settings(Some("k"), Some("u"), None), &params(vec![], vec![]), vec![])
        .err()
        .unwrap();
    assert_eq!(other_message(&e), "Local OpenAI backend received no chat messages");
}

#[test]
fn stream_without_text_adds_an_empty_message() {
    let state = LocalStream {
        task_id: "t".to_string(),
        request_id: "r".to_string(),
        message_id: "m".to_string(),
        has_message: false,
    };
    let events = state.finish(vec![]);
    assert_eq!(events.len(), 2);
    match single_action(&events[0]) {
        Action::AddMessagesToTask { messages, .. } => assert_eq!(output_text(&messages[0]), ""),
        other => panic!("unexpected {other:?}"),
    }
    let state = LocalStream {
        task_id: "t".to_string(),
        request_id: "r".to_string(),
        message_id: "m".to_string(),
        has_message: false,
    };
    let tool_message = message(MessageContent::ToolCall(ToolCall {
        tool_call_id: "c".to_string(),
        tool: Some(Tool::RunShellCommand(shell("pwd", None))),
    }));
    let events = state.finish(vec![tool_message.clone()]);
    assert_eq!(events.len(), 2);
    assert_eq!(events[0], add_messages_event("t", vec![tool_message]));
    assert_eq!(events[1], finished_event());
}

#[test]
fn event_constructors() {
    let init = init_event(String::new(), "r".to_string(), "run".to_string());
    assert!(matches!(init.event_type, Some(ResponseEventType::Init(ref i)) if i.request_id == "r"));
    let m = agent_output_message("m", "t", "r", "x".to_string());
    assert_eq!(m.id, "m");
    assert_eq!(output_text(&m), "x");
    let created = create_task_event(task("t", vec![]));
    assert!(matches!(single_action(&created), Action::CreateTask { .. }));
    let append = local_openai_text::append_message_event("t", m.clone());
    match single_action(&append) {
        Action::AppendToMessageContent { mask: Some(mask), .. } => {
            assert_eq!(mask.paths, vec!["message.agent_output.text".to_string()])
        }
        other => panic!("unexpected {other:?}"),
    }
    let append = append_message_event("t", m);
    match single_action(&append) {
        Action::AppendToMessageContent { mask: Some(mask), .. } => {
            assert_eq!(mask.paths, vec!["agent_output.text".to_string()])
        }
        other => panic!("unexpected {other:?}"),
    }
}

#[test]
fn shell_arguments_are_json_with_escaped_command() {
    let args = run_shell_arguments(&shell("echo \"hi\"\n", Some(true)));
    assert_eq!(
        args,
        r#"{"command":"echo \"hi\"\n","is_read_only":true,"is_risky":false,"uses_pager":false,"wait_until_completion":true}"#
    );
    let args = run_shell_arguments(&shell("pwd", None));
    assert_eq!(
        args,
        r#"{"command":"pwd","is_read_only":true,"is_risky":false,"uses_pager":false,"wait_until_completion":null}"#
    );
    let parsed: serde_json::Value = serde_json::from_str(&args).unwrap();
    assert_eq!(parsed["command"], "pwd");
}

#[test]
fn tool_call_replay_errors() {
    let missing = ToolCall { tool_call_id: "c".to_string(), tool: None };
    let e = openai_name_for_warp_tool_call(&missing).unwrap_err();
    assert_eq!(other_message(&e), "Tool call is missing tool payload");
    let other = ToolCall { tool_call_id: "c".to_string(), tool: Some(Tool::Other("Grep".to_string())) };
    let e = openai_name_for_warp_tool_call(&other).unwrap_err();
    assert_eq!(other_message(&e), "Local OpenAI backend cannot replay unsupported Warp tool call");
    let e = openai_arguments_for_warp_tool_call(&other).unwrap_err();
    assert_eq!(other_message(&e), "Local OpenAI backend cannot serialize unsupported Warp tool call");
    let e = openai_tool_call_from_warp_tool_call(&other).unwrap_err();
    assert_eq!(other_message(&e), "Local OpenAI backend cannot replay unsupported Warp tool call");
    let shell_call = ToolCall {
        tool_call_id: "c".to_string(),
        tool: Some(Tool::RunShellCommand(shell("ls", Some(false)))),
    };
    let call = openai_tool_call_from_warp_tool_call(&shell_call).unwrap();
    assert_eq!(call.id, "c");
    assert_eq!(call.call_type, "function");
    assert_eq!(call.function.name, "run_shell_command");
    assert!(call.function.arguments.ends_with("\"wait_until_completion\":false}"));
}

#[test]
fn task_messages_become_chat_messages() {
    let m = message_from_task_message(&message(MessageContent::AgentOutput { text: "hi".to_string() }))
        .unwrap()
        .unwrap();
    assert_eq!((m.role, m.content.as_deref()), ("assistant", Some("hi")));
    let m = message_from_task_message(&message(MessageContent::ToolCallResult(ToolCallResult {
        tool_call_id: "call_9".to_string(),
        result: None,
        rendered: None,
    })))
    .unwrap()
    .unwrap();
    assert_eq!(m.role, "tool");
    assert_eq!(m.content.as_deref(), Some("Tool result recorded for call_9"));
    assert_eq!(m.tool_call_id.as_deref(), Some("call_9"));
    assert_eq!(message_from_task_message(&message(MessageContent::Other("x".to_string()))).unwrap(), None);
    let mut none = message(MessageContent::Other("x".to_string()));
    none.message = None;
    assert_eq!(message_from_task_message(&none).unwrap(), None);
}

#[test]
fn history_orders_task_messages_then_inputs_and_keeps_tool_results() {
    let p = params(
        vec![
            user_query_input("  next  "),
            AIAgentInput::ActionResult {
                result: action_result(RequestInputConversion::ToolCallResult(Some(ToolResult {
                    kind: ToolResultKind::Grep,
                    payload: vec![1, 2, 3],
                }))),
            },
        ],
        vec![
            task("t1", vec![message(MessageContent::UserQuery { query: "first".to_string() })]),
            task("t2", vec![message(MessageContent::AgentOutput { text: "answer".to_string() })]),
        ],
    );
    let h = build_openai_history(&p).unwrap();
    let roles: Vec<_> = h.messages.iter().map(|m| (m.role, m.content.clone())).collect();
    assert_eq!(
        roles,
        vec![
            ("user", Some("first".to_string())),
            ("assistant", Some("answer".to_string())),
            ("user", Some("next".to_string())),
            ("tool", Some("output".to_string())),
        ]
    );
    assert_eq!(h.task_description_fallback(), "first");
    assert_eq!(h.messages_to_persist.len(), 1);
    let kept = &h.messages_to_persist[0];
    assert!(is_uuid(&kept.id));
    assert_eq!(kept.task_id, "task-1");
    match &kept.message {
        Some(MessageContent::ToolCallResult(r)) => {
            assert_eq!(r.tool_call_id, "call_1");
            assert_eq!(r.result, Some(ToolResult { kind: ToolResultKind::Grep, payload: vec![1, 2, 3] }));
        }
        other => panic!("unexpected {other:?}"),
    }
}

#[test]
fn history_errors() {
    let e = build_openai_history(&params(vec![], vec![])).err().unwrap();
    assert_eq!(other_message(&e), "Local OpenAI backend received no chat messages");
    let e = build_openai_history(&params(vec![user_query_input(" ")], vec![])).err().unwrap();
    assert_eq!(other_message(&e), "Local OpenAI backend does not support input type UserQuery");
    let e = build_openai_history(&params(vec![AIAgentInput::ResumeConversation], vec![]))
        .err()
        .unwrap();
    assert_eq!(other_message(&e), "Local OpenAI backend does not support input type ResumeConversation");
    let bad_call = message(MessageContent::ToolCall(ToolCall { tool_call_id: "c".to_string(), tool: None }));
    let e = build_openai_history(&params(vec![user_query_input("q")], vec![task("t", vec![bad_call])]))
        .err()
        .unwrap();
    assert_eq!(other_message(&e), "Tool call is missing tool payload");
    let no_user = params(vec![], vec![task("t", vec![message(MessageContent::AgentOutput {
        text: "a".to_string(),
    })])]);
    assert_eq!(build_openai_history(&no_user).ok().unwrap().task_description_fallback(), "Local OpenAI conversation");
}

#[test]
fn action_results_that_cannot_be_kept() {
    let cases = [
        (
            RequestInputConversion::Failed("bad".to_string()),
            "Local OpenAI backend could not convert tool result for history: bad",
        ),
        (
            RequestInputConversion::NonToolInput,
            "Local OpenAI backend converted an action result into a non-tool input",
        ),
        (RequestInputConversion::ToolCallResult(None), "Local OpenAI backend converted an empty tool result"),
        (
            RequestInputConversion::ToolCallResult(Some(ToolResult {
                kind: ToolResultKind::SuggestPlan,
                payload: vec![],
            })),
            "Local OpenAI backend cannot persist unsupported tool result SuggestPlan",
        ),
    ];
    for (conversion, expected) in cases {
        let result = action_result(conversion);
        let e = tool_call_result_message_from_action_result(&result).unwrap_err();
        assert_eq!(other_message(&e), expected);
        let e = build_openai_history(&params(vec![AIAgentInput::ActionResult { result }], vec![]))
            .err()
            .unwrap();
        assert_eq!(other_message(&e), expected);
    }
}

#[test]
fn text_stream_start_and_reply() {
    let mut p = params(vec![user_query_input(" hello ")], vec![task(" task-1 ", vec![])]);
    p.conversation_token = Some("conv-1".to_string());
    let start = local_openai_text::start_text_stream(
        settings(Some("sk"), Some("http://h/v1/"), None),
        &p,
    )
    .ok()
    .unwrap();
    assert_eq!(start.request.model, "gpt-4o-mini");
    assert_eq!(start.request.messages[0].content, "hello");
    assert_eq!(start.stream.task_id, "task-1");
    assert!(!start.stream.has_message);
    match &start.init.event_type {
        Some(ResponseEventType::Init(init)) => {
            assert_eq!(init.conversation_id, "conv-1");
            assert_eq!(init.run_id, "local-openai-text-conv-1");
        }
        other => panic!("unexpected {other:?}"),
    }
    let events = local_openai_text::text_reply_events(
        start.stream,
        vec!["hel".to_string(), "lo".to_string()],
    );
    assert_eq!(events.len(), 3);
    match single_action(&events[0]) {
        Action::AddMessagesToTask { task_id: t, messages } => {
            assert_eq!(t, "task-1");
            assert_eq!(output_text(&messages[0]), "hel");
        }
        other => panic!("unexpected {other:?}"),
    }
    assert!(matches!(single_action(&events[1]), Action::AppendToMessageContent { .. }));
    assert_eq!(events[2], finished_event());

    let e = local_openai_text::start_text_stream(
        settings(Some("sk"), Some("u"), None),
        &params(vec![AIAgentInput::ResumeConversation], vec![task("task-1", vec![])]),
    )
    .err()
    .unwrap();
    assert!(format!("{e:?}").contains("only supports plain user queries"));
}

#[test]
fn text_stream_requires_an_active_task() {
    for tasks in [vec![], vec![task("  ", vec![])]] {
        let e = local_openai_text::start_text_stream(
            settings(Some("sk"), Some("http://h/v1"), None),
            &params(vec![user_query_input("hello")], tasks),
        )
        .err()
        .unwrap();
        assert_eq!(other_message(&e), "Local OpenAI text backend requires an active task");
    }
    // The query is checked before the task.
    let e = local_openai_text::start_text_stream(
        settings(Some("sk"), Some("http://h/v1"), None),
        &params(vec![user_query_input("  ")], vec![]),
    )
    .err()
    .unwrap();
    assert_eq!(other_message(&e), "Local OpenAI text backend received an empty user query");
}

#[test]
fn text_reply_without_deltas_adds_an_empty_message() {
    let state = LocalStream {
        task_id: "t".to_string(),
        request_id: "r".to_string(),
        message_id: "m".to_string(),
        has_message: false,
    };
    let events = local_openai_text::text_reply_events(state, vec![]);
    assert_eq!(events.len(), 2);
    match single_action(&events[0]) {
        Action::AddMessagesToTask { messages, .. } => assert_eq!(output_text(&messages[0]), ""),
        other => panic!("unexpected {other:?}"),
    }
    let existing = LocalStream {
        task_id: "t".to_string(),
        request_id: "r".to_string(),
        message_id: "m".to_string(),
        has_message: true,
    };
    let events = local_openai_text::text_reply_events(existing, vec!["more".to_string()]);
    assert_eq!(events.len(), 2);
    assert!(matches!(single_action(&events[0]), Action::AppendToMessageContent { .. }));
    assert_eq!(events[1], finished_event());
}

/// The escaping that the library states of `serde_json` string literals.
fn stated_json_literal(s: &str) -> String {
    let mut out = String::from("\"");
    for c in s.chars() {
        match c {
            '"' => out.push_str("\\\""),
            '\\' => out.push_str("\\\\"),
            '\u{8}' => out.push_str("\\b"),
            '\t' => out.push_str("\\t"),
            '\n' => out.push_str("\\n"),
            '\u{c}' => out.push_str("\\f"),
            '\r' => out.push_str("\\r"),
            c if (c as u32) < 0x20 => out.push_str(&format!("\\u00{:02x}", c as u32)),
            c => out.push(c),
        }
    }
    out.push('"');
    out
}

#[test]
fn json_literals_escape_as_stated() {
    for u in 0u32..0x800 {
        if let Some(c) = char::from_u32(u) {
            let s = format!("a{c}b");
            assert_eq!(serde_json::to_string(&s).unwrap(), stated_json_literal(&s), "U+{u:04X}");
        }
    }
    let args = run_shell_arguments(&shell("a\u{1}\u{7f}é\t\\", None));
    assert_eq!(
        args,
        "{\"command\":\"a\\u0001\u{7f}é\\t\\\\\",\"is_read_only\":true,\"is_risky\":false,\"uses_pager\":false,\"wait_until_completion\":null}"
    );
}

#[test]
fn stream_steps_follow_the_reply() {
    let mut state = LocalStream {
        task_id: "t".to_string(),
        request_id: "r".to_string(),
        message_id: "m".to_string(),
        has_message: false,
    };
    assert!(matches!(
        state.on_stream_event(Ok(OpenAIStreamEvent::Content("a".to_string()))),
        local_openai::local_openai::StreamStep::Emit(_)
    ));
    assert!(state.has_message);
    let fragment = OpenAIToolCallDelta {
        index: 0,
        id: None,
        function_name: None,
        arguments_delta: String::new(),
    };
    assert!(matches!(
        state.on_stream_event(Ok(OpenAIStreamEvent::ToolCallDelta(fragment))),
        local_openai::local_openai::StreamStep::Continue
    ));
    assert!(matches!(state.on_stream_event(Ok(OpenAIStreamEvent::Done)), local_openai::local_openai::StreamStep::End));
    let failed = state.on_stream_event(Err(AIApiError::ErrorStatus(500, "boom".to_string())));
    assert!(matches!(failed, local_openai::local_openai::StreamStep::Fail(AIApiError::ErrorStatus(500, ref b)) if b == "boom"));
}
