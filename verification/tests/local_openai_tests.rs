use local_openai::api::{AIAgentInput, RequestParams, Task};
use local_openai::local_openai::chat::{
    classify_sse_line, parse_sse_delta, parse_sse_event, ChatCompletionChoice,
    ChatCompletionChunk, ChatCompletionDelta, ChatCompletionToolCallDelta,
    ChatCompletionToolCallFunctionDelta, OpenAIStreamEvent, OpenAIToolCallDelta, SseLine,
};
use local_openai::local_openai::{active_task_id, extract_user_query, DEFAULT_LOCAL_MODEL};

fn request_params() -> RequestParams {
    RequestParams {
        input: vec![],
        tasks: vec![],
        model: "test-model".to_string(),
        conversation_token: None,
    }
}

fn user_query_input(query: &str) -> AIAgentInput {
    AIAgentInput::UserQuery { query: query.to_owned() }
}

/// Decodes the JSON payload of a chunk line into the library's chunk, field
/// by field as the chat-completions stream writes it.
fn chunk_from_json(payload: &str) -> ChatCompletionChunk {
    let v: serde_json::Value = serde_json::from_str(payload).expect("valid JSON");
    let text = |x: &serde_json::Value| x.as_str().map(str::to_string);
    ChatCompletionChunk {
        choices: v["choices"]
            .as_array()
            .expect("choices")
            .iter()
            .map(|c| ChatCompletionChoice {
                delta: ChatCompletionDelta {
                    content: text(&c["delta"]["content"]),
                    tool_calls: c["delta"]["tool_calls"].as_array().map(|calls| {
                        calls
                            .iter()
                            .map(|t| ChatCompletionToolCallDelta {
                                index: t["index"].as_u64().expect("index") as usize,
                                id: text(&t["id"]),
                                function: t.get("function").map(|f| {
                                    ChatCompletionToolCallFunctionDelta {
                                        name: text(&f["name"]),
                                        arguments: text(&f["arguments"]),
                                    }
                                }),
                            })
                            .collect()
                    }),
                },
                finish_reason: text(&c["finish_reason"]),
            })
            .collect(),
    }
}

/// The decoded line: its classification, with the payload of a data line
/// decoded from JSON.
fn decode_line(line: &str) -> SseLine<ChatCompletionChunk> {
    match classify_sse_line(line) {
        SseLine::Ignored => SseLine::Ignored,
        SseLine::Done => SseLine::Done,
        SseLine::Data(payload) => SseLine::Data(chunk_from_json(&payload)),
    }
}

#[test]
fn local_openai_text_parses_chat_completion_delta() {
    let line = r#"data: {"choices":[{"delta":{"content":"hello"}}]}"#;

    let delta = parse_sse_delta(decode_line(line));

    assert_eq!(delta.as_deref(), Some("hello"));
}

#[test]
fn local_openai_text_ignores_done_delta() {
    let delta = parse_sse_delta(decode_line("data: [DONE]"));

    assert_eq!(delta, None);
}

#[test]
fn local_openai_parses_content_and_tool_call_chunks() {
    let content_line = r#"data: {"choices":[{"delta":{"content":"hello"}}]}"#;
    let tool_line = r#"data: {"choices":[{"delta":{"tool_calls":[{"index":0,"id":"call_1","type":"function","function":{"name":"run_shell_command","arguments":"{\"command\":\"pwd\"}"}}]},"finish_reason":"tool_calls"}]}"#;

    let content = parse_sse_event(decode_line(content_line)).expect("content line parses");
    assert_eq!(content, OpenAIStreamEvent::Content("hello".to_string()));

    let tool = parse_sse_event(decode_line(tool_line)).expect("tool line parses");
    assert_eq!(
        tool,
        OpenAIStreamEvent::ToolCallDelta(OpenAIToolCallDelta {
            index: 0,
            id: Some("call_1".to_string()),
            function_name: Some("run_shell_command".to_string()),
            arguments_delta: "{\"command\":\"pwd\"}".to_string(),
        })
    );
}

#[test]
fn local_openai_text_extracts_plain_user_query() {
    let input = vec![user_query_input(" hello ")];

    let query = extract_user_query(&input).unwrap();

    assert_eq!(query, "hello");
}

#[test]
fn local_openai_text_rejects_non_user_query() {
    let input = vec![AIAgentInput::ResumeConversation];

    let error = extract_user_query(&input).unwrap_err();

    assert!(format!("{error:?}").contains("only supports plain user queries"));
}

#[test]
fn local_openai_text_uses_default_model_constant() {
    assert_eq!(DEFAULT_LOCAL_MODEL, "gpt-4o-mini");
}

#[test]
fn local_openai_text_extracts_active_task_id() {
    let mut params = request_params();
    params.tasks = vec![Task {
        id: " task-1 ".to_string(),
        description: String::new(),
        messages: vec![],
    }];

    let task_id = active_task_id(&params).unwrap();

    assert_eq!(task_id, "task-1");
}
