//! The local OpenAI-compatible backend with chat history: resolving the
//! settings and the request, and deciding which events the response stream
//! carries.

pub mod chat;
pub mod events;
pub mod history;
pub mod tools;

pub use self::chat::{flush_utf8_text, parse_sse_delta, push_utf8_text, take_sse_line};

use vstd::prelude::*;

use crate::api::{
    AIAgentInput, LocalOpenAIBackendSettings, Message, RequestParams, ResponseEvent, Task,
};
use crate::local_openai::chat::{
    chat_completions_request, chat_messages_view, ChatCompletionsRequest, ChatMessageModel,
    OpenAIStreamEvent, OpenAITool,
};
use crate::local_openai::events::{
    add_message_event, add_messages_event, agent_output_field_mask, agent_output_message,
    append_message_event_with_mask, assembled_output, concat_texts, finished_event, init_event,
    is_add_messages_event, is_add_output_event, is_append_output_event,
    is_finished_event, output_of_event,
};
use crate::local_openai::history::{
    action_results, build_openai_history, first_user_content, history_spec, persists_results,
};
use crate::error::AIApiError;
use crate::ids::{is_uuid_text, new_uuid_text};
use crate::text::{
    is_white_space_spec, lemma_trim_idempotent, lemma_trim_unchanged, trim_spec, trimmed,
};

verus! {

/// The model used when neither the settings nor the request name one.
pub const DEFAULT_LOCAL_MODEL: &'static str = "gpt-4o-mini";

/// The number of tokens a completion may use.
pub const DEFAULT_LOCAL_MAX_TOKENS: u32 = 4096;

/// The message of the error for a required setting that is missing.
pub open spec fn missing_setting_message(name: Seq<char>) -> Seq<char> {
    name + " is required for the local OpenAI text backend"@
}

/// The message of the error for a request without inputs.
pub open spec fn empty_request_message() -> Seq<char> {
    "Local OpenAI text backend received an empty request"@
}

/// The message of the error for a blank user query.
pub open spec fn empty_user_query_message() -> Seq<char> {
    "Local OpenAI text backend received an empty user query"@
}

/// The message of the error for an input other than a user query.
pub open spec fn unsupported_input_message(kind: Seq<char>) -> Seq<char> {
    "Local OpenAI text backend only supports plain user queries in this phase; received "@ + kind
}

/// The message of the error for a request without an active task.
pub open spec fn missing_active_task_message() -> Seq<char> {
    "Local OpenAI text backend requires an active task"@
}

/// The trimmed value of an optional setting, where it is present and not
/// blank.
pub open spec fn present_setting(value: Option<String>) -> Option<Seq<char>> {
    match value {
        Some(v) => if trim_spec(v@).len() > 0 {
            Some(trim_spec(v@))
        } else {
            None
        },
        None => None,
    }
}

/// The trimmed value of a required setting; fails, naming the setting, where
/// it is absent or blank.
pub fn require_setting(value: Option<String>, name: &str) -> (r: Result<String, AIApiError>)
    ensures
        match present_setting(value) {
            Some(v) => r matches Ok(s) && s@ == v,
            None => r matches Err(e) && e.is_other(missing_setting_message(name@)),
        },
{
    if let Some(v) = value {
        let t = trimmed(v.as_str());
        if t.as_str().is_empty() == false {
            return Ok(t);
        }
    }
    let mut message = String::new();
    message.append(name);
    message.append(" is required for the local OpenAI text backend");
    proof {
        assert(message@ =~= missing_setting_message(name@));
    }
    Err(AIApiError::Other(message))
}

/// The model a request goes out with: the configured model, else the model
/// selected for the request, else the default, each trimmed and taken only
/// where it is not blank.
pub open spec fn local_model_spec(configured_model: Option<String>, selected_model: Seq<char>) -> Seq<
    char,
> {
    match present_setting(configured_model) {
        Some(m) => m,
        None => if trim_spec(selected_model).len() > 0 {
            trim_spec(selected_model)
        } else {
            DEFAULT_LOCAL_MODEL@
        },
    }
}

/// Resolves the model a request goes out with.
pub fn local_model(configured_model: Option<String>, selected_model: &str) -> (r: String)
    ensures
        r@ == local_model_spec(configured_model, selected_model@),
{
    if let Some(m) = configured_model {
        let t = trimmed(m.as_str());
        if t.as_str().is_empty() == false {
            return t;
        }
    }
    let selected = trimmed(selected_model);
    if selected.as_str().is_empty() == false {
        return selected;
    }
    DEFAULT_LOCAL_MODEL.to_owned()
}

/// What `extract_user_query` gives for `inputs`: the last input, which must
/// be a user query that is not blank, trimmed; or the error that says why
/// not.
pub open spec fn extract_user_query_spec(inputs: Seq<AIAgentInput>, r: Result<String, AIApiError>) -> bool {
    if inputs.len() == 0 {
        r matches Err(e) && e.is_other(empty_request_message())
    } else {
        match inputs.last() {
            AIAgentInput::UserQuery { query } => if trim_spec(query@).len() > 0 {
                r matches Ok(q) && q@ == trim_spec(query@)
            } else {
                r matches Err(e) && e.is_other(empty_user_query_message())
            },
            other => r matches Err(e) && e.is_other(
                unsupported_input_message(other.kind_name_spec()),
            ),
        }
    }
}

/// The query of the request: the last input, which must be a plain user
/// query that is not blank, trimmed.
pub fn extract_user_query(inputs: &[AIAgentInput]) -> (r: Result<String, AIApiError>)
    ensures
        extract_user_query_spec(inputs@, r),
{
    if inputs.len() == 0 {
        let mut message = String::new();
        message.append("Local OpenAI text backend received an empty request");
        return Err(AIApiError::Other(message));
    }
    let input = &inputs[inputs.len() - 1];
    match input {
        AIAgentInput::UserQuery { query } => {
            let q = trimmed(query.as_str());
            if q.as_str().is_empty() == false {
                Ok(q)
            } else {
                let mut message = String::new();
                message.append("Local OpenAI text backend received an empty user query");
                Err(AIApiError::Other(message))
            }
        },
        other => {
            let mut message = String::new();
            message.append("Local OpenAI text backend only supports plain user queries in this phase; received ");
            let kind = other.kind_name();
            message.append(kind.as_str());
            Err(AIApiError::Other(message))
        },
    }
}

/// The id of the request's first task, trimmed, where there is a task and its
/// id is not blank.
pub open spec fn first_task_id(tasks: Seq<Task>) -> Option<Seq<char>> {
    if tasks.len() > 0 && trim_spec(tasks[0].id@).len() > 0 {
        Some(trim_spec(tasks[0].id@))
    } else {
        None
    }
}

/// The trimmed id of the first task of the request, which must be there.
pub fn active_task_id(params: &RequestParams) -> (r: Result<String, AIApiError>)
    ensures
        match first_task_id(params.tasks@) {
            Some(id) => r matches Ok(s) && s@ == id,
            None => r matches Err(e) && e.is_other(missing_active_task_message()),
        },
{
    if params.tasks.len() > 0 {
        let id = trimmed(params.tasks[0].id.as_str());
        if id.as_str().is_empty() == false {
            return Ok(id);
        }
    }
    let mut message = String::new();
    message.append("Local OpenAI text backend requires an active task");
    Err(AIApiError::Other(message))
}

/// The task the response goes to, and the event that creates it where the
/// request had none.
pub struct ActiveTask {
    pub id: String,
    pub create_event: Option<ResponseEvent>,
}

/// Whether `t` is the active task of a request with `tasks` whose prompt is
/// `prompt`: the first task, where its id is not blank; else a new task with a
/// fresh UUID as its id and the prompt as its description, with the event
/// that creates it.
pub open spec fn is_active_task(t: ActiveTask, tasks: Seq<Task>, prompt: Seq<char>) -> bool {
    match first_task_id(tasks) {
        Some(id) => t.id@ == id && t.create_event is None,
        None => {
            &&& is_uuid_text(t.id@)
            &&& t.create_event matches Some(e)
            &&& e.event_type matches Some(crate::api::ResponseEventType::ClientActions(actions))
            &&& actions@.len() == 1
            &&& actions@[0].action matches Some(crate::api::Action::CreateTask { task: Some(task) })
            &&& task.id@ == t.id@
            &&& task.description@ == prompt
            &&& task.messages@.len() == 0
        },
    }
}

/// The task the response goes to: the request's first task, or a new one
/// described by `prompt`.
pub fn active_task(params: &RequestParams, prompt: &str) -> (t: ActiveTask)
    ensures
        is_active_task(t, params.tasks@, prompt@),
{
    if let Ok(id) = active_task_id(params) {
        return ActiveTask { id, create_event: None };
    }
    let id = new_uuid_text();
    let task = Task { id: id.clone(), description: prompt.to_owned(), messages: Vec::new() };
    ActiveTask { id, create_event: Some(events::create_task_event(task)) }
}

/// The prefix of the run id of a local stream.
pub open spec fn run_id_prefix() -> Seq<char> {
    "local-openai-text-"@
}

/// A local response stream while the model's reply comes in: the task and
/// message that the reply goes to, and whether the reply's message exists
/// yet.
pub struct LocalStream {
    pub task_id: String,
    pub request_id: String,
    pub message_id: String,
    pub has_message: bool,
}

/// What a local stream needs once it has started: where to send the request
/// and what to send, the events that open the response, and the stream's
/// state.
pub struct LocalStreamStart {
    pub api_key: String,
    pub base_url: String,
    pub request: ChatCompletionsRequest,
    pub opening_events: Vec<ResponseEvent>,
    pub stream: LocalStream,
}

/// The first error that starting a local stream meets, if any: a missing API
/// key, a missing base URL, or a history that cannot be built.
pub open spec fn start_error(settings: LocalOpenAIBackendSettings, params: RequestParams) -> Option<
    Seq<char>,
> {
    if present_setting(settings.api_key) is None {
        Some(missing_setting_message("OpenAI API key"@))
    } else if present_setting(settings.base_url) is None {
        Some(missing_setting_message("OpenAI Base URL"@))
    } else {
        match history_spec(params) {
            Err(e) => Some(e),
            Ok(_) => None,
        }
    }
}

/// Whether `e` asks the client to create a task with id `id`, description
/// `description`, and no messages.
pub open spec fn is_new_task_event(e: ResponseEvent, id: Seq<char>, description: Seq<char>) -> bool {
    &&& e.event_type matches Some(crate::api::ResponseEventType::ClientActions(actions))
    &&& actions@.len() == 1
    &&& actions@[0].action matches Some(crate::api::Action::CreateTask { task: Some(task) })
    &&& task.id@ == id
    &&& task.description@ == description
    &&& task.messages@.len() == 0
}

/// Whether `evs` opens the response of the stream `s` for `params` with the
/// chat `history`: the init event (no conversation id, the request id, and a
/// run id made of a fixed prefix and a UUID); then, where the request has no
/// task with an id, the event that creates one with a fresh UUID, described by
/// the first user message; then, where inputs carry tool results, the event
/// that adds to the task the messages that keep them.
pub open spec fn is_opening(
    evs: Seq<ResponseEvent>,
    s: LocalStream,
    params: RequestParams,
    history: Seq<ChatMessageModel>,
) -> bool {
    let results = action_results(params.input@);
    let created: int = if first_task_id(params.tasks@) is Some { 0 } else { 1 };
    let persisted: int = if results.len() > 0 { 1 } else { 0 };
    &&& evs.len() == 1 + created + persisted
    &&& evs[0].event_type matches Some(crate::api::ResponseEventType::Init(init))
    &&& init.conversation_id@.len() == 0
    &&& init.request_id@ == s.request_id@
    &&& run_id_prefix().is_prefix_of(init.run_id@)
    &&& is_uuid_text(init.run_id@.skip(run_id_prefix().len() as int))
    &&& match first_task_id(params.tasks@) {
        Some(id) => s.task_id@ == id,
        None => is_uuid_text(s.task_id@) && is_new_task_event(
            evs[1],
            s.task_id@,
            first_user_content(history),
        ),
    }
    &&& results.len() > 0 ==> is_persist_event(evs[evs.len() - 1], s.task_id@, results)
}

/// Whether `e` adds to the task `task_id` the messages that keep the tool
/// results of `results`.
pub open spec fn is_persist_event(
    e: ResponseEvent,
    task_id: Seq<char>,
    results: Seq<crate::api::AIAgentActionResult>,
) -> bool {
    &&& e.event_type matches Some(crate::api::ResponseEventType::ClientActions(actions))
    &&& actions@.len() == 1
    &&& actions@[0].action matches Some(
        crate::api::Action::AddMessagesToTask { task_id: t, messages },
    )
    &&& t@ == task_id
    &&& persists_results(messages@, results)
}

/// Whether `start` is how a local stream starts for `settings`, `params` and
/// the offered `tools`, where nothing fails: the trimmed key and base URL; a
/// request with the resolved model, the history and the tools, with a budget
/// of `DEFAULT_LOCAL_MAX_TOKENS`; the opening events; and a stream state for
/// the active task with fresh request and message ids and no message yet.
pub open spec fn is_stream_start(
    start: LocalStreamStart,
    settings: LocalOpenAIBackendSettings,
    params: RequestParams,
    tools: Seq<OpenAITool>,
) -> bool {
    let history = history_spec(params)->Ok_0;
    let s = start.stream;
    &&& present_setting(settings.api_key) == Some(start.api_key@)
    &&& present_setting(settings.base_url) == Some(start.base_url@)
    &&& start.request.model@ == local_model_spec(settings.model, params.model@)
    &&& chat_messages_view(start.request.messages@) == history
    &&& start.request.stream
    &&& start.request.max_tokens == DEFAULT_LOCAL_MAX_TOKENS
    &&& start.request.tools@ == tools
    &&& (tools.len() == 0 ==> start.request.tool_choice is None)
    &&& (tools.len() > 0 ==> (start.request.tool_choice matches Some(c) && c@ == "auto"@))
    &&& is_uuid_text(s.request_id@)
    &&& is_uuid_text(s.message_id@)
    &&& !s.has_message
    &&& is_opening(start.opening_events@, s, params, history)
}

/// Starts a local stream: checks the settings, builds the chat history and
/// the request, and decides the events that open the response.
pub fn start_local_stream(
    settings: LocalOpenAIBackendSettings,
    params: &RequestParams,
    tools: Vec<OpenAITool>,
) -> (r: Result<LocalStreamStart, AIApiError>)
    ensures
        match start_error(settings, *params) {
            Some(msg) => r matches Err(e) && e.is_other(msg),
            None => r matches Ok(start) && is_stream_start(start, settings, *params, tools@),
        },
{
    let ghost tools_view = tools@;
    let api_key = match require_setting(settings.api_key, "OpenAI API key") {
        Ok(v) => v,
        Err(e) => return Err(e),
    };
    let base_url = match require_setting(settings.base_url, "OpenAI Base URL") {
        Ok(v) => v,
        Err(e) => return Err(e),
    };
    let model = local_model(settings.model, params.model.as_str());
    let prepared = match build_openai_history(params) {
        Ok(h) => h,
        Err(e) => return Err(e),
    };
    let ghost history = chat_messages_view(prepared.messages@);
    let description = prepared.task_description_fallback();
    let active = active_task(params, description.as_str());
    let request_id = new_uuid_text();
    let mut run_id = String::new();
    run_id.append("local-openai-text-");
    let run_uuid = new_uuid_text();
    run_id.append(run_uuid.as_str());
    let message_id = new_uuid_text();
    proof {
        assert(run_id@.skip(run_id_prefix().len() as int) =~= run_uuid@);
    }
    let ActiveTask { id: task_id, create_event } = active;
    let mut opening_events: Vec<ResponseEvent> = Vec::new();
    opening_events.push(init_event(String::new(), request_id.clone(), run_id));
    if let Some(e) = create_event {
        opening_events.push(e);
    }
    let persisted = prepared.messages_to_persist;
    if persisted.len() > 0 {
        opening_events.push(add_messages_event(task_id.as_str(), persisted));
    }
    let request = chat_completions_request(model, prepared.messages, tools, DEFAULT_LOCAL_MAX_TOKENS);
    let stream = LocalStream { task_id, request_id, message_id, has_message: false };
    Ok(LocalStreamStart { api_key, base_url, request, opening_events, stream })
}

/// Whether `e` is what a stream in state `s` emits for the reply text
/// `delta`, with the field mask path `mask_path` for appended text: the
/// first text adds the reply's message, later text is appended to it.
pub open spec fn is_content_event(e: ResponseEvent, s: LocalStream, delta: Seq<char>, mask_path: Seq<char>) -> bool {
    if !s.has_message {
        is_add_output_event(e, s.task_id@, s.message_id@, s.request_id@, delta)
    } else {
        is_append_output_event(e, s.task_id@, s.message_id@, s.request_id@, delta, mask_path)
    }
}

/// Whether `t` is `s` once the reply's message exists.
pub open spec fn with_message(s: LocalStream, t: LocalStream) -> bool {
    &&& t.task_id == s.task_id
    &&& t.request_id == s.request_id
    &&& t.message_id == s.message_id
    &&& t.has_message
}

/// Whether `evs` closes the stream `s` once the model's reply has ended with
/// the tool call messages `tool_messages`: the event that adds those
/// messages, where there are any; an empty agent output message, where the
/// reply brought neither text nor tool calls; and the finished event.
pub open spec fn is_closing(evs: Seq<ResponseEvent>, s: LocalStream, tool_messages: Seq<Message>) -> bool {
    let has_tools: int = if tool_messages.len() > 0 { 1 } else { 0 };
    let empty: int = if !s.has_message && tool_messages.len() == 0 { 1 } else { 0 };
    &&& evs.len() == has_tools + empty + 1
    &&& tool_messages.len() > 0 ==> is_add_messages_event(evs[0], s.task_id@, tool_messages)
    &&& empty == 1 ==> is_add_output_event(
        evs[0],
        s.task_id@,
        s.message_id@,
        s.request_id@,
        Seq::empty(),
    )
    &&& is_finished_event(evs[evs.len() - 1])
}

/// What a local stream does with an event of the model's reply.
pub enum StreamStep {
    /// Send this event to the client and go on reading.
    Emit(ResponseEvent),
    /// Nothing to send; go on reading.
    Continue,
    /// The reply has ended.
    End,
    /// Send this error to the client and stop.
    Fail(AIApiError),
}

impl LocalStream {
    /// What the stream does with an event of the model's reply: text is sent
    /// as agent output, the end marker ends the reply, an error is passed on
    /// and stops the stream, and a tool call fragment sends nothing.
    pub fn on_stream_event(&mut self, event: Result<OpenAIStreamEvent, AIApiError>) -> (step:
        StreamStep)
        ensures
            match event {
                Ok(OpenAIStreamEvent::Content(d)) => with_message(*old(self), *final(self)) && (
                step matches StreamStep::Emit(e) && is_content_event(
                    e,
                    *old(self),
                    d@,
                    agent_output_field_mask(),
                )),
                Ok(OpenAIStreamEvent::ToolCallDelta(_)) => *final(self) == *old(self)
                    && step is Continue,
                Ok(OpenAIStreamEvent::Done) => *final(self) == *old(self) && step is End,
                Err(x) => *final(self) == *old(self) && step == StreamStep::Fail(x),
            },
    {
        match event {
            Ok(OpenAIStreamEvent::Content(delta)) => StreamStep::Emit(self.on_content(delta)),
            Ok(OpenAIStreamEvent::ToolCallDelta(_)) => StreamStep::Continue,
            Ok(OpenAIStreamEvent::Done) => StreamStep::End,
            Err(error) => StreamStep::Fail(error),
        }
    }

    /// The event for a piece of the reply's text: the first piece adds the
    /// reply's message to the task, later pieces are appended to it.
    pub fn on_content(&mut self, delta: String) -> (e: ResponseEvent)
        ensures
            with_message(*old(self), *final(self)),
            is_content_event(e, *old(self), delta@, agent_output_field_mask()),
    {
        self.on_content_with_mask(delta, "agent_output.text")
    }

    /// The event for a piece of the reply's text, where appended text names
    /// the field mask path `mask_path`.
    pub fn on_content_with_mask(&mut self, delta: String, mask_path: &str) -> (e: ResponseEvent)
        ensures
            with_message(*old(self), *final(self)),
            is_content_event(e, *old(self), delta@, mask_path@),
    {
        let message = agent_output_message(
            self.message_id.as_str(),
            self.task_id.as_str(),
            self.request_id.as_str(),
            delta,
        );
        if self.has_message {
            append_message_event_with_mask(self.task_id.as_str(), message, mask_path)
        } else {
            self.has_message = true;
            add_message_event(self.task_id.as_str(), message)
        }
    }

    /// The events that close the stream once the reply has ended, with the
    /// messages of the tool calls that the reply made.
    pub fn finish(self, tool_call_messages: Vec<Message>) -> (evs: Vec<ResponseEvent>)
        ensures
            is_closing(evs@, self, tool_call_messages@),
    {
        let ghost tools = tool_call_messages@;
        let mut evs: Vec<ResponseEvent> = Vec::new();
        let has_tool_calls = tool_call_messages.len() > 0;
        if has_tool_calls {
            evs.push(add_messages_event(self.task_id.as_str(), tool_call_messages));
        }
        if !self.has_message && !has_tool_calls {
            let message = agent_output_message(
                self.message_id.as_str(),
                self.task_id.as_str(),
                self.request_id.as_str(),
                String::new(),
            );
            evs.push(add_message_event(self.task_id.as_str(), message));
        }
        evs.push(finished_event());
        evs
    }
}

/// The text of a reply streamed piece by piece is the text a client shows:
/// starting with no message, the events that the stream emits for the pieces
/// `deltas`, applied in order, make an agent output that is all the pieces one
/// after another; the first event adds the message and every later one
/// appends to it.
pub proof fn law_streamed_reply_reassembles(
    states: Seq<LocalStream>,
    deltas: Seq<Seq<char>>,
    events: Seq<ResponseEvent>,
    mask_path: Seq<char>,
)
    requires
        states.len() == deltas.len() + 1,
        events.len() == deltas.len(),
        !states[0].has_message,
        forall|k: int|
            0 <= k < deltas.len() ==> is_content_event(
                #[trigger] events[k],
                states[k],
                deltas[k],
                mask_path,
            ) && with_message(states[k], states[k + 1]),
    ensures
        assembled_output(events) == concat_texts(deltas),
        deltas.len() > 0 ==> output_of_event(events[0]) == Some((false, deltas[0])),
        forall|k: int| 1 <= k < deltas.len() ==> output_of_event(#[trigger] events[k]) == Some(
            (true, deltas[k]),
        ),
    decreases deltas.len(),
{
    assert forall|k: int| 1 <= k < deltas.len() implies output_of_event(#[trigger] events[k])
        == Some((true, deltas[k])) by {
        assert(is_content_event(events[k - 1], states[k - 1], deltas[k - 1], mask_path));
        assert(states[k].has_message);
        assert(is_content_event(events[k], states[k], deltas[k], mask_path));
    }
    if deltas.len() > 0 {
        assert(is_content_event(events[0], states[0], deltas[0], mask_path));
    }
    if deltas.len() > 1 {
        let n = deltas.len() - 1;
        law_streamed_reply_reassembles(
            states.drop_last(),
            deltas.drop_last(),
            events.drop_last(),
            mask_path,
        );
        assert(events.drop_last().last() == events[n - 1]);
        assert(output_of_event(events[n]) == Some((true, deltas[n])));
    } else if deltas.len() == 1 {
        assert(events.drop_last() =~= Seq::<ResponseEvent>::empty());
        assert(deltas.drop_last() =~= Seq::<Seq<char>>::empty());
        assert(concat_texts(deltas.drop_last()) =~= Seq::<char>::empty());
        assert(concat_texts(deltas) =~= Seq::<char>::empty() + deltas[0]);
        assert(Seq::<char>::empty() + deltas[0] =~= deltas[0]);
    }
}

/// A setting that is present is normalized: it is trimmed and not blank.
pub proof fn law_present_setting_is_normalized(value: Option<String>)
    ensures
        present_setting(value) matches Some(v) ==> v.len() > 0 && trim_spec(v) == v,
{
    if let Some(v) = value {
        lemma_trim_idempotent(v@);
    }
}

/// The model a request goes out with is never blank and is trimmed, whatever
/// the settings and the selected model hold.
pub proof fn law_local_model_is_normalized(configured_model: Option<String>, selected_model: Seq<char>)
    ensures
        local_model_spec(configured_model, selected_model).len() > 0,
        trim_spec(local_model_spec(configured_model, selected_model)) == local_model_spec(
            configured_model,
            selected_model,
        ),
{
    law_present_setting_is_normalized(configured_model);
    lemma_trim_idempotent(selected_model);
    reveal_strlit("gpt-4o-mini");
    let d = DEFAULT_LOCAL_MODEL@;
    assert(d.len() == 11);
    assert(!is_white_space_spec(d[0]));
    assert(!is_white_space_spec(d.last()));
    lemma_trim_unchanged(d);
}

/// The task a response goes to always has an id that is trimmed and not
/// blank: the first task's trimmed id, or a fresh UUID.
pub proof fn law_active_task_id_is_normalized(t: ActiveTask, tasks: Seq<Task>, prompt: Seq<char>)
    requires
        is_active_task(t, tasks, prompt),
    ensures
        t.id@.len() > 0,
        trim_spec(t.id@) == t.id@,
{
    match first_task_id(tasks) {
        Some(id) => {
            lemma_trim_idempotent(tasks[0].id@);
        },
        None => {
            let s = t.id@;
            assert(crate::ids::is_lower_hex_digit(s[0]));
            assert(crate::ids::is_lower_hex_digit(s[35]));
            assert(s.last() == s[35]);
            lemma_trim_unchanged(s);
        },
    }
}

} // verus!
