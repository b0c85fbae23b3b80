//! The local OpenAI-compatible text backend: a single user query sent as a
//! chat completion, whose reply text is streamed to the client as agent
//! output.

use vstd::prelude::*;

use crate::api::{AIAgentInput, LocalOpenAIBackendSettings, RequestParams, ResponseEvent};
use crate::error::AIApiError;
use crate::ids::{is_uuid_text, new_uuid_text};
use crate::local_openai::chat::{ChatCompletionChoice, ChatCompletionChunk, SseLine};
use crate::local_openai::events::{
    agent_output_message, append_message_event_with_mask, finished_event, init_event,
    is_finished_event,
};
use crate::local_openai::{
    extract_user_query_spec, first_task_id, is_content_event, missing_active_task_message,
    missing_setting_message, present_setting, run_id_prefix, LocalStream,
};
use crate::text::{trim_spec, trimmed};

pub use crate::local_openai::{
    active_task_id, extract_user_query, require_setting, DEFAULT_LOCAL_MODEL,
};

verus! {

/// The path of the agent output text within a response message.
pub const AGENT_OUTPUT_FIELD_MASK: &'static str = "message.agent_output.text";

/// The event that appends a message's agent output text to the message with
/// the same id, for the text backend.
pub fn append_message_event(task_id: &str, message: crate::api::Message) -> (e: ResponseEvent)
    ensures
        crate::local_openai::events::is_append_message_event(
            e,
            task_id@,
            message,
            AGENT_OUTPUT_FIELD_MASK@,
        ),
{
    append_message_event_with_mask(task_id, message, AGENT_OUTPUT_FIELD_MASK)
}

/// The settings of the text backend.
pub type LocalOpenAITextBackendSettings = LocalOpenAIBackendSettings;

/// The model a text request goes out with: the configured model, trimmed,
/// where it is not blank; else the default.
pub fn local_model(model: Option<String>) -> (r: String)
    ensures
        r@ == (match present_setting(model) {
            Some(m) => m,
            None => DEFAULT_LOCAL_MODEL@,
        }),
{
    if let Some(m) = model {
        let t = trimmed(m.as_str());
        if t.as_str().is_empty() == false {
            return t;
        }
    }
    DEFAULT_LOCAL_MODEL.to_owned()
}

/// The first non-empty content among `choices`.
pub open spec fn first_nonempty_content(choices: Seq<ChatCompletionChoice>) -> Option<String>
    decreases choices.len(),
{
    if choices.len() == 0 {
        None
    } else {
        match choices[0].delta.content {
            Some(c) => if c@.len() > 0 {
                Some(c)
            } else {
                first_nonempty_content(choices.drop_first())
            },
            None => first_nonempty_content(choices.drop_first()),
        }
    }
}

/// The text that a stream line adds to the reply: the first non-empty content
/// among the choices of its chunk.
pub open spec fn text_delta_of(line: SseLine<ChatCompletionChunk>) -> Option<String> {
    match line {
        SseLine::Data(chunk) => first_nonempty_content(chunk.choices@),
        _ => None,
    }
}

/// Whether the choice `ch` carries no text, or empty text.
pub open spec fn carries_no_text(ch: ChatCompletionChoice) -> bool {
    match ch.delta.content {
        Some(d) => d@.len() == 0,
        None => true,
    }
}

/// The text backend takes from a chunk the first choice's text that is not
/// empty, white space included: where choice `k` carries the non-empty text
/// `c` and every choice before it carries none, the line's text is `c`; where
/// no choice carries text, the line has none.
pub proof fn law_text_delta_is_first_nonempty(chunk: ChatCompletionChunk, k: int, c: String)
    requires
        0 <= k < chunk.choices@.len(),
        chunk.choices@[k].delta.content == Some(c),
        c@.len() > 0,
        forall|j: int| 0 <= j < k ==> carries_no_text(#[trigger] chunk.choices@[j]),
    ensures
        text_delta_of(SseLine::Data(chunk)) == Some(c),
{
    lemma_first_nonempty_at(chunk.choices@, k, c);
}

/// A chunk none of whose choices carries text adds no text.
pub proof fn law_no_text_no_delta(chunk: ChatCompletionChunk)
    requires
        forall|j: int| 0 <= j < chunk.choices@.len() ==> carries_no_text(#[trigger] chunk.choices@[j]),
    ensures
        text_delta_of(SseLine::Data(chunk)) is None,
{
    lemma_first_nonempty_none(chunk.choices@);
}

proof fn lemma_first_nonempty_at(choices: Seq<ChatCompletionChoice>, k: int, c: String)
    requires
        0 <= k < choices.len(),
        choices[k].delta.content == Some(c),
        c@.len() > 0,
        forall|j: int| 0 <= j < k ==> carries_no_text(#[trigger] choices[j]),
    ensures
        first_nonempty_content(choices) == Some(c),
    decreases k,
{
    if k > 0 {
        assert(carries_no_text(choices[0]));
        let rest = choices.drop_first();
        assert forall|j: int| 0 <= j < k - 1 implies carries_no_text(#[trigger] rest[j]) by {
            assert(rest[j] == choices[j + 1]);
        }
        lemma_first_nonempty_at(rest, k - 1, c);
    }
}

proof fn lemma_first_nonempty_none(choices: Seq<ChatCompletionChoice>)
    requires
        forall|j: int| 0 <= j < choices.len() ==> carries_no_text(#[trigger] choices[j]),
    ensures
        first_nonempty_content(choices) is None,
    decreases choices.len(),
{
    if choices.len() > 0 {
        assert(carries_no_text(choices[0]));
        let rest = choices.drop_first();
        assert forall|j: int| 0 <= j < rest.len() implies carries_no_text(#[trigger] rest[j]) by {
            assert(rest[j] == choices[j + 1]);
        }
        lemma_first_nonempty_none(rest);
    }
}

/// The text that a stream line adds to the reply, if any.
pub fn parse_sse_delta(line: SseLine<ChatCompletionChunk>) -> (r: Option<String>)
    ensures
        r == text_delta_of(line),
{
    match line {
        SseLine::Data(chunk) => {
            let mut choices = chunk.choices;
            let ghost initial = choices@;
            while choices.len() > 0
                invariant
                    text_delta_of(line) == first_nonempty_content(initial),
                    first_nonempty_content(initial) == first_nonempty_content(choices@),
                decreases choices@.len(),
            {
                let ghost before = choices@;
                let choice = choices.remove(0);
                assert(choice == before[0]);
                assert(before.drop_first() =~= choices@);
                if let Some(content) = choice.delta.content {
                    if content.as_str().is_empty() == false {
                        return Some(content);
                    }
                }
            }
            None
        },
        _ => None,
    }
}

/// The texts that the stream lines add to the reply, in order.
pub open spec fn text_deltas_of(lines: Seq<SseLine<ChatCompletionChunk>>) -> Seq<String>
    decreases lines.len(),
{
    if lines.len() == 0 {
        Seq::empty()
    } else {
        match text_delta_of(lines[0]) {
            Some(d) => seq![d] + text_deltas_of(lines.drop_first()),
            None => text_deltas_of(lines.drop_first()),
        }
    }
}

/// The texts that the lines of a whole response add to the reply.
pub fn text_deltas(lines: Vec<SseLine<ChatCompletionChunk>>) -> (r: Vec<String>)
    ensures
        r@ == text_deltas_of(lines@),
{
    let mut lines = lines;
    let ghost initial = lines@;
    let mut deltas: Vec<String> = Vec::new();
    while lines.len() > 0
        invariant
            deltas@ + text_deltas_of(lines@) == text_deltas_of(initial),
        decreases lines@.len(),
    {
        let ghost before = lines@;
        let line = lines.remove(0);
        assert(before.drop_first() =~= lines@);
        let ghost d_before = deltas@;
        if let Some(d) = parse_sse_delta(line) {
            deltas.push(d);
            assert(d_before + (seq![d] + text_deltas_of(lines@)) =~= deltas@ + text_deltas_of(
                lines@,
            ));
        }
    }
    assert(deltas@ + Seq::<String>::empty() =~= deltas@);
    deltas
}

/// A message of a text request.
#[derive(Debug, Clone, PartialEq, Eq)]
pub struct ChatMessage {
    pub role: &'static str,
    pub content: String,
}

/// A streamed text request.
#[derive(Debug, Clone, PartialEq, Eq)]
pub struct ChatCompletionsRequest {
    pub model: String,
    pub messages: Vec<ChatMessage>,
    pub stream: bool,
}

/// What a text stream needs once it has started: where to send the request
/// and what to send, the event that opens the response, and the stream's
/// state.
pub struct TextStreamStart {
    pub api_key: String,
    pub base_url: String,
    pub request: ChatCompletionsRequest,
    pub init: ResponseEvent,
    pub stream: LocalStream,
}

/// The query of a request where the text backend accepts it: the last input,
/// a user query that is not blank, trimmed.
pub open spec fn accepted_query(inputs: Seq<AIAgentInput>) -> Option<Seq<char>> {
    if inputs.len() == 0 {
        None
    } else {
        match inputs.last() {
            AIAgentInput::UserQuery { query } => if trim_spec(query@).len() > 0 {
                Some(trim_spec(query@))
            } else {
                None
            },
            _ => None,
        }
    }
}

/// Whether `start` is how a text stream starts for `settings` and `params`,
/// where nothing fails: the trimmed key and base URL; a request with the
/// resolved model and the query as its one user message; an init event whose
/// conversation id is the request's conversation token (else a UUID) and
/// whose run id is a fixed prefix followed by that conversation id; and a
/// stream state for the request's active task, with fresh request and
/// message ids and no message yet.
pub open spec fn is_text_stream_start(
    start: TextStreamStart,
    settings: LocalOpenAIBackendSettings,
    params: RequestParams,
    query: Seq<char>,
) -> bool {
    let s = start.stream;
    &&& present_setting(settings.api_key) == Some(start.api_key@)
    &&& present_setting(settings.base_url) == Some(start.base_url@)
    &&& start.request.model@ == (match present_setting(settings.model) {
        Some(m) => m,
        None => DEFAULT_LOCAL_MODEL@,
    })
    &&& start.request.stream
    &&& start.request.messages@.len() == 1
    &&& start.request.messages@[0].role@ == "user"@
    &&& start.request.messages@[0].content@ == query
    &&& first_task_id(params.tasks@) == Some(s.task_id@)
    &&& is_uuid_text(s.request_id@)
    &&& is_uuid_text(s.message_id@)
    &&& !s.has_message
    &&& start.init.event_type matches Some(crate::api::ResponseEventType::Init(init))
    &&& init.request_id@ == s.request_id@
    &&& (match params.conversation_token {
        Some(token) => init.conversation_id@ == token@,
        None => is_uuid_text(init.conversation_id@),
    })
    &&& init.run_id@ == run_id_prefix() + init.conversation_id@
}

/// Starts a text stream: checks the settings, takes the query, requires an
/// active task, and decides the event that opens the response. Every failure
/// comes before the response opens and before any request is sent.
pub fn start_text_stream(settings: LocalOpenAIBackendSettings, params: &RequestParams) -> (r: Result<
    TextStreamStart,
    AIApiError,
>)
    ensures
        present_setting(settings.api_key) is None ==> (r matches Err(e) && e.is_other(
            missing_setting_message("OpenAI API key"@),
        )),
        present_setting(settings.api_key) is Some && present_setting(settings.base_url) is None
            ==> (r matches Err(e) && e.is_other(missing_setting_message("OpenAI Base URL"@))),
        present_setting(settings.api_key) is Some && present_setting(settings.base_url) is Some
            ==> match accepted_query(params.input@) {
            None => r matches Err(e) && extract_user_query_spec(params.input@, Err(e)),
            Some(q) => match first_task_id(params.tasks@) {
                None => r matches Err(e) && e.is_other(missing_active_task_message()),
                Some(_) => r matches Ok(start) && is_text_stream_start(start, settings, *params, q),
            },
        },
{
    let api_key = match require_setting(settings.api_key, "OpenAI API key") {
        Ok(v) => v,
        Err(e) => return Err(e),
    };
    let base_url = match require_setting(settings.base_url, "OpenAI Base URL") {
        Ok(v) => v,
        Err(e) => return Err(e),
    };
    let model = local_model(settings.model);
    let prompt = match extract_user_query(params.input.as_slice()) {
        Ok(q) => q,
        Err(e) => return Err(e),
    };
    let task_id = match active_task_id(params) {
        Ok(id) => id,
        Err(e) => return Err(e),
    };
    let request_id = new_uuid_text();
    let conversation_id = match &params.conversation_token {
        Some(token) => token.clone(),
        None => new_uuid_text(),
    };
    let mut run_id = String::new();
    run_id.append("local-openai-text-");
    run_id.append(conversation_id.as_str());
    let message_id = new_uuid_text();
    let ghost q = prompt@;
    let init = init_event(conversation_id, request_id.clone(), run_id);
    let request = ChatCompletionsRequest {
        model,
        messages: vec![ChatMessage { role: "user", content: prompt }],
        stream: true,
    };
    let stream = LocalStream { task_id, request_id, message_id, has_message: false };
    let start = TextStreamStart { api_key, base_url, request, init, stream };
    assert(is_text_stream_start(start, settings, *params, q));
    Ok(start)
}

/// The state of the text stream `s` before the reply piece `k`.
pub open spec fn state_before_piece(s: LocalStream, k: int) -> LocalStream {
    LocalStream {
        task_id: s.task_id,
        request_id: s.request_id,
        message_id: s.message_id,
        has_message: s.has_message || k > 0,
    }
}

/// Whether `evs` is what the text stream `s` emits once the whole reply
/// `deltas` has come: one event for each piece of text (the first adds the
/// reply's message where it does not exist yet, the others append to it);
/// an empty agent output message where there was neither a message nor any
/// text; and the finished event.
pub open spec fn is_text_reply(evs: Seq<ResponseEvent>, s: LocalStream, deltas: Seq<String>) -> bool {
    let empty: int = if !s.has_message && deltas.len() == 0 { 1 } else { 0 };
    &&& evs.len() == deltas.len() + empty + 1
    &&& forall|k: int|
        0 <= k < deltas.len() ==> is_content_event(
            #[trigger] evs[k],
            state_before_piece(s, k),
            deltas[k]@,
            AGENT_OUTPUT_FIELD_MASK@,
        )
    &&& empty == 1 ==> crate::local_openai::events::is_add_output_event(
        evs[0],
        s.task_id@,
        s.message_id@,
        s.request_id@,
        Seq::empty(),
    )
    &&& is_finished_event(evs[evs.len() - 1])
}

/// The events that the text stream emits once the whole reply has come.
pub fn text_reply_events(stream: LocalStream, deltas: Vec<String>) -> (evs: Vec<ResponseEvent>)
    ensures
        is_text_reply(evs@, stream, deltas@),
{
    let ghost s0 = stream;
    let ghost ds = deltas@;
    let mut evs: Vec<ResponseEvent> = Vec::new();
    let mut stream = stream;
    let mut deltas = deltas;
    let n = deltas.len();
    assert(ds.len() == n);
    let mut k: usize = 0;
    while deltas.len() > 0
        invariant
            k + deltas@.len() == ds.len(),
            ds.len() <= usize::MAX,
            deltas@ == ds.skip(k as int),
            evs@.len() == k,
            stream == state_before_piece(s0, k as int),
            forall|j: int|
                0 <= j < k ==> is_content_event(
                    #[trigger] evs@[j],
                    state_before_piece(s0, j),
                    ds[j]@,
                    AGENT_OUTPUT_FIELD_MASK@,
                ),
        decreases deltas@.len(),
    {
        let ghost before = deltas@;
        let delta = deltas.remove(0);
        assert(before[0] == ds[k as int]);
        assert(deltas@ =~= ds.skip(k + 1));
        let ghost evs_before = evs@;
        let e = stream.on_content_with_mask(delta, AGENT_OUTPUT_FIELD_MASK);
        evs.push(e);
        proof {
            assert forall|j: int| 0 <= j < k + 1 implies is_content_event(
                #[trigger] evs@[j],
                state_before_piece(s0, j),
                ds[j]@,
                AGENT_OUTPUT_FIELD_MASK@,
            ) by {
                if j < k {
                    assert(evs@[j] == evs_before[j]);
                }
            }
        }
        k = k + 1;
    }
    if !stream.has_message {
        let message = agent_output_message(
            stream.message_id.as_str(),
            stream.task_id.as_str(),
            stream.request_id.as_str(),
            String::new(),
        );
        evs.push(crate::local_openai::events::add_message_event(stream.task_id.as_str(), message));
    }
    evs.push(finished_event());
    evs
}

} // verus!
