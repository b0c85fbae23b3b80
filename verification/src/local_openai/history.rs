//! The chat history sent to the model: the messages recorded in the
//! conversation's tasks, followed by the request's inputs; and the tool
//! results that the history has to keep.

use vstd::prelude::*;

use crate::api::{
    AIAgentActionResult, AIAgentInput, Message, MessageContent, RequestInputConversion,
    RequestParams, Task, Tool, ToolCall, ToolCallResult, ToolResult, ToolResultKind,
};
use crate::error::AIApiError;
use crate::ids::{is_uuid_text, new_uuid_text};
use crate::local_openai::chat::{
    chat_messages_view, ChatMessageModel, OpenAIChatMessage, OpenAIChatToolCall,
    OpenAIChatToolCallFunction, ToolCallModel,
};
use crate::local_openai::tools::{
    missing_tool_message, openai_arguments_for_warp_tool_call, openai_name_for_warp_tool_call,
    run_shell_arguments_spec, unsupported_replay_message,
};
use crate::text::{chars_eq, chars_of, trim_spec, trimmed};

verus! {

/// The chat messages for the model, and the messages that the client has to
/// add to the task so that its history holds what the chat holds.
pub struct PreparedOpenAIHistory {
    pub messages: Vec<OpenAIChatMessage>,
    pub messages_to_persist: Vec<Message>,
}

/// A chat message with a role and text content only.
pub open spec fn text_message(role: Seq<char>, content: Seq<char>) -> ChatMessageModel {
    ChatMessageModel { role, content: Some(content), tool_call_id: None, tool_calls: None }
}

/// The tool call with which the model would make a recorded tool call.
pub open spec fn replayed_tool_call(tc: ToolCall) -> Result<ToolCallModel, Seq<char>> {
    match tc.tool {
        None => Err(missing_tool_message()),
        Some(Tool::RunShellCommand(run)) => Ok(
            ToolCallModel {
                id: tc.tool_call_id@,
                call_type: "function"@,
                name: "run_shell_command"@,
                arguments: run_shell_arguments_spec(run),
            },
        ),
        Some(Tool::Other(_)) => Err(unsupported_replay_message()),
    }
}

/// The text of a recorded tool result: its rendering, where it has one, else
/// a note that names the tool call.
pub open spec fn tool_result_text(r: ToolCallResult) -> Seq<char> {
    match r.rendered {
        Some(t) => t@,
        None => "Tool result recorded for "@ + r.tool_call_id@,
    }
}

/// The chat message that a task message becomes: user queries, agent output,
/// replayable tool calls and tool results are in the chat, other messages are
/// not; a tool call that cannot be replayed is an error.
pub open spec fn task_message_chat(m: Message) -> Result<Option<ChatMessageModel>, Seq<char>> {
    match m.message {
        None => Ok(None),
        Some(MessageContent::UserQuery { query }) => Ok(Some(text_message("user"@, query@))),
        Some(MessageContent::AgentOutput { text }) => Ok(Some(text_message("assistant"@, text@))),
        Some(MessageContent::ToolCall(tc)) => match replayed_tool_call(tc) {
            Ok(call) => Ok(
                Some(
                    ChatMessageModel {
                        role: "assistant"@,
                        content: None,
                        tool_call_id: None,
                        tool_calls: Some(seq![call]),
                    },
                ),
            ),
            Err(e) => Err(e),
        },
        Some(MessageContent::ToolCallResult(r)) => Ok(
            Some(
                ChatMessageModel {
                    role: "tool"@,
                    content: Some(tool_result_text(r)),
                    tool_call_id: Some(r.tool_call_id@),
                    tool_calls: None,
                },
            ),
        ),
        Some(MessageContent::Other(_)) => Ok(None),
    }
}

/// The messages of all `tasks`, task after task.
pub open spec fn task_messages(tasks: Seq<Task>) -> Seq<Message>
    decreases tasks.len(),
{
    if tasks.len() == 0 {
        Seq::empty()
    } else {
        task_messages(tasks.drop_last()) + tasks.last().messages@
    }
}

/// The chat messages that the task messages `ms` become, in order; or the
/// error of the first message that cannot be replayed.
pub open spec fn chat_of_messages(ms: Seq<Message>) -> Result<Seq<ChatMessageModel>, Seq<char>>
    decreases ms.len(),
{
    if ms.len() == 0 {
        Ok(Seq::empty())
    } else {
        match chat_of_messages(ms.drop_last()) {
            Err(e) => Err(e),
            Ok(acc) => match task_message_chat(ms.last()) {
                Err(e) => Err(e),
                Ok(None) => Ok(acc),
                Ok(Some(c)) => Ok(acc.push(c)),
            },
        }
    }
}

/// The message of the error for an action result that does not convert.
pub open spec fn unconvertible_result_message(reason: Seq<char>) -> Seq<char> {
    "Local OpenAI backend could not convert tool result for history: "@ + reason
}

/// The message of the error for an action result that converts to an input
/// other than a tool result.
pub open spec fn non_tool_input_message() -> Seq<char> {
    "Local OpenAI backend converted an action result into a non-tool input"@
}

/// The message of the error for an action result that converts to an empty
/// tool result.
pub open spec fn empty_tool_result_message() -> Seq<char> {
    "Local OpenAI backend converted an empty tool result"@
}

/// The message of the error for a tool result that the history cannot keep.
pub open spec fn unsupported_result_message(kind: Seq<char>) -> Seq<char> {
    "Local OpenAI backend cannot persist unsupported tool result "@ + kind
}

/// The message of the error for an input that the chat cannot take.
pub open spec fn unsupported_history_input_message(kind: Seq<char>) -> Seq<char> {
    "Local OpenAI backend does not support input type "@ + kind
}

/// The message of the error for a request that makes no chat message.
pub open spec fn no_chat_messages_message() -> Seq<char> {
    "Local OpenAI backend received no chat messages"@
}

/// The tool result that an action result keeps in the history: it must
/// convert to a tool result of a kind the history can keep.
pub open spec fn persisted_result(result: AIAgentActionResult) -> Result<ToolResult, Seq<char>> {
    match result.request_input {
        RequestInputConversion::Failed(reason) => Err(unconvertible_result_message(reason@)),
        RequestInputConversion::NonToolInput => Err(non_tool_input_message()),
        RequestInputConversion::ToolCallResult(None) => Err(empty_tool_result_message()),
        RequestInputConversion::ToolCallResult(Some(r)) => if r.kind.is_persistable_spec() {
            Ok(r)
        } else {
            Err(unsupported_result_message(r.kind.name_spec()))
        },
    }
}

/// Whether `m` is the message that keeps `result`'s tool result `payload` in
/// the task's history: a fresh id, the result's task, and the tool result for
/// the result's tool call.
pub open spec fn is_persisted_message(m: Message, result: AIAgentActionResult, payload: ToolResult) -> bool {
    &&& is_uuid_text(m.id@)
    &&& m.task_id@ == result.task_id@
    &&& m.request_id@.len() == 0
    &&& m.message matches Some(MessageContent::ToolCallResult(tr))
    &&& tr.tool_call_id@ == result.id@
    &&& tr.result matches Some(p)
    &&& p.kind == payload.kind
    &&& p.payload@ == payload.payload@
    &&& tr.rendered matches Some(t)
    &&& t@ == result.rendered@
}

/// The chat message that an input becomes: a user query that is not blank,
/// trimmed; or an action result, as a tool message, where its tool result can
/// be kept. Other inputs are errors.
pub open spec fn input_chat(input: AIAgentInput) -> Result<ChatMessageModel, Seq<char>> {
    match input {
        AIAgentInput::UserQuery { query } => if trim_spec(query@).len() > 0 {
            Ok(text_message("user"@, trim_spec(query@)))
        } else {
            Err(unsupported_history_input_message(input.kind_name_spec()))
        },
        AIAgentInput::ActionResult { result } => match persisted_result(result) {
            Ok(_) => Ok(
                ChatMessageModel {
                    role: "tool"@,
                    content: Some(result.rendered@),
                    tool_call_id: Some(result.id@),
                    tool_calls: None,
                },
            ),
            Err(e) => Err(e),
        },
        _ => Err(unsupported_history_input_message(input.kind_name_spec())),
    }
}

/// The chat messages that the inputs become, in order; or the error of the
/// first input that cannot be taken.
pub open spec fn chat_of_inputs(inputs: Seq<AIAgentInput>) -> Result<Seq<ChatMessageModel>, Seq<char>>
    decreases inputs.len(),
{
    if inputs.len() == 0 {
        Ok(Seq::empty())
    } else {
        match chat_of_inputs(inputs.drop_last()) {
            Err(e) => Err(e),
            Ok(acc) => match input_chat(inputs.last()) {
                Err(e) => Err(e),
                Ok(c) => Ok(acc.push(c)),
            },
        }
    }
}

/// The action results among the inputs, in order.
pub open spec fn action_results(inputs: Seq<AIAgentInput>) -> Seq<AIAgentActionResult>
    decreases inputs.len(),
{
    if inputs.len() == 0 {
        Seq::empty()
    } else {
        match inputs.last() {
            AIAgentInput::ActionResult { result } => action_results(inputs.drop_last()).push(result),
            _ => action_results(inputs.drop_last()),
        }
    }
}

/// The chat history of a request: the chat messages of its tasks' messages,
/// then those of its inputs; or the first error; or an error where there is
/// no chat message at all.
pub open spec fn history_spec(params: RequestParams) -> Result<Seq<ChatMessageModel>, Seq<char>> {
    match chat_of_messages(task_messages(params.tasks@)) {
        Err(e) => Err(e),
        Ok(a) => match chat_of_inputs(params.input@) {
            Err(e) => Err(e),
            Ok(b) => if (a + b).len() == 0 {
                Err(no_chat_messages_message())
            } else {
                Ok(a + b)
            },
        },
    }
}

/// Whether `ms` keeps the tool result of each action result in `results`, in
/// order.
pub open spec fn persists_results(ms: Seq<Message>, results: Seq<AIAgentActionResult>) -> bool {
    &&& ms.len() == results.len()
    &&& forall|k: int|
        0 <= k < ms.len() ==> (#[trigger] persisted_result(results[k]) matches Ok(p)
            && is_persisted_message(ms[k], results[k], p))
}

/// The tool results that the history keeps are exactly those of the kinds
/// `RunShellCommand`, `ReadFiles`, `SearchCodebase`, `ApplyFileDiffs`,
/// `Grep`, `FileGlobV2`, `ReadMcpResource` and `CallMcpTool`, which are kept
/// as they are; a result of any other kind fails with the error that names
/// its kind.
pub proof fn law_kept_tool_result_kinds(result: AIAgentActionResult, r: ToolResult)
    requires
        result.request_input == RequestInputConversion::ToolCallResult(Some(r)),
    ensures
        (persisted_result(result) is Ok) <==> (r.kind == ToolResultKind::RunShellCommand || r.kind
            == ToolResultKind::ReadFiles || r.kind == ToolResultKind::SearchCodebase || r.kind
            == ToolResultKind::ApplyFileDiffs || r.kind == ToolResultKind::Grep || r.kind
            == ToolResultKind::FileGlobV2 || r.kind == ToolResultKind::ReadMcpResource || r.kind
            == ToolResultKind::CallMcpTool),
        persisted_result(result) is Ok ==> persisted_result(result) == Ok::<ToolResult, Seq<char>>(
            r,
        ),
        persisted_result(result) is Err ==> persisted_result(result) == Err::<ToolResult, Seq<char>>(
            unsupported_result_message(r.kind.name_spec()),
        ),
{
}

/// Where the inputs make chat messages, there is one for each input, in
/// order.
proof fn lemma_chat_of_inputs_each(inputs: Seq<AIAgentInput>)
    requires
        chat_of_inputs(inputs) is Ok,
    ensures
        ({
            let b = chat_of_inputs(inputs)->Ok_0;
            &&& b.len() == inputs.len()
            &&& forall|k: int|
                0 <= k < inputs.len() ==> input_chat(#[trigger] inputs[k]) == Ok::<
                    ChatMessageModel,
                    Seq<char>,
                >(b[k])
        }),
    decreases inputs.len(),
{
    if inputs.len() > 0 {
        let front = inputs.drop_last();
        lemma_chat_of_inputs_each(front);
        let b = chat_of_inputs(inputs)->Ok_0;
        let a = chat_of_inputs(front)->Ok_0;
        assert forall|k: int| 0 <= k < inputs.len() implies input_chat(#[trigger] inputs[k]) == Ok::<
            ChatMessageModel,
            Seq<char>,
        >(b[k]) by {
            if k < front.len() {
                assert(inputs[k] == front[k]);
                assert(b[k] == a[k]);
            }
        }
    }
}

/// The history ends with one message for each input, in order: a user
/// query as the user's message with its trimmed text, and an action result
/// as a tool message that carries the rendered result and answers the tool
/// call with the result's id.
pub proof fn law_history_answers_each_input(params: RequestParams, h: Seq<ChatMessageModel>)
    requires
        history_spec(params) == Ok::<Seq<ChatMessageModel>, Seq<char>>(h),
    ensures
        h.len() >= params.input@.len(),
        forall|k: int|
            0 <= k < params.input@.len() ==> {
                let m = h[h.len() - params.input@.len() + k];
                &&& (#[trigger] params.input@[k] matches AIAgentInput::ActionResult { result } ==> {
                    &&& m.role == "tool"@
                    &&& m.content == Some(result.rendered@)
                    &&& m.tool_call_id == Some(result.id@)
                    &&& m.tool_calls is None
                })
                &&& (params.input@[k] matches AIAgentInput::UserQuery { query } ==> {
                    &&& m.role == "user"@
                    &&& m.content == Some(trim_spec(query@))
                    &&& m.tool_call_id is None
                })
            },
{
    let inputs = params.input@;
    let a = chat_of_messages(task_messages(params.tasks@))->Ok_0;
    lemma_chat_of_inputs_each(inputs);
    let b = chat_of_inputs(inputs)->Ok_0;
    assert(h == a + b);
    assert forall|k: int| 0 <= k < inputs.len() implies h[h.len() - inputs.len() + k] == b[k] by {
        assert(h.len() - inputs.len() + k == a.len() + k);
    }
}

/// An error of the first part of a run stays the error of the whole run.
pub proof fn lemma_chat_of_messages_error(xs: Seq<Message>, ys: Seq<Message>)
    requires
        chat_of_messages(xs) is Err,
    ensures
        chat_of_messages(xs + ys) == chat_of_messages(xs),
    decreases ys.len(),
{
    if ys.len() == 0 {
        assert(xs + ys =~= xs);
    } else {
        lemma_chat_of_messages_error(xs, ys.drop_last());
        assert((xs + ys).drop_last() =~= xs + ys.drop_last());
    }
}

/// An error of the first inputs stays the error of all of them.
pub proof fn lemma_chat_of_inputs_error(xs: Seq<AIAgentInput>, ys: Seq<AIAgentInput>)
    requires
        chat_of_inputs(xs) is Err,
    ensures
        chat_of_inputs(xs + ys) == chat_of_inputs(xs),
    decreases ys.len(),
{
    if ys.len() == 0 {
        assert(xs + ys =~= xs);
    } else {
        lemma_chat_of_inputs_error(xs, ys.drop_last());
        assert((xs + ys).drop_last() =~= xs + ys.drop_last());
    }
}

/// The tool call with which the model would make a recorded tool call.
pub fn openai_tool_call_from_warp_tool_call(tool_call: &ToolCall) -> (r: Result<
    OpenAIChatToolCall,
    AIApiError,
>)
    ensures
        match replayed_tool_call(*tool_call) {
            Ok(c) => r matches Ok(t) && t@ == c,
            Err(e) => r matches Err(x) && x.is_other(e),
        },
{
    let name = match openai_name_for_warp_tool_call(tool_call) {
        Ok(n) => n,
        Err(e) => return Err(e),
    };
    let arguments = match openai_arguments_for_warp_tool_call(tool_call) {
        Ok(a) => a,
        Err(e) => return Err(e),
    };
    Ok(
        OpenAIChatToolCall {
            id: tool_call.tool_call_id.clone(),
            call_type: "function",
            function: OpenAIChatToolCallFunction { name, arguments },
        },
    )
}

/// A chat message with a role and text content only.
fn text_chat_message(role: &'static str, content: String) -> (m: OpenAIChatMessage)
    ensures
        m@ == text_message(role@, content@),
{
    OpenAIChatMessage { role, content: Some(content), tool_call_id: None, tool_calls: None }
}

/// The chat message that a task message becomes, if any.
pub fn message_from_task_message(message: &Message) -> (r: Result<
    Option<OpenAIChatMessage>,
    AIApiError,
>)
    ensures
        match task_message_chat(*message) {
            Ok(None) => r matches Ok(None),
            Ok(Some(c)) => r matches Ok(Some(m)) && m@ == c,
            Err(e) => r matches Err(x) && x.is_other(e),
        },
{
    match &message.message {
        None => Ok(None),
        Some(MessageContent::UserQuery { query }) => Ok(
            Some(text_chat_message("user", query.clone())),
        ),
        Some(MessageContent::AgentOutput { text }) => Ok(
            Some(text_chat_message("assistant", text.clone())),
        ),
        Some(MessageContent::ToolCall(tool_call)) => {
            let call = match openai_tool_call_from_warp_tool_call(tool_call) {
                Ok(c) => c,
                Err(e) => return Err(e),
            };
            let ghost cm = call@;
            let calls = vec![call];
            assert(calls@.map_values(|c: OpenAIChatToolCall| c@) =~= seq![cm]);
            Ok(
                Some(
                    OpenAIChatMessage {
                        role: "assistant",
                        content: None,
                        tool_call_id: None,
                        tool_calls: Some(calls),
                    },
                ),
            )
        },
        Some(MessageContent::ToolCallResult(result)) => {
            let content = match &result.rendered {
                Some(t) => t.clone(),
                None => {
                    let mut c = String::new();
                    c.append("Tool result recorded for ");
                    c.append(result.tool_call_id.as_str());
                    c
                },
            };
            Ok(
                Some(
                    OpenAIChatMessage {
                        role: "tool",
                        content: Some(content),
                        tool_call_id: Some(result.tool_call_id.clone()),
                        tool_calls: None,
                    },
                ),
            )
        },
        Some(MessageContent::Other(_)) => Ok(None),
    }
}

/// A copy of `v`.
fn copy_bytes(v: &Vec<u8>) -> (r: Vec<u8>)
    ensures
        r@ == v@,
{
    let mut r: Vec<u8> = Vec::new();
    let mut i: usize = 0;
    while i < v.len()
        invariant
            i <= v@.len(),
            r@ == v@.take(i as int),
        decreases v@.len() - i,
    {
        r.push(v[i]);
        assert(v@.take(i + 1) =~= v@.take(i as int).push(v@[i as int]));
        i = i + 1;
    }
    assert(v@.take(v@.len() as int) =~= v@);
    r
}

/// The message that keeps an action result's tool result in the task's
/// history.
pub fn tool_call_result_message_from_action_result(result: &AIAgentActionResult) -> (r: Result<
    Message,
    AIApiError,
>)
    ensures
        match persisted_result(*result) {
            Ok(p) => r matches Ok(m) && is_persisted_message(m, *result, p),
            Err(e) => r matches Err(x) && x.is_other(e),
        },
{
    let payload = match &result.request_input {
        RequestInputConversion::Failed(reason) => {
            let mut m = String::new();
            m.append("Local OpenAI backend could not convert tool result for history: ");
            m.append(reason.as_str());
            return Err(AIApiError::Other(m));
        },
        RequestInputConversion::NonToolInput => {
            let mut m = String::new();
            m.append("Local OpenAI backend converted an action result into a non-tool input");
            return Err(AIApiError::Other(m));
        },
        RequestInputConversion::ToolCallResult(None) => {
            let mut m = String::new();
            m.append("Local OpenAI backend converted an empty tool result");
            return Err(AIApiError::Other(m));
        },
        RequestInputConversion::ToolCallResult(Some(r)) => r,
    };
    if !payload.kind.is_persistable() {
        let mut m = String::new();
        m.append("Local OpenAI backend cannot persist unsupported tool result ");
        let kind = payload.kind.name();
        m.append(kind.as_str());
        return Err(AIApiError::Other(m));
    }
    let kept = ToolResult { kind: payload.kind, payload: copy_bytes(&payload.payload) };
    Ok(
        Message {
            id: new_uuid_text(),
            task_id: result.task_id.clone(),
            request_id: String::new(),
            message: Some(
                MessageContent::ToolCallResult(
                    ToolCallResult {
                        tool_call_id: result.id.clone(),
                        result: Some(kept),
                        rendered: Some(result.rendered.clone()),
                    },
                ),
            ),
        },
    )
}

/// The messages of consecutive runs of tasks follow one another.
pub proof fn lemma_task_messages_concat(xs: Seq<Task>, ys: Seq<Task>)
    ensures
        task_messages(xs + ys) == task_messages(xs) + task_messages(ys),
    decreases ys.len(),
{
    if ys.len() == 0 {
        assert(xs + ys =~= xs);
        assert(task_messages(xs) + task_messages(ys) =~= task_messages(xs));
    } else {
        lemma_task_messages_concat(xs, ys.drop_last());
        assert((xs + ys).drop_last() =~= xs + ys.drop_last());
        assert(task_messages(xs + ys) =~= task_messages(xs) + task_messages(ys));
    }
}

/// The chat messages of the request: those of its tasks' messages, then those
/// of its inputs; and the messages that keep the inputs' tool results in the
/// task's history.
pub fn build_openai_history(params: &RequestParams) -> (r: Result<PreparedOpenAIHistory, AIApiError>)
    ensures
        match history_spec(*params) {
            Ok(ms) => r matches Ok(h) && chat_messages_view(h.messages@) == ms && persists_results(
                h.messages_to_persist@,
                action_results(params.input@),
            ),
            Err(e) => r matches Err(x) && x.is_other(e),
        },
{
    let ghost tasks = params.tasks@;
    let ghost all = task_messages(tasks);
    let mut messages: Vec<OpenAIChatMessage> = Vec::new();
    let mut t: usize = 0;
    assert(tasks.take(0) =~= Seq::<Task>::empty());
    assert(task_messages(tasks.take(0)) =~= Seq::<Message>::empty());
    assert(chat_messages_view(messages@) =~= Seq::<ChatMessageModel>::empty());
    while t < params.tasks.len()
        invariant
            t <= tasks.len(),
            tasks == params.tasks@,
            all == task_messages(tasks),
            chat_of_messages(task_messages(tasks.take(t as int))) == Ok::<
                Seq<ChatMessageModel>,
                Seq<char>,
            >(chat_messages_view(messages@)),
        decreases tasks.len() - t,
    {
        let task = &params.tasks[t];
        let ghost done = task_messages(tasks.take(t as int));
        proof {
            assert(tasks.take(t + 1).drop_last() =~= tasks.take(t as int));
            lemma_task_messages_concat(tasks.take(t + 1), tasks.skip(t + 1));
            assert(tasks.take(t + 1) + tasks.skip(t + 1) =~= tasks);
        }
        let mut j: usize = 0;
        assert(done + task.messages@.take(0) =~= done);
        while j < task.messages.len()
            invariant
                t < tasks.len(),
                tasks == params.tasks@,
                *task == tasks[t as int],
                done == task_messages(tasks.take(t as int)),
                all == task_messages(tasks),
                all == task_messages(tasks.take(t + 1)) + task_messages(tasks.skip(t + 1)),
                task_messages(tasks.take(t + 1)) == done + task.messages@,
                j <= task.messages@.len(),
                chat_of_messages(done + task.messages@.take(j as int)) == Ok::<
                    Seq<ChatMessageModel>,
                    Seq<char>,
                >(chat_messages_view(messages@)),
            decreases task.messages@.len() - j,
        {
            let ghost before = messages@;
            let ghost prefix = done + task.messages@.take(j + 1);
            assert(prefix.drop_last() =~= done + task.messages@.take(j as int));
            assert(prefix.last() == task.messages@[j as int]);
            match message_from_task_message(&task.messages[j]) {
                Err(e) => {
                    proof {
                        let rest = task.messages@.skip(j + 1) + task_messages(tasks.skip(t + 1));
                        assert(task.messages@.take(j + 1) + task.messages@.skip(j + 1)
                            =~= task.messages@);
                        assert(prefix + rest =~= all);
                        assert(chat_of_messages(prefix) is Err);
                        lemma_chat_of_messages_error(prefix, rest);
                    }
                    return Err(e);
                },
                Ok(None) => {},
                Ok(Some(m)) => {
                    messages.push(m);
                    assert(chat_messages_view(messages@) =~= chat_messages_view(before).push(m@));
                },
            }
            j = j + 1;
        }
        assert(task.messages@.take(j as int) =~= task.messages@);
        t = t + 1;
    }
    assert(tasks.take(t as int) =~= tasks);
    let ghost a = chat_messages_view(messages@);
    let ghost inputs = params.input@;
    let mut messages_to_persist: Vec<Message> = Vec::new();
    let mut i: usize = 0;
    assert(inputs.take(0) =~= Seq::<AIAgentInput>::empty());
    while i < params.input.len()
        invariant
            i <= inputs.len(),
            inputs == params.input@,
            chat_of_messages(all) == Ok::<Seq<ChatMessageModel>, Seq<char>>(a),
            all == task_messages(params.tasks@),
            chat_of_inputs(inputs.take(i as int)) matches Ok(b) && chat_messages_view(messages@)
                == a + b,
            persists_results(messages_to_persist@, action_results(inputs.take(i as int))),
        decreases inputs.len() - i,
    {
        let ghost before = messages@;
        let ghost persisted_before = messages_to_persist@;
        let ghost b = chat_of_inputs(inputs.take(i as int))->Ok_0;
        assert(inputs.take(i + 1).drop_last() =~= inputs.take(i as int));
        assert(inputs.take(i + 1).last() == inputs[i as int]);
        let input = &params.input[i];
        let mut failed: Option<AIApiError> = None;
        match input {
            AIAgentInput::UserQuery { query } => {
                let q = trimmed(query.as_str());
                if q.as_str().is_empty() == false {
                    messages.push(text_chat_message("user", q));
                    assert(messages@ =~= before.push(messages@.last()));
                } else {
                    let mut m = String::new();
                    m.append("Local OpenAI backend does not support input type ");
                    let kind = input.kind_name();
                    m.append(kind.as_str());
                    failed = Some(AIApiError::Other(m));
                }
            },
            AIAgentInput::ActionResult { result } => {
                messages.push(
                    OpenAIChatMessage {
                        role: "tool",
                        content: Some(result.rendered.clone()),
                        tool_call_id: Some(result.id.clone()),
                        tool_calls: None,
                    },
                );
                assert(messages@ =~= before.push(messages@.last()));
                match tool_call_result_message_from_action_result(result) {
                    Ok(m) => {
                        messages_to_persist.push(m);
                        proof {
                            let results = action_results(inputs.take(i + 1));
                            assert(results =~= action_results(inputs.take(i as int)).push(*result));
                            assert forall|k: int|
                                0 <= k < messages_to_persist@.len() implies (
                                #[trigger] persisted_result(results[k]) matches Ok(p)
                                    && is_persisted_message(messages_to_persist@[k], results[k], p)) by {
                                if k < persisted_before.len() {
                                    assert(results[k] == action_results(inputs.take(i as int))[k]);
                                }
                            }
                        }
                    },
                    Err(e) => {
                        failed = Some(e);
                    },
                }
            },
            _ => {
                let mut m = String::new();
                m.append("Local OpenAI backend does not support input type ");
                let kind = input.kind_name();
                m.append(kind.as_str());
                failed = Some(AIApiError::Other(m));
            },
        }
        if let Some(e) = failed {
            proof {
                lemma_chat_of_inputs_error(inputs.take(i + 1), inputs.skip(i + 1));
                assert(inputs.take(i + 1) + inputs.skip(i + 1) =~= inputs);
            }
            return Err(e);
        }
        proof {
            assert(chat_of_inputs(inputs.take(i + 1)) == Ok::<Seq<ChatMessageModel>, Seq<char>>(
                b.push(messages@.last()@),
            ));
            assert(chat_messages_view(messages@) =~= chat_messages_view(before).push(
                messages@.last()@,
            ));
            assert(chat_messages_view(messages@) =~= a + b.push(messages@.last()@));
            if !(inputs[i as int] is ActionResult) {
                assert(action_results(inputs.take(i + 1)) == action_results(inputs.take(i as int)));
            }
        }
        i = i + 1;
    }
    assert(inputs.take(i as int) =~= inputs);
    if messages.len() == 0 {
        let mut m = String::new();
        m.append("Local OpenAI backend received no chat messages");
        return Err(AIApiError::Other(m));
    }
    Ok(PreparedOpenAIHistory { messages, messages_to_persist })
}

/// The content of the first user message of `ms` that has content, else a
/// generic description.
pub open spec fn first_user_content(ms: Seq<ChatMessageModel>) -> Seq<char>
    decreases ms.len(),
{
    if ms.len() == 0 {
        "Local OpenAI conversation"@
    } else if ms[0].role == "user"@ && ms[0].content is Some {
        ms[0].content->Some_0
    } else {
        first_user_content(ms.drop_first())
    }
}

impl PreparedOpenAIHistory {
    /// The description of a task created for this history: the first user
    /// message's content, else a generic description.
    pub fn task_description_fallback(&self) -> (r: String)
        ensures
            r@ == first_user_content(chat_messages_view(self.messages@)),
    {
        let ghost ms = chat_messages_view(self.messages@);
        let user = chars_of("user");
        let mut i: usize = 0;
        assert(ms.skip(0) =~= ms);
        while i < self.messages.len()
            invariant
                i <= self.messages@.len(),
                ms == chat_messages_view(self.messages@),
                user@ == "user"@,
                first_user_content(ms) == first_user_content(ms.skip(i as int)),
            decreases self.messages@.len() - i,
        {
            let m = &self.messages[i];
            assert(ms.skip(i as int)[0] == m@);
            if chars_eq(&chars_of(m.role), &user) {
                if let Some(c) = &m.content {
                    return c.clone();
                }
            }
            assert(ms.skip(i as int).drop_first() =~= ms.skip(i + 1));
            i = i + 1;
        }
        String::from_str("Local OpenAI conversation")
    }
}

} // verus!
