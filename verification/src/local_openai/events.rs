//! The response events that the backend sends to the client.

use vstd::prelude::*;

use crate::api::{
    Action, ClientAction, FieldMask, FinishReason, Message, MessageContent, ResponseEvent,
    ResponseEventType, StreamFinished, StreamInit, Task,
};

verus! {

/// Whether `e` is the event that starts a stream with these ids.
pub open spec fn is_init_event(
    e: ResponseEvent,
    conversation_id: Seq<char>,
    request_id: Seq<char>,
    run_id: Seq<char>,
) -> bool {
    &&& e.event_type matches Some(ResponseEventType::Init(init))
    &&& init.conversation_id@ == conversation_id
    &&& init.request_id@ == request_id
    &&& init.run_id@ == run_id
}

/// Whether `e` is the event that ends a stream normally.
pub open spec fn is_finished_event(e: ResponseEvent) -> bool {
    e.event_type == Some(
        ResponseEventType::Finished(StreamFinished { reason: Some(FinishReason::Done) }),
    )
}

/// Whether `m` is an agent output message with these ids and text.
pub open spec fn is_agent_output_message(
    m: Message,
    id: Seq<char>,
    task_id: Seq<char>,
    request_id: Seq<char>,
    text: Seq<char>,
) -> bool {
    &&& m.id@ == id
    &&& m.task_id@ == task_id
    &&& m.request_id@ == request_id
    &&& m.message matches Some(MessageContent::AgentOutput { text: t })
    &&& t@ == text
}

/// Whether `e` holds exactly one client action, `a`.
pub open spec fn is_single_action(e: ResponseEvent, a: Action) -> bool {
    &&& e.event_type matches Some(ResponseEventType::ClientActions(actions))
    &&& actions@.len() == 1
    &&& actions@[0].action == Some(a)
}

/// Whether `e` asks the client to add `messages` to the task `task_id`.
pub open spec fn is_add_messages_event(e: ResponseEvent, task_id: Seq<char>, messages: Seq<Message>) -> bool {
    &&& e.event_type matches Some(ResponseEventType::ClientActions(actions))
    &&& actions@.len() == 1
    &&& actions@[0].action matches Some(Action::AddMessagesToTask { task_id: t, messages: ms })
    &&& t@ == task_id
    &&& ms@ == messages
}

/// Whether `e` asks the client to create `task`.
pub open spec fn is_create_task_event(e: ResponseEvent, task: Task) -> bool {
    is_single_action(e, Action::CreateTask { task: Some(task) })
}

/// Whether `e` asks the client to append `message`'s content to the message
/// with the same id in the task `task_id`, touching only the field at
/// `mask_path`.
pub open spec fn is_append_message_event(
    e: ResponseEvent,
    task_id: Seq<char>,
    message: Message,
    mask_path: Seq<char>,
) -> bool {
    &&& e.event_type matches Some(ResponseEventType::ClientActions(actions))
    &&& actions@.len() == 1
    &&& actions@[0].action matches Some(
        Action::AppendToMessageContent { task_id: t, message: Some(m), mask: Some(mask) },
    )
    &&& t@ == task_id
    &&& m == message
    &&& mask.paths@.len() == 1
    &&& mask.paths@[0]@ == mask_path
}

/// The path of the agent output text within a message.
pub open spec fn agent_output_field_mask() -> Seq<char> {
    "agent_output.text"@
}

/// The event that starts the stream.
pub fn init_event(conversation_id: String, request_id: String, run_id: String) -> (e: ResponseEvent)
    ensures
        is_init_event(e, conversation_id@, request_id@, run_id@),
{
    ResponseEvent {
        event_type: Some(ResponseEventType::Init(StreamInit { conversation_id, request_id, run_id })),
    }
}

/// The event that ends the stream normally.
pub fn finished_event() -> (e: ResponseEvent)
    ensures
        is_finished_event(e),
{
    ResponseEvent {
        event_type: Some(
            ResponseEventType::Finished(StreamFinished { reason: Some(FinishReason::Done) }),
        ),
    }
}

/// An agent output message holding `text`.
pub fn agent_output_message(message_id: &str, task_id: &str, request_id: &str, text: String) -> (m:
    Message)
    ensures
        is_agent_output_message(m, message_id@, task_id@, request_id@, text@),
{
    Message {
        id: message_id.to_owned(),
        task_id: task_id.to_owned(),
        request_id: request_id.to_owned(),
        message: Some(MessageContent::AgentOutput { text }),
    }
}

/// The event that adds one message to a task.
pub fn add_message_event(task_id: &str, message: Message) -> (e: ResponseEvent)
    ensures
        is_add_messages_event(e, task_id@, seq![message]),
{
    let ghost m = message;
    let messages = vec![message];
    assert(messages@ =~= seq![m]);
    add_messages_event(task_id, messages)
}

/// The event that adds messages to a task.
pub fn add_messages_event(task_id: &str, messages: Vec<Message>) -> (e: ResponseEvent)
    ensures
        is_add_messages_event(e, task_id@, messages@),
{
    ResponseEvent {
        event_type: Some(
            ResponseEventType::ClientActions(
                vec![
                    ClientAction {
                        action: Some(
                            Action::AddMessagesToTask { task_id: task_id.to_owned(), messages },
                        ),
                    },
                ],
            ),
        ),
    }
}

/// The event that creates a task.
pub fn create_task_event(task: Task) -> (e: ResponseEvent)
    ensures
        is_create_task_event(e, task),
{
    ResponseEvent {
        event_type: Some(
            ResponseEventType::ClientActions(
                vec![ClientAction { action: Some(Action::CreateTask { task: Some(task) }) }],
            ),
        ),
    }
}

/// The event that appends a message's agent output to the message with the
/// same id, with the given field mask path.
pub fn append_message_event_with_mask(task_id: &str, message: Message, mask_path: &str) -> (e:
    ResponseEvent)
    ensures
        is_append_message_event(e, task_id@, message, mask_path@),
{
    ResponseEvent {
        event_type: Some(
            ResponseEventType::ClientActions(
                vec![
                    ClientAction {
                        action: Some(
                            Action::AppendToMessageContent {
                                task_id: task_id.to_owned(),
                                message: Some(message),
                                mask: Some(FieldMask { paths: vec![mask_path.to_owned()] }),
                            },
                        ),
                    },
                ],
            ),
        ),
    }
}

/// The event that appends a message's agent output text to the message with
/// the same id.
pub fn append_message_event(task_id: &str, message: Message) -> (e: ResponseEvent)
    ensures
        is_append_message_event(e, task_id@, message, agent_output_field_mask()),
{
    append_message_event_with_mask(task_id, message, "agent_output.text")
}

/// Whether `e` adds to the task `task_id` one agent output message with these
/// ids and `text`.
pub open spec fn is_add_output_event(
    e: ResponseEvent,
    task_id: Seq<char>,
    message_id: Seq<char>,
    request_id: Seq<char>,
    text: Seq<char>,
) -> bool {
    &&& e.event_type matches Some(ResponseEventType::ClientActions(actions))
    &&& actions@.len() == 1
    &&& actions@[0].action matches Some(Action::AddMessagesToTask { task_id: t, messages: ms })
    &&& t@ == task_id
    &&& ms@.len() == 1
    &&& is_agent_output_message(ms@[0], message_id, task_id, request_id, text)
}

/// Whether `e` appends `text` to the agent output of the message
/// `message_id` in the task `task_id`, with the field mask path `mask_path`.
pub open spec fn is_append_output_event(
    e: ResponseEvent,
    task_id: Seq<char>,
    message_id: Seq<char>,
    request_id: Seq<char>,
    text: Seq<char>,
    mask_path: Seq<char>,
) -> bool {
    &&& e.event_type matches Some(ResponseEventType::ClientActions(actions))
    &&& actions@.len() == 1
    &&& actions@[0].action matches Some(
        Action::AppendToMessageContent { task_id: t, message: Some(m), mask: Some(mask) },
    )
    &&& t@ == task_id
    &&& is_agent_output_message(m, message_id, task_id, request_id, text)
    &&& mask.paths@.len() == 1
    &&& mask.paths@[0]@ == mask_path
}

/// The agent output that an event carries: `(false, text)` for a message it
/// adds, `(true, text)` for text it appends, or nothing.
pub open spec fn output_of_event(e: ResponseEvent) -> Option<(bool, Seq<char>)> {
    match e.event_type {
        Some(ResponseEventType::ClientActions(actions)) => if actions@.len() == 1 {
            match actions@[0].action {
                Some(Action::AddMessagesToTask { messages, .. }) => if messages@.len() == 1 {
                    match messages@[0].message {
                        Some(MessageContent::AgentOutput { text }) => Some((false, text@)),
                        _ => None,
                    }
                } else {
                    None
                },
                Some(Action::AppendToMessageContent { message: Some(m), .. }) => match m.message {
                    Some(MessageContent::AgentOutput { text }) => Some((true, text@)),
                    _ => None,
                },
                _ => None,
            }
        } else {
            None
        },
        _ => None,
    }
}

/// The agent output text that a client shows after applying `events` in
/// order: an added message replaces it, appended text extends it.
pub open spec fn assembled_output(events: Seq<ResponseEvent>) -> Seq<char>
    decreases events.len(),
{
    if events.len() == 0 {
        Seq::empty()
    } else {
        let before = assembled_output(events.drop_last());
        match output_of_event(events.last()) {
            Some((false, t)) => t,
            Some((true, t)) => before + t,
            None => before,
        }
    }
}

/// The texts `ds`, one after another.
pub open spec fn concat_texts(ds: Seq<Seq<char>>) -> Seq<char>
    decreases ds.len(),
{
    if ds.len() == 0 {
        Seq::empty()
    } else {
        concat_texts(ds.drop_last()) + ds.last()
    }
}

} // verus!
