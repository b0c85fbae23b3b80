//! The data the backend reads and produces: the agent request (inputs,
//! tasks, settings) and the response events it streams back to the client.
//! These hold as plain values what the backend's logic reads of the agent
//! protocol's messages.

use vstd::prelude::*;

verus! {

/// Settings of the local OpenAI-compatible backend, each as configured
/// (possibly absent or blank).
#[derive(Debug, Clone, PartialEq, Eq)]
pub struct LocalOpenAIBackendSettings {
    pub api_key: Option<String>,
    pub base_url: Option<String>,
    pub model: Option<String>,
}

/// A command that a shell tool call runs, with its flags.
#[derive(Debug, Clone, PartialEq, Eq)]
pub struct RunShellCommand {
    pub command: String,
    pub is_read_only: bool,
    pub is_risky: bool,
    pub uses_pager: bool,
    pub wait_until_complete_value: Option<WaitUntilCompleteValue>,
}

/// Whether a shell command is to be waited for.
#[derive(Debug, Clone, PartialEq, Eq)]
pub enum WaitUntilCompleteValue {
    WaitUntilComplete(bool),
}

/// The tool that a recorded tool call invoked.
#[derive(Debug, Clone, PartialEq, Eq)]
pub enum Tool {
    RunShellCommand(RunShellCommand),
    /// Any other tool, by its name.
    Other(String),
}

/// A tool call recorded in a task.
#[derive(Debug, Clone, PartialEq, Eq)]
pub struct ToolCall {
    pub tool_call_id: String,
    pub tool: Option<Tool>,
}

/// The kind of a tool's result.
#[derive(Debug, Clone, Copy, PartialEq, Eq)]
pub enum ToolResultKind {
    RunShellCommand,
    ReadFiles,
    SearchCodebase,
    ApplyFileDiffs,
    Grep,
    FileGlobV2,
    ReadMcpResource,
    CallMcpTool,
    SuggestPlan,
    SuggestCreatePlan,
    ReadDocuments,
    EditDocuments,
    CreateDocuments,
    SuggestNewConversation,
    SuggestPrompt,
    OpenCodeReview,
    InitProject,
    TransferShellCommandControlToUser,
    ReadShellCommandOutput,
    WriteToLongRunningShellCommand,
    AskUserQuestion,
    UploadFileArtifact,
}

impl ToolResultKind {
    /// The name of the kind.
    pub open spec fn name_spec(self) -> Seq<char> {
        match self {
            ToolResultKind::RunShellCommand => "RunShellCommand"@,
            ToolResultKind::ReadFiles => "ReadFiles"@,
            ToolResultKind::SearchCodebase => "SearchCodebase"@,
            ToolResultKind::ApplyFileDiffs => "ApplyFileDiffs"@,
            ToolResultKind::Grep => "Grep"@,
            ToolResultKind::FileGlobV2 => "FileGlobV2"@,
            ToolResultKind::ReadMcpResource => "ReadMcpResource"@,
            ToolResultKind::CallMcpTool => "CallMcpTool"@,
            ToolResultKind::SuggestPlan => "SuggestPlan"@,
            ToolResultKind::SuggestCreatePlan => "SuggestCreatePlan"@,
            ToolResultKind::ReadDocuments => "ReadDocuments"@,
            ToolResultKind::EditDocuments => "EditDocuments"@,
            ToolResultKind::CreateDocuments => "CreateDocuments"@,
            ToolResultKind::SuggestNewConversation => "SuggestNewConversation"@,
            ToolResultKind::SuggestPrompt => "SuggestPrompt"@,
            ToolResultKind::OpenCodeReview => "OpenCodeReview"@,
            ToolResultKind::InitProject => "InitProject"@,
            ToolResultKind::TransferShellCommandControlToUser => "TransferShellCommandControlToUser"@,
            ToolResultKind::ReadShellCommandOutput => "ReadShellCommandOutput"@,
            ToolResultKind::WriteToLongRunningShellCommand => "WriteToLongRunningShellCommand"@,
            ToolResultKind::AskUserQuestion => "AskUserQuestion"@,
            ToolResultKind::UploadFileArtifact => "UploadFileArtifact"@,
        }
    }

    /// The name of the kind, as shown in error messages.
    pub fn name(&self) -> (s: String)
        ensures
            s@ == self.name_spec(),
    {
        match self {
            ToolResultKind::RunShellCommand => String::from_str("RunShellCommand"),
            ToolResultKind::ReadFiles => String::from_str("ReadFiles"),
            ToolResultKind::SearchCodebase => String::from_str("SearchCodebase"),
            ToolResultKind::ApplyFileDiffs => String::from_str("ApplyFileDiffs"),
            ToolResultKind::Grep => String::from_str("Grep"),
            ToolResultKind::FileGlobV2 => String::from_str("FileGlobV2"),
            ToolResultKind::ReadMcpResource => String::from_str("ReadMcpResource"),
            ToolResultKind::CallMcpTool => String::from_str("CallMcpTool"),
            ToolResultKind::SuggestPlan => String::from_str("SuggestPlan"),
            ToolResultKind::SuggestCreatePlan => String::from_str("SuggestCreatePlan"),
            ToolResultKind::ReadDocuments => String::from_str("ReadDocuments"),
            ToolResultKind::EditDocuments => String::from_str("EditDocuments"),
            ToolResultKind::CreateDocuments => String::from_str("CreateDocuments"),
            ToolResultKind::SuggestNewConversation => String::from_str("SuggestNewConversation"),
            ToolResultKind::SuggestPrompt => String::from_str("SuggestPrompt"),
            ToolResultKind::OpenCodeReview => String::from_str("OpenCodeReview"),
            ToolResultKind::InitProject => String::from_str("InitProject"),
            ToolResultKind::TransferShellCommandControlToUser => String::from_str("TransferShellCommandControlToUser"),
            ToolResultKind::ReadShellCommandOutput => String::from_str("ReadShellCommandOutput"),
            ToolResultKind::WriteToLongRunningShellCommand => String::from_str("WriteToLongRunningShellCommand"),
            ToolResultKind::AskUserQuestion => String::from_str("AskUserQuestion"),
            ToolResultKind::UploadFileArtifact => String::from_str("UploadFileArtifact"),
        }
    }

    /// Whether a result of this kind can be kept in a task's history: the
    /// results of shell commands, file reads, codebase searches, file diffs,
    /// grep, file globs, MCP resource reads and MCP tool calls.
    pub open spec fn is_persistable_spec(self) -> bool {
        match self {
            ToolResultKind::RunShellCommand | ToolResultKind::ReadFiles
            | ToolResultKind::SearchCodebase | ToolResultKind::ApplyFileDiffs
            | ToolResultKind::Grep | ToolResultKind::FileGlobV2
            | ToolResultKind::ReadMcpResource | ToolResultKind::CallMcpTool => true,
            _ => false,
        }
    }

    /// Whether a result of this kind can be kept in a task's history.
    pub fn is_persistable(&self) -> (b: bool)
        ensures
            b == self.is_persistable_spec(),
    {
        match self {
            ToolResultKind::RunShellCommand | ToolResultKind::ReadFiles
            | ToolResultKind::SearchCodebase | ToolResultKind::ApplyFileDiffs
            | ToolResultKind::Grep | ToolResultKind::FileGlobV2
            | ToolResultKind::ReadMcpResource | ToolResultKind::CallMcpTool => true,
            _ => false,
        }
    }
}

/// A tool's result: its kind and its encoded payload, carried unchanged.
#[derive(Debug, Clone, PartialEq, Eq)]
pub struct ToolResult {
    pub kind: ToolResultKind,
    pub payload: Vec<u8>,
}

/// A tool call's result recorded in a task.
#[derive(Debug, Clone, PartialEq, Eq)]
pub struct ToolCallResult {
    pub tool_call_id: String,
    pub result: Option<ToolResult>,
    /// The result rendered as markdown, where the result converts to an
    /// action result the client can render.
    pub rendered: Option<String>,
}

/// The content of a task message.
#[derive(Debug, Clone, PartialEq, Eq)]
pub enum MessageContent {
    UserQuery { query: String },
    AgentOutput { text: String },
    ToolCall(ToolCall),
    ToolCallResult(ToolCallResult),
    /// Any other kind of message, by its name.
    Other(String),
}

/// A message of a task.
#[derive(Debug, Clone, PartialEq, Eq)]
pub struct Message {
    pub id: String,
    pub task_id: String,
    pub request_id: String,
    pub message: Option<MessageContent>,
}

/// A task of the conversation, with its messages.
#[derive(Debug, Clone, PartialEq, Eq)]
pub struct Task {
    pub id: String,
    pub description: String,
    pub messages: Vec<Message>,
}

/// A field mask: the paths of the fields that an update touches.
#[derive(Debug, Clone, PartialEq, Eq)]
pub struct FieldMask {
    pub paths: Vec<String>,
}

/// What the client is asked to do.
#[derive(Debug, Clone, PartialEq, Eq)]
pub enum Action {
    AddMessagesToTask { task_id: String, messages: Vec<Message> },
    CreateTask { task: Option<Task> },
    AppendToMessageContent { task_id: String, message: Option<Message>, mask: Option<FieldMask> },
}

/// One client action.
#[derive(Debug, Clone, PartialEq, Eq)]
pub struct ClientAction {
    pub action: Option<Action>,
}

/// The start of a response stream.
#[derive(Debug, Clone, PartialEq, Eq)]
pub struct StreamInit {
    pub conversation_id: String,
    pub request_id: String,
    pub run_id: String,
}

/// Why a response stream finished.
#[derive(Debug, Clone, Copy, PartialEq, Eq)]
pub enum FinishReason {
    Done,
}

/// The end of a response stream.
#[derive(Debug, Clone, PartialEq, Eq)]
pub struct StreamFinished {
    pub reason: Option<FinishReason>,
}

/// The kind of a response event.
#[derive(Debug, Clone, PartialEq, Eq)]
pub enum ResponseEventType {
    Init(StreamInit),
    ClientActions(Vec<ClientAction>),
    Finished(StreamFinished),
}

/// One event of a response stream.
#[derive(Debug, Clone, PartialEq, Eq)]
pub struct ResponseEvent {
    pub event_type: Option<ResponseEventType>,
}

/// The result of an action that the client ran for the agent.
#[derive(Debug, Clone, PartialEq, Eq)]
pub struct AIAgentActionResult {
    /// The id of the tool call that the action answers.
    pub id: String,
    pub task_id: String,
    /// The result rendered as markdown.
    pub rendered: String,
    /// What the result converts to as a request input.
    pub request_input: RequestInputConversion,
}

/// What an action result converts to as a request input.
#[derive(Debug, Clone, PartialEq, Eq)]
pub enum RequestInputConversion {
    /// The conversion failed, with the failure's description.
    Failed(String),
    /// The result converted to an input other than a tool call result.
    NonToolInput,
    /// The result converted to a tool call result, with its result if any.
    ToolCallResult(Option<ToolResult>),
}

/// An input of an agent request.
#[derive(Debug, Clone, PartialEq, Eq)]
pub enum AIAgentInput {
    UserQuery { query: String },
    ActionResult { result: AIAgentActionResult },
    ResumeConversation,
    /// Any other kind of input, by its name.
    Other(String),
}

impl AIAgentInput {
    /// The name of the input's kind.
    pub open spec fn kind_name_spec(self) -> Seq<char> {
        match self {
            AIAgentInput::UserQuery { .. } => "UserQuery"@,
            AIAgentInput::ActionResult { .. } => "ActionResult"@,
            AIAgentInput::ResumeConversation => "ResumeConversation"@,
            AIAgentInput::Other(n) => n@,
        }
    }

    /// The name of the input's kind, as shown in error messages.
    pub fn kind_name(&self) -> (s: String)
        ensures
            s@ == self.kind_name_spec(),
    {
        match self {
            AIAgentInput::UserQuery { .. } => String::from_str("UserQuery"),
            AIAgentInput::ActionResult { .. } => String::from_str("ActionResult"),
            AIAgentInput::ResumeConversation => String::from_str("ResumeConversation"),
            AIAgentInput::Other(n) => n.clone(),
        }
    }
}

/// A plain user query input.
pub fn user_query_input(query: &str) -> (i: AIAgentInput)
    ensures
        i matches AIAgentInput::UserQuery { query: q } && q@ == query@,
{
    AIAgentInput::UserQuery { query: query.to_owned() }
}

/// An agent request: its inputs, the conversation's tasks and the selected
/// model.
#[derive(Debug, Clone, PartialEq, Eq)]
pub struct RequestParams {
    pub input: Vec<AIAgentInput>,
    pub tasks: Vec<Task>,
    pub model: String,
    pub conversation_token: Option<String>,
}

} // verus!
