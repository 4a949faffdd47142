//! The data of the conversation endpoints, and the rules by which the
//! answers of the backend become answers to the client.

use crate::text::{str_eq, text_of};
use vstd::prelude::*;
use vstd::string::StringExecFns;

verus! {

/// The body of an error answer.
#[derive(Debug, Clone)]
pub struct ErrorResponse {
    /// What went wrong.
    pub error: String,
    /// A short code for the kind of error.
    pub code: Option<String>,
}

/// Mathematical model of an [`ErrorResponse`].
pub struct ErrorView {
    pub error: Seq<char>,
    pub code: Option<Seq<char>>,
}

impl View for ErrorResponse {
    type V = ErrorView;

    open spec fn view(&self) -> ErrorView {
        ErrorView { error: self.error@, code: text_of(self.code) }
    }
}

/// The coding command lines that a conversation can run.
#[derive(Debug, Clone, Copy, PartialEq, Eq, Structural)]
pub enum ProviderId {
    Claude,
    Codex,
    Gemini,
    Opencode,
}

/// How a conversation is kept apart from others.
#[derive(Debug, Clone, Copy, PartialEq, Eq, Structural)]
pub enum IsolationMode {
    /// Not at all: it runs in the container as it is.
    NoIsolation,
    /// In a namespace that it shares.
    SharedNamespace,
    /// In a namespace of its own.
    DedicatedNamespace,
}

/// The snake-case name of an isolation mode.
pub open spec fn isolation_mode_text(m: IsolationMode) -> Seq<char> {
    match m {
        IsolationMode::NoIsolation => "none"@,
        IsolationMode::SharedNamespace => "shared_namespace"@,
        IsolationMode::DedicatedNamespace => "dedicated_namespace"@,
    }
}

impl IsolationMode {
    /// The snake-case name of this mode.
    pub fn name(&self) -> (r: String)
        ensures
            r@ == isolation_mode_text(*self),
    {
        match self {
            IsolationMode::NoIsolation => String::from_str("none"),
            IsolationMode::SharedNamespace => String::from_str("shared_namespace"),
            IsolationMode::DedicatedNamespace => String::from_str("dedicated_namespace"),
        }
    }
}

/// The state of a conversation.
#[derive(Debug, Clone, Copy, PartialEq, Eq, Structural)]
pub enum ConversationStatus {
    Active,
    Completed,
    Cancelled,
    Error,
}

/// What a client sends to open a conversation.
#[derive(Debug, Clone)]
pub struct CreateConversationRequest {
    pub team_id: String,
    pub provider_id: ProviderId,
    pub cwd: String,
    pub isolation_mode: Option<IsolationMode>,
    pub namespace_id: Option<String>,
    pub sandbox_instance_id: Option<String>,
}

/// What a client gets back for a conversation that was opened.
#[derive(Debug, Clone)]
pub struct CreateConversationResponse {
    pub conversation_id: String,
    pub jwt: String,
    pub websocket_url: String,
}

/// What an agent says of itself.
#[derive(Debug, Clone)]
pub struct AgentInfo {
    pub name: String,
    pub version: String,
    pub title: Option<String>,
}

/// One mode that an agent offers.
#[derive(Debug, Clone)]
pub struct ModeInfo {
    pub id: String,
    pub name: String,
    pub description: Option<String>,
}

/// The modes of an agent and the one that is in force.
#[derive(Debug, Clone)]
pub struct ModesConfig {
    pub current_mode_id: String,
    pub available_modes: Vec<ModeInfo>,
}

/// A conversation as the backend stores it.
#[derive(Debug, Clone)]
pub struct Conversation {
    pub id: String,
    pub team_id: String,
    pub user_id: Option<String>,
    pub session_id: String,
    pub provider_id: String,
    pub cwd: String,
    pub status: String,
    pub stop_reason: Option<String>,
    pub isolation_mode: Option<String>,
    pub namespace_id: Option<String>,
    pub sandbox_instance_id: Option<String>,
    pub agent_info: Option<AgentInfo>,
    pub modes: Option<ModesConfig>,
    pub created_at: i64,
    pub updated_at: i64,
}

/// One block of content in a message.
#[derive(Debug, Clone)]
pub enum ContentBlock {
    /// Text.
    Text { text: String },
    /// An image in base64.
    Image { data: Option<String>, mime_type: Option<String> },
    /// A link to a resource.
    ResourceLink { uri: String, name: Option<String>, description: Option<String> },
}

/// The tag under which a block of content is written.
pub open spec fn content_block_tag(b: ContentBlock) -> Seq<char> {
    match b {
        ContentBlock::Text { .. } => "text"@,
        ContentBlock::Image { .. } => "image"@,
        ContentBlock::ResourceLink { .. } => "resource_link"@,
    }
}

impl ContentBlock {
    /// The tag under which this block is written.
    pub fn tag(&self) -> (r: &'static str)
        ensures
            r@ == content_block_tag(*self),
    {
        match self {
            ContentBlock::Text { .. } => "text",
            ContentBlock::Image { .. } => "image",
            ContentBlock::ResourceLink { .. } => "resource_link",
        }
    }
}

/// A call of a tool in a message.
#[derive(Debug, Clone)]
pub struct ToolCall {
    pub id: String,
    pub name: String,
    pub arguments: String,
    pub status: String,
    pub result: Option<String>,
}

/// The query of a request that lists conversations.
#[derive(Debug, Clone)]
pub struct ListConversationsQuery {
    pub team_slug_or_id: String,
    pub status: Option<String>,
    pub limit: Option<i32>,
}

/// The query of a request that lists messages.
#[derive(Debug, Clone)]
pub struct ListMessagesQuery {
    pub team_slug_or_id: String,
    pub limit: Option<i32>,
}

/// The description of the conversation endpoints.
#[derive(Debug, Clone, Copy)]
pub struct RestApiDoc;

/// The arguments with which a conversation is created in the backend.
#[derive(Debug, Clone)]
pub struct CreateArgs {
    pub team_id: String,
    pub session_id: String,
    pub provider_id: String,
    pub cwd: String,
    pub isolation_mode: Option<String>,
    pub namespace_id: Option<String>,
    pub sandbox_instance_id: Option<String>,
}

/// Mathematical model of [`CreateArgs`].
pub struct CreateArgsView {
    pub team_id: Seq<char>,
    pub session_id: Seq<char>,
    pub provider_id: Seq<char>,
    pub cwd: Seq<char>,
    pub isolation_mode: Option<Seq<char>>,
    pub namespace_id: Option<Seq<char>>,
    pub sandbox_instance_id: Option<Seq<char>>,
}

impl View for CreateArgs {
    type V = CreateArgsView;

    open spec fn view(&self) -> CreateArgsView {
        CreateArgsView {
            team_id: self.team_id@,
            session_id: self.session_id@,
            provider_id: self.provider_id@,
            cwd: self.cwd@,
            isolation_mode: text_of(self.isolation_mode),
            namespace_id: text_of(self.namespace_id),
            sandbox_instance_id: text_of(self.sandbox_instance_id),
        }
    }
}

/// The arguments for a request, a fresh session identifier and the name of
/// the provider: the isolation mode goes by its name, everything else is
/// handed on.
pub fn create_args(
    request: &CreateConversationRequest,
    session_id: String,
    provider_name: String,
) -> (r: CreateArgs)
    ensures
        r@ == (CreateArgsView {
            team_id: request.team_id@,
            session_id: session_id@,
            provider_id: provider_name@,
            cwd: request.cwd@,
            isolation_mode: match request.isolation_mode {
                Some(m) => Some(isolation_mode_text(m)),
                None => None,
            },
            namespace_id: text_of(request.namespace_id),
            sandbox_instance_id: text_of(request.sandbox_instance_id),
        }),
{
    CreateArgs {
        team_id: request.team_id.clone(),
        session_id: session_id,
        provider_id: provider_name,
        cwd: request.cwd.clone(),
        isolation_mode: match &request.isolation_mode {
            Some(m) => Some(m.name()),
            None => None,
        },
        namespace_id: match &request.namespace_id {
            Some(n) => Some(n.clone()),
            None => None,
        },
        sandbox_instance_id: match &request.sandbox_instance_id {
            Some(n) => Some(n.clone()),
            None => None,
        },
    }
}

/// The web socket URL `ws://{host}/api/acp`; `localhost` stands for a request
/// without a usable `Host` header.
pub open spec fn websocket_text(host: Option<Seq<char>>) -> Seq<char> {
    "ws://"@ + (match host {
        Some(h) => h,
        None => "localhost"@,
    }) + "/api/acp"@
}

/// The web socket URL that a client connects to.
pub fn websocket_url(host: Option<&str>) -> (r: String)
    ensures
        r@ == websocket_text(
            match host {
                Some(h) => Some(h@),
                None => None,
            },
        ),
{
    let mut r = String::from_str("ws://");
    match host {
        Some(h) => r.append(h),
        None => r.append("localhost"),
    }
    r.append("/api/acp");
    r
}

/// `{base}/api/{kind}`: where mutations and queries are posted.
pub fn backend_url(base: &str, kind: &str) -> (r: String)
    ensures
        r@ == base@ + "/api/"@ + kind@,
{
    let mut r = String::from_str(base);
    r.append("/api/");
    r.append(kind);
    r
}

/// `Convex {admin_key}`: the authorization that the backend asks for.
pub fn backend_authorization(admin_key: &str) -> (r: String)
    ensures
        r@ == "Convex "@ + admin_key@,
{
    let mut r = String::from_str("Convex ");
    r.append(admin_key);
    r
}

/// An error answer with its status.
#[derive(Debug, Clone)]
pub struct Failure {
    pub status: u16,
    pub body: ErrorResponse,
}

/// Mathematical model of a [`Failure`].
pub struct FailureView {
    pub status: u16,
    pub body: ErrorView,
}

impl View for Failure {
    type V = FailureView;

    open spec fn view(&self) -> FailureView {
        FailureView { status: self.status, body: self.body@ }
    }
}

/// What becomes of an answer of the backend: a status other than `success` is
/// a bad request with the backend's message, or `Unknown error` where it gave
/// none; a success without a value is an internal error.
pub open spec fn reply_failure(
    status: Seq<char>,
    has_value: bool,
    message: Option<Seq<char>>,
) -> Option<FailureView> {
    if status != "success"@ {
        Some(
            FailureView {
                status: 400,
                body: ErrorView {
                    error: match message {
                        Some(m) => m,
                        None => "Unknown error"@,
                    },
                    code: Some("CONVEX_ERROR"@),
                },
            },
        )
    } else if !has_value {
        Some(
            FailureView {
                status: 500,
                body: ErrorView { error: "No value in response"@, code: Some("NO_VALUE"@) },
            },
        )
    } else {
        None
    }
}

/// Reads an answer of the backend: its value on success, else the error
/// answer for the client.
pub fn interpret_reply<T>(status: &str, value: Option<T>, error_message: Option<String>) -> (r:
    Result<T, Failure>)
    ensures
        match r {
            Ok(v) => value == Some(v) && reply_failure(status@, true, text_of(error_message))
                is None,
            Err(f) => reply_failure(status@, value is Some, text_of(error_message)) == Some(f@),
        },
{
    if !str_eq(status, "success") {
        let message = match error_message {
            Some(m) => m,
            None => String::from_str("Unknown error"),
        };
        return Err(
            Failure {
                status: 400,
                body: ErrorResponse {
                    error: message,
                    code: Some(String::from_str("CONVEX_ERROR")),
                },
            },
        );
    }
    match value {
        Some(v) => Ok(v),
        None => Err(
            Failure {
                status: 500,
                body: ErrorResponse {
                    error: String::from_str("No value in response"),
                    code: Some(String::from_str("NO_VALUE")),
                },
            },
        ),
    }
}

/// An internal error with a message that ends in its cause, under a code.
fn internal_failure(what: &str, cause: &str, code: &str) -> (f: Failure)
    ensures
        f@ == (FailureView {
            status: 500,
            body: ErrorView { error: what@ + cause@, code: Some(code@) },
        }),
{
    let mut error = String::from_str(what);
    error.append(cause);
    Failure { status: 500, body: ErrorResponse { error: error, code: Some(String::from_str(code)) } }
}

/// The answer for a request that could not be written for the backend.
pub fn serialize_failure(cause: &str) -> (f: Failure)
    ensures
        f@ == (FailureView {
            status: 500,
            body: ErrorView {
                error: "Failed to serialize request: "@ + cause@,
                code: Some("SERIALIZE_ERROR"@),
            },
        }),
{
    internal_failure("Failed to serialize request: ", cause, "SERIALIZE_ERROR")
}

/// The answer for a backend that could not be reached.
pub fn backend_unreachable(cause: &str) -> (f: Failure)
    ensures
        f@ == (FailureView {
            status: 500,
            body: ErrorView {
                error: "Failed to call Convex: "@ + cause@,
                code: Some("CONVEX_ERROR"@),
            },
        }),
{
    internal_failure("Failed to call Convex: ", cause, "CONVEX_ERROR")
}

/// The answer for a backend whose answer could not be read.
pub fn backend_unreadable(cause: &str) -> (f: Failure)
    ensures
        f@ == (FailureView {
            status: 500,
            body: ErrorView {
                error: "Failed to parse Convex response: "@ + cause@,
                code: Some("PARSE_ERROR"@),
            },
        }),
{
    internal_failure("Failed to parse Convex response: ", cause, "PARSE_ERROR")
}

/// The answer for a conversation that the backend does not know.
pub fn conversation_not_found() -> (f: Failure)
    ensures
        f@ == (FailureView {
            status: 404,
            body: ErrorView { error: "Conversation not found"@, code: Some("NOT_FOUND"@) },
        }),
{
    Failure {
        status: 404,
        body: ErrorResponse {
            error: String::from_str("Conversation not found"),
            code: Some(String::from_str("NOT_FOUND")),
        },
    }
}

} // verus!
