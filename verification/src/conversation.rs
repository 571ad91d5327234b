//! Conversations and messages as the steward sees them.
use vstd::prelude::*;
use crate::json::{Json, JsonView};
use crate::text::opt_view;

verus! {

/// The persisted status of a conversation.
#[derive(Debug, Clone, Copy, PartialEq, Eq, Structural)]
pub enum ConversationStatus {
    Pending,
    Running,
    Finished,
}

/// What the runtime of a conversation is doing.
#[derive(Debug, Clone, Copy, PartialEq, Eq, Structural)]
pub enum ConversationRuntimeStateKind {
    Idle,
    Starting,
    Running,
    Cancelling,
    Restarting,
    WaitingConfirmation,
}

/// On which side a message stands.
#[derive(Debug, Clone, Copy, PartialEq, Eq, Structural)]
pub enum MessagePosition {
    Left,
    Right,
    Center,
    Pop,
}

/// How far a message has come.
#[derive(Debug, Clone, Copy, PartialEq, Eq, Structural)]
pub enum MessageStatus {
    Finish,
    Pending,
    Error,
    Work,
}

/// What kind of content a message has.
#[derive(Debug, Clone, Copy, PartialEq, Eq, Structural)]
pub enum MessageType {
    Text,
    ToolCall,
    Other,
}

/// The volatile runtime state of a conversation.
#[derive(Debug, Clone)]
pub struct ConversationRuntimeSummary {
    pub state: ConversationRuntimeStateKind,
    pub can_send_message: bool,
    pub has_task: bool,
    pub task_status: Option<ConversationStatus>,
    pub is_processing: bool,
    pub pending_confirmations: usize,
    pub turn_id: Option<String>,
    pub supports_midturn_delivery: bool,
}

/// The model of [`ConversationRuntimeSummary`].
#[verifier::ext_equal]
pub struct ConversationRuntimeSummaryView {
    pub state: ConversationRuntimeStateKind,
    pub can_send_message: bool,
    pub has_task: bool,
    pub task_status: Option<ConversationStatus>,
    pub is_processing: bool,
    pub pending_confirmations: usize,
    pub turn_id: Option<Seq<char>>,
    pub supports_midturn_delivery: bool,
}

impl View for ConversationRuntimeSummary {
    type V = ConversationRuntimeSummaryView;

    open spec fn view(&self) -> ConversationRuntimeSummaryView {
        ConversationRuntimeSummaryView {
            state: self.state,
            can_send_message: self.can_send_message,
            has_task: self.has_task,
            task_status: self.task_status,
            is_processing: self.is_processing,
            pending_confirmations: self.pending_confirmations,
            turn_id: opt_view(self.turn_id),
            supports_midturn_delivery: self.supports_midturn_delivery,
        }
    }
}

/// The assistant that answers in a conversation.
#[derive(Debug, Clone)]
pub struct ConversationAssistant {
    pub name: String,
    pub backend: String,
}

/// The model of [`ConversationAssistant`].
#[verifier::ext_equal]
pub struct ConversationAssistantView {
    pub name: Seq<char>,
    pub backend: Seq<char>,
}

impl View for ConversationAssistant {
    type V = ConversationAssistantView;

    open spec fn view(&self) -> ConversationAssistantView {
        ConversationAssistantView {
            name: self.name@,
            backend: self.backend@,
        }
    }
}

/// A conversation as its service reports it.
#[derive(Debug, Clone)]
pub struct ConversationResponse {
    pub id: String,
    pub name: String,
    pub name_source: Option<String>,
    pub status: ConversationStatus,
    pub runtime: Option<ConversationRuntimeSummary>,
    pub extra: Json,
    pub project_id: Option<String>,
    pub assistant: Option<ConversationAssistant>,
    pub modified_at: i64,
}

/// The model of [`ConversationResponse`].
#[verifier::ext_equal]
pub struct ConversationResponseView {
    pub id: Seq<char>,
    pub name: Seq<char>,
    pub name_source: Option<Seq<char>>,
    pub status: ConversationStatus,
    pub runtime: Option<ConversationRuntimeSummaryView>,
    pub extra: JsonView,
    pub project_id: Option<Seq<char>>,
    pub assistant: Option<ConversationAssistantView>,
    pub modified_at: i64,
}

impl View for ConversationResponse {
    type V = ConversationResponseView;

    open spec fn view(&self) -> ConversationResponseView {
        ConversationResponseView {
            id: self.id@,
            name: self.name@,
            name_source: opt_view(self.name_source),
            status: self.status,
            runtime: opt_view(self.runtime),
            extra: self.extra@,
            project_id: opt_view(self.project_id),
            assistant: opt_view(self.assistant),
            modified_at: self.modified_at,
        }
    }
}

/// A message as its service reports it.
#[derive(Debug, Clone)]
pub struct MessageResponse {
    pub id: String,
    pub conversation_id: String,
    pub msg_id: Option<String>,
    pub message_type: MessageType,
    pub content: Json,
    pub position: Option<MessagePosition>,
    pub status: Option<MessageStatus>,
    pub hidden: bool,
    pub created_at: i64,
    pub backend_turn_id: Option<String>,
}

/// The model of [`MessageResponse`].
#[verifier::ext_equal]
pub struct MessageResponseView {
    pub id: Seq<char>,
    pub conversation_id: Seq<char>,
    pub msg_id: Option<Seq<char>>,
    pub message_type: MessageType,
    pub content: JsonView,
    pub position: Option<MessagePosition>,
    pub status: Option<MessageStatus>,
    pub hidden: bool,
    pub created_at: i64,
    pub backend_turn_id: Option<Seq<char>>,
}

impl View for MessageResponse {
    type V = MessageResponseView;

    open spec fn view(&self) -> MessageResponseView {
        MessageResponseView {
            id: self.id@,
            conversation_id: self.conversation_id@,
            msg_id: opt_view(self.msg_id),
            message_type: self.message_type,
            content: self.content@,
            position: self.position,
            status: self.status,
            hidden: self.hidden,
            created_at: self.created_at,
            backend_turn_id: opt_view(self.backend_turn_id),
        }
    }
}

/// A message as it is stored.
#[derive(Debug, Clone)]
pub struct MessageRow {
    pub id: String,
    pub conversation_id: String,
    pub msg_id: Option<String>,
    pub message_type: String,
    pub content: String,
    pub position: Option<String>,
    pub status: Option<String>,
    pub hidden: bool,
    pub created_at: i64,
    pub backend_turn_id: Option<String>,
}

/// The model of [`MessageRow`].
#[verifier::ext_equal]
pub struct MessageRowView {
    pub id: Seq<char>,
    pub conversation_id: Seq<char>,
    pub msg_id: Option<Seq<char>>,
    pub message_type: Seq<char>,
    pub content: Seq<char>,
    pub position: Option<Seq<char>>,
    pub status: Option<Seq<char>>,
    pub hidden: bool,
    pub created_at: i64,
    pub backend_turn_id: Option<Seq<char>>,
}

impl View for MessageRow {
    type V = MessageRowView;

    open spec fn view(&self) -> MessageRowView {
        MessageRowView {
            id: self.id@,
            conversation_id: self.conversation_id@,
            msg_id: opt_view(self.msg_id),
            message_type: self.message_type@,
            content: self.content@,
            position: opt_view(self.position),
            status: opt_view(self.status),
            hidden: self.hidden,
            created_at: self.created_at,
            backend_turn_id: opt_view(self.backend_turn_id),
        }
    }
}

/// The receipt for a message that was accepted.
#[derive(Debug, Clone)]
pub struct SendMessageResponse {
    pub msg_id: String,
    pub turn_id: String,
}

/// The model of [`SendMessageResponse`].
#[verifier::ext_equal]
pub struct SendMessageResponseView {
    pub msg_id: Seq<char>,
    pub turn_id: Seq<char>,
}

impl View for SendMessageResponse {
    type V = SendMessageResponseView;

    open spec fn view(&self) -> SendMessageResponseView {
        SendMessageResponseView {
            msg_id: self.msg_id@,
            turn_id: self.turn_id@,
        }
    }
}

/// What a conversation is to be created with.
#[derive(Debug, Clone)]
pub struct CreateConversationPlan {
    pub name: String,
    pub assistant_id: String,
    pub locale: String,
    pub extra: Json,
}

/// The model of [`CreateConversationPlan`].
#[verifier::ext_equal]
pub struct CreateConversationPlanView {
    pub name: Seq<char>,
    pub assistant_id: Seq<char>,
    pub locale: Seq<char>,
    pub extra: JsonView,
}

impl View for CreateConversationPlan {
    type V = CreateConversationPlanView;

    open spec fn view(&self) -> CreateConversationPlanView {
        CreateConversationPlanView {
            name: self.name@,
            assistant_id: self.assistant_id@,
            locale: self.locale@,
            extra: self.extra@,
        }
    }
}

/// Why a request could not be served.
#[derive(Debug, Clone, PartialEq)]
pub enum ConversationError {
    BadRequest { reason: String },
    NotFound { reason: String },
    Internal { reason: String },
    Busy { reason: String },
    Timeout { reason: String },
    BadGateway { reason: String },
}

/// The model of [`ConversationError`].
#[verifier::ext_equal]
pub enum ConversationErrorView {
    BadRequest { reason: Seq<char> },
    NotFound { reason: Seq<char> },
    Internal { reason: Seq<char> },
    Busy { reason: Seq<char> },
    Timeout { reason: Seq<char> },
    BadGateway { reason: Seq<char> },
}

impl View for ConversationError {
    type V = ConversationErrorView;

    open spec fn view(&self) -> ConversationErrorView {
        match *self {
            ConversationError::BadRequest { reason } => ConversationErrorView::BadRequest { reason: reason@ },
            ConversationError::NotFound { reason } => ConversationErrorView::NotFound { reason: reason@ },
            ConversationError::Internal { reason } => ConversationErrorView::Internal { reason: reason@ },
            ConversationError::Busy { reason } => ConversationErrorView::Busy { reason: reason@ },
            ConversationError::Timeout { reason } => ConversationErrorView::Timeout { reason: reason@ },
            ConversationError::BadGateway { reason } => ConversationErrorView::BadGateway { reason: reason@ },
        }
    }
}

impl ConversationError {
    /// The request itself is wrong.
    pub fn bad_request(reason: String) -> (r: ConversationError)
        ensures
            r@ == (ConversationErrorView::BadRequest { reason: reason@ }),
    {
        ConversationError::BadRequest { reason }
    }

    /// What the request names is not there.
    pub fn not_found_reason(reason: String) -> (r: ConversationError)
        ensures
            r@ == (ConversationErrorView::NotFound { reason: reason@ }),
    {
        ConversationError::NotFound { reason }
    }

    /// What is stored is not what it should be.
    pub fn internal(reason: String) -> (r: ConversationError)
        ensures
            r@ == (ConversationErrorView::Internal { reason: reason@ }),
    {
        ConversationError::Internal { reason }
    }
}

/// The model of what a fallible call returns.
pub open spec fn result_view<T: View>(r: Result<T, ConversationError>) -> Result<T::V, ConversationErrorView> {
    match r {
        Ok(x) => Ok(x@),
        Err(e) => Err(e@),
    }
}

/// What a message to an embedded team was given: its own identifier, and that of the run that
/// it belongs to.
#[derive(Debug, Clone, PartialEq, Eq)]
pub struct EmbeddedTeamSendResult {
    pub message_id: String,
    pub team_run_id: String,
}

/// The error that an operation of an embedded team ended with.
pub fn map_team_error(error: &str) -> (r: ConversationError)
    ensures
        r@ == (ConversationErrorView::BadGateway { reason: "Embedded team operation failed: "@ + error@ }),
{
    let mut reason = "Embedded team operation failed: ".to_owned();
    reason.append(error);
    ConversationError::BadGateway { reason }
}

} // verus!
