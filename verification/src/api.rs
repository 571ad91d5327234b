//! Requests to the steward and its answers.
use vstd::prelude::*;
use crate::conversation::ConversationStatus;
use crate::json::{Json, JsonView};
use crate::text::{copy_opt, copy_texts, opt_view, views};

verus! {

/// The name under which the steward's tools are offered to its conversation.
pub const STEWARD_MCP_SERVER_NAME: &'static str = "aionui-steward";

/// The assistant that a steward gets when none is chosen.
pub const DEFAULT_STEWARD_ASSISTANT_ID: &'static str = "bare:8e1acf31";

/// Whether a task is still to be done.
#[derive(Debug, Clone, Copy, PartialEq, Eq, Structural)]
pub enum StewardTaskLifecycle {
    Open,
    Completed,
    Cancelled,
    Archived,
}

/// The stored name of a lifecycle.
pub open spec fn lifecycle_name(x: StewardTaskLifecycle) -> Seq<char> {
    match x {
        StewardTaskLifecycle::Open => "open"@,
        StewardTaskLifecycle::Completed => "completed"@,
        StewardTaskLifecycle::Cancelled => "cancelled"@,
        StewardTaskLifecycle::Archived => "archived"@,
    }
}

impl StewardTaskLifecycle {
    /// The stored name of a lifecycle.
    pub fn as_str(&self) -> (r: &'static str)
        ensures
            r@ == lifecycle_name(*self),
    {
        match self {
            StewardTaskLifecycle::Open => "open",
            StewardTaskLifecycle::Completed => "completed",
            StewardTaskLifecycle::Cancelled => "cancelled",
            StewardTaskLifecycle::Archived => "archived",
        }
    }
}

/// What the execution of a task is doing, whatever its lifecycle.
#[derive(Debug, Clone, Copy, PartialEq, Eq, Structural)]
pub enum StewardExecutionState {
    Unassigned,
    Running,
    WaitingUser,
    WaitingExternal,
    Paused,
    Interrupted,
    Failed,
    Idle,
}

/// The stored name of an execution state.
pub open spec fn execution_state_name(x: StewardExecutionState) -> Seq<char> {
    match x {
        StewardExecutionState::Unassigned => "unassigned"@,
        StewardExecutionState::Running => "running"@,
        StewardExecutionState::WaitingUser => "waiting_user"@,
        StewardExecutionState::WaitingExternal => "waiting_external"@,
        StewardExecutionState::Paused => "paused"@,
        StewardExecutionState::Interrupted => "interrupted"@,
        StewardExecutionState::Failed => "failed"@,
        StewardExecutionState::Idle => "idle"@,
    }
}

impl StewardExecutionState {
    /// The stored name of an execution state.
    pub fn as_str(&self) -> (r: &'static str)
        ensures
            r@ == execution_state_name(*self),
    {
        match self {
            StewardExecutionState::Unassigned => "unassigned",
            StewardExecutionState::Running => "running",
            StewardExecutionState::WaitingUser => "waiting_user",
            StewardExecutionState::WaitingExternal => "waiting_external",
            StewardExecutionState::Paused => "paused",
            StewardExecutionState::Interrupted => "interrupted",
            StewardExecutionState::Failed => "failed",
            StewardExecutionState::Idle => "idle",
        }
    }
}

/// What a conversation is to a task.
#[derive(Debug, Clone, Copy, PartialEq, Eq, Structural)]
pub enum StewardSessionRole {
    Primary,
    Worker,
    Replacement,
    Observer,
}

/// The stored name of a role.
pub open spec fn session_role_name(x: StewardSessionRole) -> Seq<char> {
    match x {
        StewardSessionRole::Primary => "primary"@,
        StewardSessionRole::Worker => "worker"@,
        StewardSessionRole::Replacement => "replacement"@,
        StewardSessionRole::Observer => "observer"@,
    }
}

impl StewardSessionRole {
    /// The stored name of a role.
    pub fn as_str(&self) -> (r: &'static str)
        ensures
            r@ == session_role_name(*self),
    {
        match self {
            StewardSessionRole::Primary => "primary",
            StewardSessionRole::Worker => "worker",
            StewardSessionRole::Replacement => "replacement",
            StewardSessionRole::Observer => "observer",
        }
    }
}

/// A conversation bound to a task.
#[derive(Debug, Clone)]
pub struct StewardTaskSessionResponse {
    pub id: String,
    pub conversation_id: String,
    pub conversation_name: String,
    pub role: StewardSessionRole,
    pub status: Option<ConversationStatus>,
    pub workspace: Option<String>,
    pub project_id: Option<String>,
    pub created_at: i64,
}

/// The model of [`StewardTaskSessionResponse`].
#[verifier::ext_equal]
pub struct StewardTaskSessionResponseView {
    pub id: Seq<char>,
    pub conversation_id: Seq<char>,
    pub conversation_name: Seq<char>,
    pub role: StewardSessionRole,
    pub status: Option<ConversationStatus>,
    pub workspace: Option<Seq<char>>,
    pub project_id: Option<Seq<char>>,
    pub created_at: i64,
}

impl View for StewardTaskSessionResponse {
    type V = StewardTaskSessionResponseView;

    open spec fn view(&self) -> StewardTaskSessionResponseView {
        StewardTaskSessionResponseView {
            id: self.id@,
            conversation_id: self.conversation_id@,
            conversation_name: self.conversation_name@,
            role: self.role,
            status: self.status,
            workspace: opt_view(self.workspace),
            project_id: opt_view(self.project_id),
            created_at: self.created_at,
        }
    }
}

impl StewardTaskSessionResponse {
    /// A copy with the same content.
    pub fn copy(&self) -> (r: StewardTaskSessionResponse)
        ensures
            r@ == self@,
    {
        StewardTaskSessionResponse {
            id: self.id.clone(),
            conversation_id: self.conversation_id.clone(),
            conversation_name: self.conversation_name.clone(),
            role: self.role,
            status: self.status,
            workspace: copy_opt(&self.workspace),
            project_id: copy_opt(&self.project_id),
            created_at: self.created_at,
        }
    }
}

/// Something that happened to a task.
#[derive(Debug, Clone)]
pub struct StewardTaskEventResponse {
    pub id: String,
    pub source: String,
    pub event_type: String,
    pub payload: Json,
    pub created_at: i64,
}

/// The model of [`StewardTaskEventResponse`].
#[verifier::ext_equal]
pub struct StewardTaskEventResponseView {
    pub id: Seq<char>,
    pub source: Seq<char>,
    pub event_type: Seq<char>,
    pub payload: JsonView,
    pub created_at: i64,
}

impl View for StewardTaskEventResponse {
    type V = StewardTaskEventResponseView;

    open spec fn view(&self) -> StewardTaskEventResponseView {
        StewardTaskEventResponseView {
            id: self.id@,
            source: self.source@,
            event_type: self.event_type@,
            payload: self.payload@,
            created_at: self.created_at,
        }
    }
}

impl StewardTaskEventResponse {
    /// A copy with the same content.
    pub fn copy(&self) -> (r: StewardTaskEventResponse)
        ensures
            r@ == self@,
    {
        StewardTaskEventResponse {
            id: self.id.clone(),
            source: self.source.clone(),
            event_type: self.event_type.clone(),
            payload: self.payload.clone(),
            created_at: self.created_at,
        }
    }
}

fn copy_sessions(v: &Vec<StewardTaskSessionResponse>) -> (r: Vec<StewardTaskSessionResponse>)
    ensures
        views(r@) == views(v@),
{
    let mut r: Vec<StewardTaskSessionResponse> = Vec::new();
    let mut i: usize = 0;
    while i < v.len()
        invariant
            i <= v@.len(),
            r@.len() == i,
            forall|k: int| 0 <= k < i ==> #[trigger] r@[k]@ == v@[k]@,
        decreases v@.len() - i,
    {
        r.push(v[i].copy());
        i += 1;
    }
    assert(views(r@) =~= views(v@));
    r
}

fn copy_events(v: &Vec<StewardTaskEventResponse>) -> (r: Vec<StewardTaskEventResponse>)
    ensures
        views(r@) == views(v@),
{
    let mut r: Vec<StewardTaskEventResponse> = Vec::new();
    let mut i: usize = 0;
    while i < v.len()
        invariant
            i <= v@.len(),
            r@.len() == i,
            forall|k: int| 0 <= k < i ==> #[trigger] r@[k]@ == v@[k]@,
        decreases v@.len() - i,
    {
        r.push(v[i].copy());
        i += 1;
    }
    assert(views(r@) =~= views(v@));
    r
}

/// A task with its conversations and events.
#[derive(Debug, Clone)]
pub struct StewardTaskResponse {
    pub id: String,
    pub title: String,
    pub objective: String,
    pub lifecycle: StewardTaskLifecycle,
    pub execution_state: StewardExecutionState,
    pub priority: i64,
    pub progress_summary: Option<String>,
    pub next_action: Option<String>,
    pub blockers: Vec<String>,
    pub project_id: Option<String>,
    pub folder_id: Option<String>,
    pub workspace: Option<String>,
    pub permission_policy: Json,
    pub budget_policy: Json,
    pub sessions: Vec<StewardTaskSessionResponse>,
    pub events: Vec<StewardTaskEventResponse>,
    pub created_at: i64,
    pub updated_at: i64,
}

/// The model of [`StewardTaskResponse`].
#[verifier::ext_equal]
pub struct StewardTaskResponseView {
    pub id: Seq<char>,
    pub title: Seq<char>,
    pub objective: Seq<char>,
    pub lifecycle: StewardTaskLifecycle,
    pub execution_state: StewardExecutionState,
    pub priority: i64,
    pub progress_summary: Option<Seq<char>>,
    pub next_action: Option<Seq<char>>,
    pub blockers: Seq<Seq<char>>,
    pub project_id: Option<Seq<char>>,
    pub folder_id: Option<Seq<char>>,
    pub workspace: Option<Seq<char>>,
    pub permission_policy: JsonView,
    pub budget_policy: JsonView,
    pub sessions: Seq<StewardTaskSessionResponseView>,
    pub events: Seq<StewardTaskEventResponseView>,
    pub created_at: i64,
    pub updated_at: i64,
}

impl View for StewardTaskResponse {
    type V = StewardTaskResponseView;

    open spec fn view(&self) -> StewardTaskResponseView {
        StewardTaskResponseView {
            id: self.id@,
            title: self.title@,
            objective: self.objective@,
            lifecycle: self.lifecycle,
            execution_state: self.execution_state,
            priority: self.priority,
            progress_summary: opt_view(self.progress_summary),
            next_action: opt_view(self.next_action),
            blockers: views(self.blockers@),
            project_id: opt_view(self.project_id),
            folder_id: opt_view(self.folder_id),
            workspace: opt_view(self.workspace),
            permission_policy: self.permission_policy@,
            budget_policy: self.budget_policy@,
            sessions: views(self.sessions@),
            events: views(self.events@),
            created_at: self.created_at,
            updated_at: self.updated_at,
        }
    }
}

impl StewardTaskResponse {
    /// A copy with the same content.
    pub fn copy(&self) -> (r: StewardTaskResponse)
        ensures
            r@ == self@,
    {
        StewardTaskResponse {
            id: self.id.clone(),
            title: self.title.clone(),
            objective: self.objective.clone(),
            lifecycle: self.lifecycle,
            execution_state: self.execution_state,
            priority: self.priority,
            progress_summary: copy_opt(&self.progress_summary),
            next_action: copy_opt(&self.next_action),
            blockers: copy_texts(&self.blockers),
            project_id: copy_opt(&self.project_id),
            folder_id: copy_opt(&self.folder_id),
            workspace: copy_opt(&self.workspace),
            permission_policy: self.permission_policy.clone(),
            budget_policy: self.budget_policy.clone(),
            sessions: copy_sessions(&self.sessions),
            events: copy_events(&self.events),
            created_at: self.created_at,
            updated_at: self.updated_at,
        }
    }
}

/// What a task is to be created with.
#[derive(Debug, Clone)]
pub struct CreateStewardTaskRequest {
    pub title: String,
    pub objective: String,
    pub priority: i64,
    pub project_id: Option<String>,
    pub folder_id: Option<String>,
    pub workspace: Option<String>,
    pub permission_policy: Json,
    pub budget_policy: Json,
    pub conversation_id: Option<String>,
}

/// The model of [`CreateStewardTaskRequest`].
#[verifier::ext_equal]
pub struct CreateStewardTaskRequestView {
    pub title: Seq<char>,
    pub objective: Seq<char>,
    pub priority: i64,
    pub project_id: Option<Seq<char>>,
    pub folder_id: Option<Seq<char>>,
    pub workspace: Option<Seq<char>>,
    pub permission_policy: JsonView,
    pub budget_policy: JsonView,
    pub conversation_id: Option<Seq<char>>,
}

impl View for CreateStewardTaskRequest {
    type V = CreateStewardTaskRequestView;

    open spec fn view(&self) -> CreateStewardTaskRequestView {
        CreateStewardTaskRequestView {
            title: self.title@,
            objective: self.objective@,
            priority: self.priority,
            project_id: opt_view(self.project_id),
            folder_id: opt_view(self.folder_id),
            workspace: opt_view(self.workspace),
            permission_policy: self.permission_policy@,
            budget_policy: self.budget_policy@,
            conversation_id: opt_view(self.conversation_id),
        }
    }
}

/// Which parts of a task are to change.
#[derive(Debug, Clone)]
pub struct UpdateStewardTaskRequest {
    pub title: Option<String>,
    pub objective: Option<String>,
    pub lifecycle: Option<StewardTaskLifecycle>,
    pub execution_state: Option<StewardExecutionState>,
    pub priority: Option<i64>,
    pub progress_summary: Option<String>,
    pub next_action: Option<String>,
    pub blockers: Option<Vec<String>>,
    pub project_id: Option<String>,
    pub folder_id: Option<String>,
    pub workspace: Option<String>,
    pub permission_policy: Option<Json>,
    pub budget_policy: Option<Json>,
}

/// Which tasks are to be listed.
#[derive(Debug, Clone)]
pub struct ListStewardTasksQuery {
    pub query: Option<String>,
    pub lifecycle: Option<StewardTaskLifecycle>,
    pub limit: Option<u32>,
}

/// What work is to be found again.
#[derive(Debug, Clone)]
pub struct ResolveStewardTaskRequest {
    pub objective: String,
    pub project_id: Option<String>,
    pub workspace: Option<String>,
    pub limit: Option<u32>,
}

/// The model of [`ResolveStewardTaskRequest`].
#[verifier::ext_equal]
pub struct ResolveStewardTaskRequestView {
    pub objective: Seq<char>,
    pub project_id: Option<Seq<char>>,
    pub workspace: Option<Seq<char>>,
    pub limit: Option<u32>,
}

impl View for ResolveStewardTaskRequest {
    type V = ResolveStewardTaskRequestView;

    open spec fn view(&self) -> ResolveStewardTaskRequestView {
        ResolveStewardTaskRequestView {
            objective: self.objective@,
            project_id: opt_view(self.project_id),
            workspace: opt_view(self.workspace),
            limit: self.limit,
        }
    }
}

/// A task or conversation that may be the one looked for.
#[derive(Debug, Clone)]
pub struct StewardTaskCandidateResponse {
    pub task_id: Option<String>,
    pub conversation_id: Option<String>,
    pub title: String,
    pub score: i64,
    pub evidence: Vec<String>,
    pub lifecycle: Option<StewardTaskLifecycle>,
    pub execution_state: Option<StewardExecutionState>,
}

/// The model of [`StewardTaskCandidateResponse`].
#[verifier::ext_equal]
pub struct StewardTaskCandidateResponseView {
    pub task_id: Option<Seq<char>>,
    pub conversation_id: Option<Seq<char>>,
    pub title: Seq<char>,
    pub score: i64,
    pub evidence: Seq<Seq<char>>,
    pub lifecycle: Option<StewardTaskLifecycle>,
    pub execution_state: Option<StewardExecutionState>,
}

impl View for StewardTaskCandidateResponse {
    type V = StewardTaskCandidateResponseView;

    open spec fn view(&self) -> StewardTaskCandidateResponseView {
        StewardTaskCandidateResponseView {
            task_id: opt_view(self.task_id),
            conversation_id: opt_view(self.conversation_id),
            title: self.title@,
            score: self.score,
            evidence: views(self.evidence@),
            lifecycle: self.lifecycle,
            execution_state: self.execution_state,
        }
    }
}

impl StewardTaskCandidateResponse {
    /// A copy with the same content.
    pub fn copy(&self) -> (r: StewardTaskCandidateResponse)
        ensures
            r@ == self@,
    {
        StewardTaskCandidateResponse {
            task_id: copy_opt(&self.task_id),
            conversation_id: copy_opt(&self.conversation_id),
            title: self.title.clone(),
            score: self.score,
            evidence: copy_texts(&self.evidence),
            lifecycle: self.lifecycle,
            execution_state: self.execution_state,
        }
    }
}

/// Which conversation is to be bound to a task.
#[derive(Debug, Clone)]
pub struct BindStewardTaskSessionRequest {
    pub conversation_id: Option<String>,
    pub assistant_id: Option<String>,
    pub conversation_name: Option<String>,
    pub workspace: Option<String>,
    pub role: StewardSessionRole,
    pub replace_primary: bool,
}

/// The model of [`BindStewardTaskSessionRequest`].
#[verifier::ext_equal]
pub struct BindStewardTaskSessionRequestView {
    pub conversation_id: Option<Seq<char>>,
    pub assistant_id: Option<Seq<char>>,
    pub conversation_name: Option<Seq<char>>,
    pub workspace: Option<Seq<char>>,
    pub role: StewardSessionRole,
    pub replace_primary: bool,
}

impl View for BindStewardTaskSessionRequest {
    type V = BindStewardTaskSessionRequestView;

    open spec fn view(&self) -> BindStewardTaskSessionRequestView {
        BindStewardTaskSessionRequestView {
            conversation_id: opt_view(self.conversation_id),
            assistant_id: opt_view(self.assistant_id),
            conversation_name: opt_view(self.conversation_name),
            workspace: opt_view(self.workspace),
            role: self.role,
            replace_primary: self.replace_primary,
        }
    }
}

/// How a task is to be resumed.
#[derive(Debug, Clone)]
pub struct ResumeStewardTaskRequest {
    pub restart: bool,
}

/// What is to be sent to the primary conversation.
#[derive(Debug, Clone)]
pub struct DispatchStewardTaskRequest {
    pub content: String,
}

/// What the leader is to be asked.
#[derive(Debug, Clone)]
pub struct AskStewardTaskRequest {
    pub content: String,
}

/// What was typed to the steward.
#[derive(Debug, Clone)]
pub struct ExecuteStewardCommandRequest {
    pub content: String,
}

/// What came of a machine command.
#[derive(Debug, Clone)]
pub struct StewardCommandResponse {
    pub handled: bool,
    pub command: Option<String>,
    pub text: Option<String>,
    pub task_id: Option<String>,
    pub conversation_id: Option<String>,
    pub user_msg_id: Option<String>,
    pub response_msg_id: Option<String>,
    pub executed_at: i64,
}

/// The model of [`StewardCommandResponse`].
#[verifier::ext_equal]
pub struct StewardCommandResponseView {
    pub handled: bool,
    pub command: Option<Seq<char>>,
    pub text: Option<Seq<char>>,
    pub task_id: Option<Seq<char>>,
    pub conversation_id: Option<Seq<char>>,
    pub user_msg_id: Option<Seq<char>>,
    pub response_msg_id: Option<Seq<char>>,
    pub executed_at: i64,
}

impl View for StewardCommandResponse {
    type V = StewardCommandResponseView;

    open spec fn view(&self) -> StewardCommandResponseView {
        StewardCommandResponseView {
            handled: self.handled,
            command: opt_view(self.command),
            text: opt_view(self.text),
            task_id: opt_view(self.task_id),
            conversation_id: opt_view(self.conversation_id),
            user_msg_id: opt_view(self.user_msg_id),
            response_msg_id: opt_view(self.response_msg_id),
            executed_at: self.executed_at,
        }
    }
}

/// What the leader answered.
#[derive(Debug, Clone)]
pub struct StewardTaskInquiryResponse {
    pub conversation_id: String,
    pub request_msg_id: String,
    pub reply: String,
    pub replied_at: i64,
}

/// The model of [`StewardTaskInquiryResponse`].
#[verifier::ext_equal]
pub struct StewardTaskInquiryResponseView {
    pub conversation_id: Seq<char>,
    pub request_msg_id: Seq<char>,
    pub reply: Seq<char>,
    pub replied_at: i64,
}

impl View for StewardTaskInquiryResponse {
    type V = StewardTaskInquiryResponseView;

    open spec fn view(&self) -> StewardTaskInquiryResponseView {
        StewardTaskInquiryResponseView {
            conversation_id: self.conversation_id@,
            request_msg_id: self.request_msg_id@,
            reply: self.reply@,
            replied_at: self.replied_at,
        }
    }
}

/// How a steward is to be set up.
#[derive(Debug, Clone)]
pub struct BootstrapStewardRequest {
    pub assistant_id: Option<String>,
    pub workspace: Option<String>,
}

/// The model of [`BootstrapStewardRequest`].
#[verifier::ext_equal]
pub struct BootstrapStewardRequestView {
    pub assistant_id: Option<Seq<char>>,
    pub workspace: Option<Seq<char>>,
}

impl View for BootstrapStewardRequest {
    type V = BootstrapStewardRequestView;

    open spec fn view(&self) -> BootstrapStewardRequestView {
        BootstrapStewardRequestView {
            assistant_id: opt_view(self.assistant_id),
            workspace: opt_view(self.workspace),
        }
    }
}

impl Default for BootstrapStewardRequest {
    fn default() -> (r: BootstrapStewardRequest)
        ensures
            r.assistant_id is None,
            r.workspace is None,
    {
        BootstrapStewardRequest { assistant_id: None, workspace: None }
    }
}

/// Which assistant the steward is to use.
#[derive(Debug, Clone)]
pub struct SwitchStewardAssistantRequest {
    pub assistant_id: String,
}

/// The steward of a user.
#[derive(Debug, Clone)]
pub struct StewardProfileResponse {
    pub conversation_id: String,
    pub assistant_id: String,
    pub conversation_name: String,
    pub workspace: Option<String>,
}

/// The model of [`StewardProfileResponse`].
#[verifier::ext_equal]
pub struct StewardProfileResponseView {
    pub conversation_id: Seq<char>,
    pub assistant_id: Seq<char>,
    pub conversation_name: Seq<char>,
    pub workspace: Option<Seq<char>>,
}

impl View for StewardProfileResponse {
    type V = StewardProfileResponseView;

    open spec fn view(&self) -> StewardProfileResponseView {
        StewardProfileResponseView {
            conversation_id: self.conversation_id@,
            assistant_id: self.assistant_id@,
            conversation_name: self.conversation_name@,
            workspace: opt_view(self.workspace),
        }
    }
}

/// A conversation that belongs to no task.
#[derive(Debug, Clone)]
pub struct StewardUnregisteredConversationResponse {
    pub conversation_id: String,
    pub conversation_name: String,
    pub status: ConversationStatus,
    pub assistant_name: Option<String>,
    pub backend: Option<String>,
    pub workspace: Option<String>,
    pub project_id: Option<String>,
    pub modified_at: i64,
}

/// The model of [`StewardUnregisteredConversationResponse`].
#[verifier::ext_equal]
pub struct StewardUnregisteredConversationResponseView {
    pub conversation_id: Seq<char>,
    pub conversation_name: Seq<char>,
    pub status: ConversationStatus,
    pub assistant_name: Option<Seq<char>>,
    pub backend: Option<Seq<char>>,
    pub workspace: Option<Seq<char>>,
    pub project_id: Option<Seq<char>>,
    pub modified_at: i64,
}

impl View for StewardUnregisteredConversationResponse {
    type V = StewardUnregisteredConversationResponseView;

    open spec fn view(&self) -> StewardUnregisteredConversationResponseView {
        StewardUnregisteredConversationResponseView {
            conversation_id: self.conversation_id@,
            conversation_name: self.conversation_name@,
            status: self.status,
            assistant_name: opt_view(self.assistant_name),
            backend: opt_view(self.backend),
            workspace: opt_view(self.workspace),
            project_id: opt_view(self.project_id),
            modified_at: self.modified_at,
        }
    }
}

/// All that the steward oversees.
#[derive(Debug, Clone)]
pub struct StewardOverviewResponse {
    pub profile: Option<StewardProfileResponse>,
    pub open_tasks: usize,
    pub running_tasks: usize,
    pub waiting_tasks: usize,
    pub interrupted_tasks: usize,
    pub tasks: Vec<StewardTaskResponse>,
    pub unregistered_conversations: Vec<StewardUnregisteredConversationResponse>,
}

/// The model of [`StewardOverviewResponse`].
#[verifier::ext_equal]
pub struct StewardOverviewResponseView {
    pub profile: Option<StewardProfileResponseView>,
    pub open_tasks: usize,
    pub running_tasks: usize,
    pub waiting_tasks: usize,
    pub interrupted_tasks: usize,
    pub tasks: Seq<StewardTaskResponseView>,
    pub unregistered_conversations: Seq<StewardUnregisteredConversationResponseView>,
}

impl View for StewardOverviewResponse {
    type V = StewardOverviewResponseView;

    open spec fn view(&self) -> StewardOverviewResponseView {
        StewardOverviewResponseView {
            profile: opt_view(self.profile),
            open_tasks: self.open_tasks,
            running_tasks: self.running_tasks,
            waiting_tasks: self.waiting_tasks,
            interrupted_tasks: self.interrupted_tasks,
            tasks: views(self.tasks@),
            unregistered_conversations: views(self.unregistered_conversations@),
        }
    }
}

/// A command that is offered for completion.
#[derive(Debug, Clone)]
pub struct SlashCommandItem {
    pub command: String,
    pub description: String,
    pub completion_behavior: Option<String>,
    pub empty_turn_tip_code: Option<String>,
    pub empty_turn_tip_params: Option<String>,
}

/// The model of [`SlashCommandItem`].
#[verifier::ext_equal]
pub struct SlashCommandItemView {
    pub command: Seq<char>,
    pub description: Seq<char>,
    pub completion_behavior: Option<Seq<char>>,
    pub empty_turn_tip_code: Option<Seq<char>>,
    pub empty_turn_tip_params: Option<Seq<char>>,
}

impl View for SlashCommandItem {
    type V = SlashCommandItemView;

    open spec fn view(&self) -> SlashCommandItemView {
        SlashCommandItemView {
            command: self.command@,
            description: self.description@,
            completion_behavior: opt_view(self.completion_behavior),
            empty_turn_tip_code: opt_view(self.empty_turn_tip_code),
            empty_turn_tip_params: opt_view(self.empty_turn_tip_params),
        }
    }
}

} // verus!
