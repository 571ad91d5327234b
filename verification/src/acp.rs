//! Requests and answers about agents that speak the agent client protocol.
use std::collections::HashMap;
use vstd::prelude::*;

verus! {

/// Which agent's executable is to be found. `backend` is a vendor label.
#[derive(Debug)]
pub struct DetectCliRequest {
    pub backend: String,
}

/// Where an agent's executable was found.
#[derive(Debug)]
pub struct DetectCliResponse {
    pub path: Option<String>,
}

/// The environment that an agent gets.
#[derive(Debug)]
pub struct AcpEnvResponse {
    pub env: HashMap<String, String>,
}

/// The mode of an agent's session.
#[derive(Debug)]
pub struct AgentModeResponse {
    pub mode: String,
    pub initialized: bool,
}

/// Which mode a session is to be in.
#[derive(Debug)]
pub struct SetModeRequest {
    pub mode: String,
}

/// Which model a session is to use.
#[derive(Debug)]
pub struct SetModelRequest {
    pub model_id: String,
}

/// A model that can be chosen.
#[derive(Debug, Clone)]
pub struct ModelInfoEntry {
    pub id: String,
    pub label: String,
}

/// The models of a session.
#[derive(Debug)]
pub struct GetModelInfoResponse {
    pub model_info: Option<ModelInfoPayload>,
}

/// One of the values of a configuration option.
#[derive(Debug, Clone, PartialEq, Eq)]
pub struct AcpConfigSelectOptionDto {
    pub value: String,
    pub name: Option<String>,
    pub label: Option<String>,
    pub description: Option<String>,
}

/// A configuration option of a session.
#[derive(Debug, Clone, PartialEq, Eq)]
pub struct AcpConfigOptionDto {
    pub id: String,
    pub name: Option<String>,
    pub label: Option<String>,
    pub description: Option<String>,
    pub category: Option<String>,
    pub option_type: String,
    pub current_value: Option<String>,
    pub options: Vec<AcpConfigSelectOptionDto>,
}

/// How far a change of configuration is known to have come.
#[derive(Debug, Clone, Copy, PartialEq, Eq, Structural)]
pub enum ConfigOptionConfirmation {
    /// The agent applied it: the next decision already uses the new value.
    Observed,
    /// Accepted, but applied only from the next turn on.
    PendingNextTurn,
    /// Accepted, with no confirmation either way.
    CommandAck,
}

/// Which value a configuration option is to have.
#[derive(Debug, Clone, PartialEq, Eq)]
pub struct SetConfigOptionRequest {
    pub value: String,
}

/// The configuration options of a session.
#[derive(Debug, Clone, PartialEq, Eq)]
pub struct GetConfigOptionsResponse {
    pub config_options: Vec<AcpConfigOptionDto>,
}

/// What came of a change of configuration.
#[derive(Debug, Clone, PartialEq, Eq)]
pub struct SetConfigOptionResponse {
    pub confirmation: ConfigOptionConfirmation,
    pub config_options: Option<Vec<AcpConfigOptionDto>>,
}

/// How a provider's persistent goal can be controlled.
#[derive(Debug, Clone, Copy, PartialEq, Eq, Structural)]
pub enum NativeGoalControlMode {
    Structured,
    SlashCommand,
}

/// In what a provider's goal is budgeted.
#[derive(Debug, Clone, Copy, PartialEq, Eq, Structural)]
pub enum NativeGoalBudgetKind {
    Tokens,
    NoBudget,
}

/// How far a provider's goal has come.
#[derive(Debug, Clone, Copy, PartialEq, Eq, Structural)]
pub enum NativeGoalStatus {
    Active,
    Paused,
    Blocked,
    UsageLimited,
    BudgetLimited,
    Complete,
}

/// The provider's own name of a status.
pub open spec fn provider_name_of(status: NativeGoalStatus) -> Seq<char> {
    match status {
        NativeGoalStatus::Active => "active"@,
        NativeGoalStatus::Paused => "paused"@,
        NativeGoalStatus::Blocked => "blocked"@,
        NativeGoalStatus::UsageLimited => "usageLimited"@,
        NativeGoalStatus::BudgetLimited => "budgetLimited"@,
        NativeGoalStatus::Complete => "complete"@,
    }
}

impl NativeGoalStatus {
    /// The provider's own name of this status.
    pub fn provider_value(self) -> (r: &'static str)
        ensures
            r@ == provider_name_of(self),
    {
        match self {
            NativeGoalStatus::Active => "active",
            NativeGoalStatus::Paused => "paused",
            NativeGoalStatus::Blocked => "blocked",
            NativeGoalStatus::UsageLimited => "usageLimited",
            NativeGoalStatus::BudgetLimited => "budgetLimited",
            NativeGoalStatus::Complete => "complete",
        }
    }
}

/// What can be done with a provider's goal.
#[derive(Debug, Clone, Copy, PartialEq, Eq, Structural)]
pub struct NativeGoalCapabilities {
    pub supported: bool,
    pub control_mode: NativeGoalControlMode,
    pub can_set: bool,
    pub can_get: bool,
    pub can_clear: bool,
    pub can_pause: bool,
    pub can_resume: bool,
    pub budget_kind: NativeGoalBudgetKind,
}

impl NativeGoalCapabilities {
    /// Everything can be done, with a budget in tokens.
    pub fn structured_tokens() -> (r: NativeGoalCapabilities)
        ensures
            r == (NativeGoalCapabilities {
                supported: true,
                control_mode: NativeGoalControlMode::Structured,
                can_set: true,
                can_get: true,
                can_clear: true,
                can_pause: true,
                can_resume: true,
                budget_kind: NativeGoalBudgetKind::Tokens,
            }),
    {
        NativeGoalCapabilities {
            supported: true,
            control_mode: NativeGoalControlMode::Structured,
            can_set: true,
            can_get: true,
            can_clear: true,
            can_pause: true,
            can_resume: true,
            budget_kind: NativeGoalBudgetKind::Tokens,
        }
    }

    /// The goal is controlled by what is typed, and by nothing else.
    pub fn slash_command() -> (r: NativeGoalCapabilities)
        ensures
            r == typed_only(true),
    {
        NativeGoalCapabilities {
            supported: true,
            control_mode: NativeGoalControlMode::SlashCommand,
            can_set: false,
            can_get: false,
            can_clear: false,
            can_pause: false,
            can_resume: false,
            budget_kind: NativeGoalBudgetKind::NoBudget,
        }
    }

    /// The provider has no goals.
    pub fn unsupported() -> (r: NativeGoalCapabilities)
        ensures
            r == typed_only(false),
    {
        NativeGoalCapabilities { supported: false, ..NativeGoalCapabilities::slash_command() }
    }
}

/// A goal that no call can reach.
pub open spec fn typed_only(supported: bool) -> NativeGoalCapabilities {
    NativeGoalCapabilities {
        supported,
        control_mode: NativeGoalControlMode::SlashCommand,
        can_set: false,
        can_get: false,
        can_clear: false,
        can_pause: false,
        can_resume: false,
        budget_kind: NativeGoalBudgetKind::NoBudget,
    }
}

/// A provider's goal at some moment.
#[derive(Debug, Clone, PartialEq, Eq)]
pub struct NativeGoalSnapshot {
    pub thread_id: String,
    pub objective: String,
    pub status: NativeGoalStatus,
    pub token_budget: Option<u64>,
    pub tokens_used: u64,
    pub time_used_seconds: u64,
    pub created_at: i64,
    pub updated_at: i64,
}

/// A provider's goal and what can be done with it.
#[derive(Debug, Clone, PartialEq, Eq)]
pub struct NativeGoalStateResponse {
    pub provider: String,
    pub capabilities: NativeGoalCapabilities,
    pub goal: Option<NativeGoalSnapshot>,
    pub cleared: Option<bool>,
}

impl NativeGoalStateResponse {
    /// A provider whose goal is controlled by what is typed.
    pub fn slash_command<P: Into<String>>(provider: P) -> (r: NativeGoalStateResponse)
        ensures
            call_ensures(<P as Into<String>>::into, (provider,), r.provider),
            r.capabilities == typed_only(true),
            r.goal is None,
            r.cleared is None,
    {
        NativeGoalStateResponse {
            provider: provider.into(),
            capabilities: NativeGoalCapabilities::slash_command(),
            goal: None,
            cleared: None,
        }
    }

    /// A provider that has no goals.
    pub fn unsupported<P: Into<String>>(provider: P) -> (r: NativeGoalStateResponse)
        ensures
            call_ensures(<P as Into<String>>::into, (provider,), r.provider),
            r.capabilities == typed_only(false),
            r.goal is None,
            r.cleared is None,
    {
        NativeGoalStateResponse {
            provider: provider.into(),
            capabilities: NativeGoalCapabilities::unsupported(),
            goal: None,
            cleared: None,
        }
    }
}

/// Which parts of a provider's goal are to change. A budget is taken away explicitly.
#[derive(Debug, Clone, PartialEq, Eq)]
pub struct SetNativeGoalRequest {
    pub objective: Option<String>,
    pub status: Option<NativeGoalStatus>,
    pub token_budget: Option<u64>,
    pub clear_token_budget: bool,
}

/// The models of a session and the one in use.
#[derive(Debug, Clone)]
pub struct ModelInfoPayload {
    pub current_model_id: Option<String>,
    pub current_model_label: Option<String>,
    pub available_models: Vec<ModelInfoEntry>,
}

/// Which agent's models are to be found.
#[derive(Debug)]
pub struct ProbeModelRequest {
    pub backend: String,
}

/// How an agent of the user's own is started.
#[derive(Debug, Clone)]
pub struct TryConnectCustomAgentRequest {
    pub command: String,
    pub acp_args: Vec<String>,
    pub env: HashMap<String, String>,
    pub runtime_scope_id: Option<String>,
}

/// What came of an attempt to start an agent. An agent that answers but wants a login is
/// told apart from one that does not answer.
#[derive(Debug, Clone, PartialEq, Eq)]
pub enum TryConnectCustomAgentResponse {
    Success,
    FailCli { error: String },
    FailAcp { error: String },
    FailAuth { error: String },
}

/// The model of [`TryConnectCustomAgentResponse`].
#[verifier::ext_equal]
pub enum ConnectView {
    Success,
    FailCli { error: Seq<char> },
    FailAcp { error: Seq<char> },
    FailAuth { error: Seq<char> },
}

impl View for TryConnectCustomAgentResponse {
    type V = ConnectView;

    open spec fn view(&self) -> ConnectView {
        match *self {
            TryConnectCustomAgentResponse::Success => ConnectView::Success,
            TryConnectCustomAgentResponse::FailCli { error } => ConnectView::FailCli { error: error@ },
            TryConnectCustomAgentResponse::FailAcp { error } => ConnectView::FailAcp { error: error@ },
            TryConnectCustomAgentResponse::FailAuth { error } => ConnectView::FailAuth { error: error@ },
        }
    }
}

/// What part of a workspace is to be listed.
#[derive(Debug)]
pub struct WorkspaceBrowseQuery {
    pub path: String,
    pub search: Option<String>,
}

/// A file or directory of a workspace.
#[derive(Debug, Clone)]
pub struct WorkspaceEntry {
    pub name: String,
    pub entry_type: String,
}

/// A question beside the conversation.
#[derive(Debug)]
pub struct SideQuestionRequest {
    pub question: String,
}

/// The answer to a question beside the conversation.
#[derive(Debug)]
pub struct SideQuestionResponse {
    pub status: String,
    pub answer: Option<String>,
}

/// Each status of a goal has the provider's own name for it, and no two have one.
pub proof fn law_goal_statuses_are_told_apart(a: NativeGoalStatus, b: NativeGoalStatus)
    ensures
        provider_name_of(a) == provider_name_of(b) <==> a == b,
        a is Active <==> provider_name_of(a) == "active"@,
        a is Paused <==> provider_name_of(a) == "paused"@,
        a is Blocked <==> provider_name_of(a) == "blocked"@,
        a is UsageLimited <==> provider_name_of(a) == "usageLimited"@,
        a is BudgetLimited <==> provider_name_of(a) == "budgetLimited"@,
        a is Complete <==> provider_name_of(a) == "complete"@,
{
    reveal_strlit("active");
    assert("active"@.len() == 6 && "active"@[0] == 'a' && "active"@[1] == 'c' && "active"@[2] == 't');
    reveal_strlit("paused");
    assert("paused"@.len() == 6 && "paused"@[0] == 'p' && "paused"@[1] == 'a' && "paused"@[2] == 'u');
    reveal_strlit("blocked");
    assert("blocked"@.len() == 7 && "blocked"@[0] == 'b' && "blocked"@[1] == 'l' && "blocked"@[2] == 'o');
    reveal_strlit("usageLimited");
    assert("usageLimited"@.len() == 12 && "usageLimited"@[0] == 'u' && "usageLimited"@[1] == 's' && "usageLimited"@[2] == 'a');
    reveal_strlit("budgetLimited");
    assert("budgetLimited"@.len() == 13 && "budgetLimited"@[0] == 'b' && "budgetLimited"@[1] == 'u' && "budgetLimited"@[2] == 'd');
    reveal_strlit("complete");
    assert("complete"@.len() == 8 && "complete"@[0] == 'c' && "complete"@[1] == 'o' && "complete"@[2] == 'm');
}

/// A goal that can only be typed as a command cannot be controlled in any other way.
pub proof fn law_typed_goals_are_only_typed(supported: bool)
    ensures
        typed_only(supported).supported == supported,
        typed_only(supported).control_mode == NativeGoalControlMode::SlashCommand,
        !typed_only(supported).can_set && !typed_only(supported).can_get && !typed_only(supported).can_clear,
        !typed_only(supported).can_pause && !typed_only(supported).can_resume,
        typed_only(supported).budget_kind == NativeGoalBudgetKind::NoBudget,
{
}

} // verus!
