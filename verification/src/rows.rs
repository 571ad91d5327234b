//! What is stored of the steward.
use vstd::prelude::*;
use crate::text::{copy_opt, opt_view};

verus! {

/// A task as it is stored.
#[derive(Debug, Clone)]
pub struct StewardTaskRow {
    pub id: String,
    pub user_id: String,
    pub title: String,
    pub objective: String,
    pub lifecycle: String,
    pub execution_state: String,
    pub priority: i64,
    pub progress_summary: Option<String>,
    pub next_action: Option<String>,
    pub blockers: String,
    pub project_id: Option<String>,
    pub folder_id: Option<String>,
    pub workspace: Option<String>,
    pub permission_policy: String,
    pub budget_policy: String,
    pub created_at: i64,
    pub updated_at: i64,
}

/// The model of [`StewardTaskRow`].
#[verifier::ext_equal]
pub struct StewardTaskRowView {
    pub id: Seq<char>,
    pub user_id: Seq<char>,
    pub title: Seq<char>,
    pub objective: Seq<char>,
    pub lifecycle: Seq<char>,
    pub execution_state: Seq<char>,
    pub priority: i64,
    pub progress_summary: Option<Seq<char>>,
    pub next_action: Option<Seq<char>>,
    pub blockers: Seq<char>,
    pub project_id: Option<Seq<char>>,
    pub folder_id: Option<Seq<char>>,
    pub workspace: Option<Seq<char>>,
    pub permission_policy: Seq<char>,
    pub budget_policy: Seq<char>,
    pub created_at: i64,
    pub updated_at: i64,
}

impl View for StewardTaskRow {
    type V = StewardTaskRowView;

    open spec fn view(&self) -> StewardTaskRowView {
        StewardTaskRowView {
            id: self.id@,
            user_id: self.user_id@,
            title: self.title@,
            objective: self.objective@,
            lifecycle: self.lifecycle@,
            execution_state: self.execution_state@,
            priority: self.priority,
            progress_summary: opt_view(self.progress_summary),
            next_action: opt_view(self.next_action),
            blockers: self.blockers@,
            project_id: opt_view(self.project_id),
            folder_id: opt_view(self.folder_id),
            workspace: opt_view(self.workspace),
            permission_policy: self.permission_policy@,
            budget_policy: self.budget_policy@,
            created_at: self.created_at,
            updated_at: self.updated_at,
        }
    }
}

impl StewardTaskRow {
    /// A copy with the same content.
    pub fn copy(&self) -> (r: StewardTaskRow)
        ensures
            r@ == self@,
    {
        StewardTaskRow {
            id: self.id.clone(),
            user_id: self.user_id.clone(),
            title: self.title.clone(),
            objective: self.objective.clone(),
            lifecycle: self.lifecycle.clone(),
            execution_state: self.execution_state.clone(),
            priority: self.priority,
            progress_summary: copy_opt(&self.progress_summary),
            next_action: copy_opt(&self.next_action),
            blockers: self.blockers.clone(),
            project_id: copy_opt(&self.project_id),
            folder_id: copy_opt(&self.folder_id),
            workspace: copy_opt(&self.workspace),
            permission_policy: self.permission_policy.clone(),
            budget_policy: self.budget_policy.clone(),
            created_at: self.created_at,
            updated_at: self.updated_at,
        }
    }
}

/// The binding of a conversation to a task as it is stored.
#[derive(Debug, Clone)]
pub struct StewardTaskSessionRow {
    pub id: String,
    pub task_id: String,
    pub conversation_id: String,
    pub role: String,
    pub created_at: i64,
    pub detached_at: Option<i64>,
}

/// The model of [`StewardTaskSessionRow`].
#[verifier::ext_equal]
pub struct StewardTaskSessionRowView {
    pub id: Seq<char>,
    pub task_id: Seq<char>,
    pub conversation_id: Seq<char>,
    pub role: Seq<char>,
    pub created_at: i64,
    pub detached_at: Option<i64>,
}

impl View for StewardTaskSessionRow {
    type V = StewardTaskSessionRowView;

    open spec fn view(&self) -> StewardTaskSessionRowView {
        StewardTaskSessionRowView {
            id: self.id@,
            task_id: self.task_id@,
            conversation_id: self.conversation_id@,
            role: self.role@,
            created_at: self.created_at,
            detached_at: self.detached_at,
        }
    }
}

/// An event of a task as it is stored.
#[derive(Debug, Clone)]
pub struct StewardTaskEventRow {
    pub id: String,
    pub task_id: String,
    pub source: String,
    pub event_type: String,
    pub payload: String,
    pub created_at: i64,
}

/// The model of [`StewardTaskEventRow`].
#[verifier::ext_equal]
pub struct StewardTaskEventRowView {
    pub id: Seq<char>,
    pub task_id: Seq<char>,
    pub source: Seq<char>,
    pub event_type: Seq<char>,
    pub payload: Seq<char>,
    pub created_at: i64,
}

impl View for StewardTaskEventRow {
    type V = StewardTaskEventRowView;

    open spec fn view(&self) -> StewardTaskEventRowView {
        StewardTaskEventRowView {
            id: self.id@,
            task_id: self.task_id@,
            source: self.source@,
            event_type: self.event_type@,
            payload: self.payload@,
            created_at: self.created_at,
        }
    }
}

/// The profile of a steward as it is stored.
#[derive(Debug, Clone)]
pub struct StewardProfileRow {
    pub user_id: String,
    pub conversation_id: Option<String>,
    pub assistant_id: Option<String>,
    pub created_at: i64,
    pub updated_at: i64,
}

/// The model of [`StewardProfileRow`].
#[verifier::ext_equal]
pub struct StewardProfileRowView {
    pub user_id: Seq<char>,
    pub conversation_id: Option<Seq<char>>,
    pub assistant_id: Option<Seq<char>>,
    pub created_at: i64,
    pub updated_at: i64,
}

impl View for StewardProfileRow {
    type V = StewardProfileRowView;

    open spec fn view(&self) -> StewardProfileRowView {
        StewardProfileRowView {
            user_id: self.user_id@,
            conversation_id: opt_view(self.conversation_id),
            assistant_id: opt_view(self.assistant_id),
            created_at: self.created_at,
            updated_at: self.updated_at,
        }
    }
}

/// A report that waits for delivery, as it is stored.
#[derive(Debug, Clone)]
pub struct StewardReportOutboxRow {
    pub id: String,
    pub user_id: String,
    pub task_id: String,
    pub steward_conversation_id: String,
    pub run_id: String,
    pub terminal_event: String,
    pub content: String,
    pub inbox_delivered_at: Option<i64>,
    pub im_delivered_at: Option<i64>,
    pub attempts: i64,
    pub next_attempt_at: i64,
    pub last_error: Option<String>,
    pub created_at: i64,
    pub updated_at: i64,
}

/// The model of [`StewardReportOutboxRow`].
#[verifier::ext_equal]
pub struct StewardReportOutboxRowView {
    pub id: Seq<char>,
    pub user_id: Seq<char>,
    pub task_id: Seq<char>,
    pub steward_conversation_id: Seq<char>,
    pub run_id: Seq<char>,
    pub terminal_event: Seq<char>,
    pub content: Seq<char>,
    pub inbox_delivered_at: Option<i64>,
    pub im_delivered_at: Option<i64>,
    pub attempts: i64,
    pub next_attempt_at: i64,
    pub last_error: Option<Seq<char>>,
    pub created_at: i64,
    pub updated_at: i64,
}

impl View for StewardReportOutboxRow {
    type V = StewardReportOutboxRowView;

    open spec fn view(&self) -> StewardReportOutboxRowView {
        StewardReportOutboxRowView {
            id: self.id@,
            user_id: self.user_id@,
            task_id: self.task_id@,
            steward_conversation_id: self.steward_conversation_id@,
            run_id: self.run_id@,
            terminal_event: self.terminal_event@,
            content: self.content@,
            inbox_delivered_at: self.inbox_delivered_at,
            im_delivered_at: self.im_delivered_at,
            attempts: self.attempts,
            next_attempt_at: self.next_attempt_at,
            last_error: opt_view(self.last_error),
            created_at: self.created_at,
            updated_at: self.updated_at,
        }
    }
}

/// Which tasks are to be listed.
#[derive(Debug, Clone)]
pub struct StewardTaskFilters {
    pub query: Option<String>,
    pub lifecycle: Option<String>,
    pub limit: u32,
}

/// The model of [`StewardTaskFilters`].
#[verifier::ext_equal]
pub struct StewardTaskFiltersView {
    pub query: Option<Seq<char>>,
    pub lifecycle: Option<Seq<char>>,
    pub limit: u32,
}

impl View for StewardTaskFilters {
    type V = StewardTaskFiltersView;

    open spec fn view(&self) -> StewardTaskFiltersView {
        StewardTaskFiltersView {
            query: opt_view(self.query),
            lifecycle: opt_view(self.lifecycle),
            limit: self.limit,
        }
    }
}

} // verus!
