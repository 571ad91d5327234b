//! Tasks and conversations as the steward shows them.
use vstd::prelude::*;
use crate::api::{
    StewardExecutionState, StewardOverviewResponse, StewardOverviewResponseView, StewardProfileResponse,
    StewardProfileResponseView, StewardSessionRole, StewardTaskEventResponse, StewardTaskEventResponseView, StewardTaskLifecycle,
    StewardTaskResponse, StewardTaskResponseView, StewardTaskSessionResponse, StewardTaskSessionResponseView,
    StewardUnregisteredConversationResponse, StewardUnregisteredConversationResponseView,
};
use crate::control::{is_steward_conversation, is_team_worker_conversation, marks_steward, marks_worker};
use crate::conversation::{
    result_view, ConversationError, ConversationErrorView, ConversationResponse, ConversationResponseView,
    ConversationStatus,
};
use crate::json::{json_parsed, object_of, text_field, texts_parsed, Json, JsonView};
use crate::names::{
    execution_state_of, lifecycle_of, parse_execution_state, parse_lifecycle, parse_session_role, session_role_of,
};
use crate::rows::{
    StewardTaskEventRow, StewardTaskEventRowView, StewardTaskRow, StewardTaskRowView, StewardTaskSessionRow,
    StewardTaskSessionRowView,
};
use crate::tasks::{blockers_in, read_blockers};
use crate::text::{opt_view, same, to_owned_opt, views};

verus! {

// ---------------------------------------------------------------------
// One task
// ---------------------------------------------------------------------

/// A binding with the conversation that it leads to, if that is still there.
#[derive(Debug, Clone)]
pub struct BoundConversation {
    pub binding: StewardTaskSessionRow,
    pub conversation: Option<ConversationResponse>,
}

/// The model of [`BoundConversation`].
#[verifier::ext_equal]
pub struct BoundConversationView {
    pub binding: StewardTaskSessionRowView,
    pub conversation: Option<ConversationResponseView>,
}

impl View for BoundConversation {
    type V = BoundConversationView;

    open spec fn view(&self) -> BoundConversationView {
        BoundConversationView { binding: self.binding@, conversation: opt_view(self.conversation) }
    }
}

/// The status of a conversation: that of its runtime where there is one.
pub open spec fn shown_status(c: ConversationResponseView) -> ConversationStatus {
    match c.runtime {
        Some(r) => match r.task_status {
            Some(s) => s,
            None => c.status,
        },
        None => c.status,
    }
}

/// The sessions of a task: its bindings whose conversations are still there, in order.
pub open spec fn sessions_of(bound: Seq<BoundConversationView>) -> Result<
    Seq<StewardTaskSessionResponseView>,
    ConversationErrorView,
>
    decreases bound.len(),
{
    if bound.len() == 0 {
        Ok(Seq::empty())
    } else {
        match sessions_of(bound.drop_last()) {
            Err(e) => Err(e),
            Ok(before) => match bound.last().conversation {
                None => Ok(before),
                Some(c) => match session_role_of(bound.last().binding.role) {
                    Err(e) => Err(e),
                    Ok(role) => Ok(
                        before.push(
                            StewardTaskSessionResponseView {
                                id: bound.last().binding.id,
                                conversation_id: c.id,
                                conversation_name: c.name,
                                role,
                                status: Some(shown_status(c)),
                                workspace: text_field(c.extra, "workspace"@),
                                project_id: c.project_id,
                                created_at: bound.last().binding.created_at,
                            },
                        ),
                    ),
                },
            },
        }
    }
}

/// An event as it is shown; a payload that cannot be read is shown as `null`.
pub open spec fn event_of(row: StewardTaskEventRowView) -> StewardTaskEventResponseView {
    StewardTaskEventResponseView {
        id: row.id,
        source: row.source,
        event_type: row.event_type,
        payload: match json_parsed(row.payload) {
            Some(x) => x,
            None => JsonView::Null,
        },
        created_at: row.created_at,
    }
}

/// The events as they are shown.
pub open spec fn events_of(rows: Seq<StewardTaskEventRowView>) -> Seq<StewardTaskEventResponseView> {
    Seq::new(rows.len(), |i: int| event_of(rows[i]))
}

/// A stored policy; one that cannot be read counts as empty.
pub open spec fn policy_of(stored: Seq<char>) -> JsonView {
    match json_parsed(stored) {
        Some(x) => x,
        None => object_of(Seq::empty()),
    }
}

/// A task as it is shown.
pub open spec fn task_shown(
    row: StewardTaskRowView,
    bound: Seq<BoundConversationView>,
    events: Seq<StewardTaskEventRowView>,
) -> Result<StewardTaskResponseView, ConversationErrorView> {
    match (sessions_of(bound), lifecycle_of(row.lifecycle), execution_state_of(row.execution_state)) {
        (Err(e), _, _) => Err(e),
        (Ok(_), Err(e), _) => Err(e),
        (Ok(_), Ok(_), Err(e)) => Err(e),
        (Ok(sessions), Ok(lifecycle), Ok(execution_state)) => Ok(
            StewardTaskResponseView {
                id: row.id,
                title: row.title,
                objective: row.objective,
                lifecycle,
                execution_state,
                priority: row.priority,
                progress_summary: row.progress_summary,
                next_action: row.next_action,
                blockers: blockers_in(row.blockers),
                project_id: row.project_id,
                folder_id: row.folder_id,
                workspace: row.workspace,
                permission_policy: policy_of(row.permission_policy),
                budget_policy: policy_of(row.budget_policy),
                sessions,
                events: events_of(events),
                created_at: row.created_at,
                updated_at: row.updated_at,
            },
        ),
    }
}

proof fn lemma_first_bad_role(bound: Seq<BoundConversationView>, n: int)
    requires
        0 <= n <= bound.len(),
        sessions_of(bound.take(n)) is Err,
    ensures
        sessions_of(bound) == sessions_of(bound.take(n)),
    decreases bound.len() - n,
{
    if n < bound.len() {
        assert(bound.take(n + 1).drop_last() =~= bound.take(n));
        lemma_first_bad_role(bound, n + 1);
    } else {
        assert(bound.take(n) =~= bound);
    }
}

fn show_sessions(bound: &Vec<BoundConversation>) -> (r: Result<Vec<StewardTaskSessionResponse>, ConversationError>)
    ensures
        match r {
            Ok(v) => sessions_of(views(bound@)) == Ok::<
                Seq<StewardTaskSessionResponseView>,
                ConversationErrorView,
            >(views(v@)),
            Err(e) => sessions_of(views(bound@)) == Err::<
                Seq<StewardTaskSessionResponseView>,
                ConversationErrorView,
            >(e@),
        },
{
    let ghost all = views(bound@);
    let mut out: Vec<StewardTaskSessionResponse> = Vec::new();
    let mut i: usize = 0;
    assert(views(out@) =~= Seq::empty());
    assert(all.take(0) =~= Seq::empty());
    while i < bound.len()
        invariant
            i <= bound@.len(),
            all == views(bound@),
            sessions_of(all.take(i as int)) == Ok::<
                Seq<StewardTaskSessionResponseView>,
                ConversationErrorView,
            >(views(out@)),
        decreases bound@.len() - i,
    {
        let b = &bound[i];
        proof {
            assert(all.take(i + 1).drop_last() =~= all.take(i as int));
            assert(all.take(i + 1).last() == b@);
        }
        if let Some(c) = &b.conversation {
            let role = match parse_session_role(b.binding.role.as_str()) {
                Ok(x) => x,
                Err(e) => {
                    proof {
                        lemma_first_bad_role(all, i + 1);
                    }
                    return Err(e);
                },
            };
            let status = match &c.runtime {
                Some(r) => match r.task_status {
                    Some(s) => s,
                    None => c.status,
                },
                None => c.status,
            };
            let ghost before = views(out@);
            out.push(
                StewardTaskSessionResponse {
                    id: b.binding.id.clone(),
                    conversation_id: c.id.clone(),
                    conversation_name: c.name.clone(),
                    role,
                    status: Some(status),
                    workspace: to_owned_opt(c.extra.text_at("workspace")),
                    project_id: crate::text::copy_opt(&c.project_id),
                    created_at: b.binding.created_at,
                },
            );
            assert(views(out@) =~= before.push(out@.last()@));
        }
        i += 1;
    }
    assert(all.take(i as int) =~= all);
    Ok(out)
}

fn show_events(rows: &Vec<StewardTaskEventRow>) -> (r: Vec<StewardTaskEventResponse>)
    ensures
        views(r@) == events_of(views(rows@)),
{
    let mut out: Vec<StewardTaskEventResponse> = Vec::new();
    let mut i: usize = 0;
    while i < rows.len()
        invariant
            i <= rows@.len(),
            out@.len() == i,
            forall|k: int| 0 <= k < i ==> #[trigger] out@[k]@ == event_of(rows@[k]@),
        decreases rows@.len() - i,
    {
        let row = &rows[i];
        out.push(
            StewardTaskEventResponse {
                id: row.id.clone(),
                source: row.source.clone(),
                event_type: row.event_type.clone(),
                payload: match Json::parse(row.payload.as_str()) {
                    Some(x) => x,
                    None => Json::Null,
                },
                created_at: row.created_at,
            },
        );
        i += 1;
    }
    assert(views(out@) =~= events_of(views(rows@)));
    out
}

fn read_policy(stored: &str) -> (r: Json)
    ensures
        r@ == policy_of(stored@),
{
    match Json::parse(stored) {
        Some(x) => x,
        None => Json::empty_object(),
    }
}

/// Shows a task with its sessions and the given events.
pub fn task_response(
    row: StewardTaskRow,
    bound: &Vec<BoundConversation>,
    events: &Vec<StewardTaskEventRow>,
) -> (r: Result<StewardTaskResponse, ConversationError>)
    ensures
        result_view(r) == task_shown(row@, views(bound@), views(events@)),
{
    let sessions = match show_sessions(bound) {
        Ok(s) => s,
        Err(e) => {
            return Err(e);
        },
    };
    let lifecycle = match parse_lifecycle(row.lifecycle.as_str()) {
        Ok(x) => x,
        Err(e) => {
            return Err(e);
        },
    };
    let execution_state = match parse_execution_state(row.execution_state.as_str()) {
        Ok(x) => x,
        Err(e) => {
            return Err(e);
        },
    };
    Ok(
        StewardTaskResponse {
            id: row.id,
            title: row.title,
            objective: row.objective,
            lifecycle,
            execution_state,
            priority: row.priority,
            progress_summary: row.progress_summary,
            next_action: row.next_action,
            blockers: read_blockers(row.blockers.as_str()),
            project_id: row.project_id,
            folder_id: row.folder_id,
            workspace: row.workspace,
            permission_policy: read_policy(row.permission_policy.as_str()),
            budget_policy: read_policy(row.budget_policy.as_str()),
            sessions,
            events: show_events(events),
            created_at: row.created_at,
            updated_at: row.updated_at,
        },
    )
}

// ---------------------------------------------------------------------
// Everything
// ---------------------------------------------------------------------

/// A conversation that belongs to no task, as it is shown.
pub open spec fn unregistered_shown(c: ConversationResponseView) -> StewardUnregisteredConversationResponseView {
    StewardUnregisteredConversationResponseView {
        conversation_id: c.id,
        conversation_name: c.name,
        status: c.status,
        assistant_name: match c.assistant {
            Some(a) => Some(a.name),
            None => None,
        },
        backend: match c.assistant {
            Some(a) => Some(a.backend),
            None => text_field(c.extra, "backend"@),
        },
        workspace: text_field(c.extra, "workspace"@),
        project_id: c.project_id,
        modified_at: c.modified_at,
    }
}

/// Shows a conversation that belongs to no task.
pub fn unregistered_conversation_response(conversation: ConversationResponse) -> (r:
    StewardUnregisteredConversationResponse)
    ensures
        r@ == unregistered_shown(conversation@),
{
    let assistant_name = match &conversation.assistant {
        Some(a) => Some(a.name.clone()),
        None => None,
    };
    let backend = match &conversation.assistant {
        Some(a) => Some(a.backend.clone()),
        None => to_owned_opt(conversation.extra.text_at("backend")),
    };
    let workspace = to_owned_opt(conversation.extra.text_at("workspace"));
    StewardUnregisteredConversationResponse {
        conversation_id: conversation.id,
        conversation_name: conversation.name,
        status: conversation.status,
        assistant_name,
        backend,
        workspace,
        project_id: conversation.project_id,
        modified_at: conversation.modified_at,
    }
}

/// The profile of a steward, as it is shown.
pub open spec fn profile_shown(c: ConversationResponseView, assistant_id: Seq<char>) -> StewardProfileResponseView {
    StewardProfileResponseView {
        conversation_id: c.id,
        assistant_id,
        conversation_name: c.name,
        workspace: text_field(c.extra, "workspace"@),
    }
}

/// Shows the profile of a steward.
pub fn profile_response(conversation: &ConversationResponse, assistant_id: String) -> (r: StewardProfileResponse)
    ensures
        r@ == profile_shown(conversation@, assistant_id@),
{
    StewardProfileResponse {
        conversation_id: conversation.id.clone(),
        assistant_id,
        conversation_name: conversation.name.clone(),
        workspace: to_owned_opt(conversation.extra.text_at("workspace")),
    }
}

/// Whether one of the sessions is the conversation `id`.
pub open spec fn in_sessions(sessions: Seq<StewardTaskSessionResponseView>, id: Seq<char>) -> bool {
    exists|i: int| 0 <= i < sessions.len() && (#[trigger] sessions[i]).conversation_id == id
}

/// Whether a task is bound to the conversation `id`.
pub open spec fn is_bound(tasks: Seq<StewardTaskResponseView>, id: Seq<char>) -> bool {
    exists|i: int| 0 <= i < tasks.len() && in_sessions((#[trigger] tasks[i]).sessions, id)
}

/// Whether a conversation is shown as belonging to no task: it is not the steward's, not
/// that of a team's worker, and bound to no task.
pub open spec fn is_unregistered(
    c: ConversationResponseView,
    profile: Option<StewardProfileResponseView>,
    tasks: Seq<StewardTaskResponseView>,
) -> bool {
    &&& profile matches Some(p) ==> p.conversation_id != c.id
    &&& !marks_steward(c.extra)
    &&& !marks_worker(c.extra)
    &&& !is_bound(tasks, c.id)
}

/// The conversations that are shown as belonging to no task, in order.
pub open spec fn unregistered(
    conversations: Seq<ConversationResponseView>,
    profile: Option<StewardProfileResponseView>,
    tasks: Seq<StewardTaskResponseView>,
) -> Seq<StewardUnregisteredConversationResponseView>
    decreases conversations.len(),
{
    if conversations.len() == 0 {
        Seq::empty()
    } else {
        let before = unregistered(conversations.drop_last(), profile, tasks);
        if is_unregistered(conversations.last(), profile, tasks) {
            before.push(unregistered_shown(conversations.last()))
        } else {
            before
        }
    }
}

/// How many tasks have a property.
pub open spec fn count_tasks(tasks: Seq<StewardTaskResponseView>, p: spec_fn(StewardTaskResponseView) -> bool) -> nat
    decreases tasks.len(),
{
    if tasks.len() == 0 {
        0
    } else {
        count_tasks(tasks.drop_last(), p) + if p(tasks.last()) {
            1nat
        } else {
            0nat
        }
    }
}

/// A task is still to be done.
pub open spec fn open_task() -> spec_fn(StewardTaskResponseView) -> bool {
    |t: StewardTaskResponseView| t.lifecycle == StewardTaskLifecycle::Open
}

/// A task is being executed.
pub open spec fn running_task() -> spec_fn(StewardTaskResponseView) -> bool {
    |t: StewardTaskResponseView| t.execution_state == StewardExecutionState::Running
}

/// A task waits for someone.
pub open spec fn waiting_task() -> spec_fn(StewardTaskResponseView) -> bool {
    |t: StewardTaskResponseView|
        t.execution_state == StewardExecutionState::WaitingUser || t.execution_state
            == StewardExecutionState::WaitingExternal
}

/// A task came to a stop that was not planned.
pub open spec fn stopped_task() -> spec_fn(StewardTaskResponseView) -> bool {
    |t: StewardTaskResponseView|
        t.execution_state == StewardExecutionState::Interrupted || t.execution_state
            == StewardExecutionState::Failed
}

/// All that the steward oversees.
pub open spec fn overview_of(
    profile: Option<StewardProfileResponseView>,
    tasks: Seq<StewardTaskResponseView>,
    conversations: Seq<ConversationResponseView>,
) -> StewardOverviewResponseView {
    StewardOverviewResponseView {
        profile,
        open_tasks: count_tasks(tasks, open_task()) as usize,
        running_tasks: count_tasks(tasks, running_task()) as usize,
        waiting_tasks: count_tasks(tasks, waiting_task()) as usize,
        interrupted_tasks: count_tasks(tasks, stopped_task()) as usize,
        tasks,
        unregistered_conversations: unregistered(conversations, profile, tasks),
    }
}

fn has_session(sessions: &Vec<StewardTaskSessionResponse>, id: &str) -> (r: bool)
    ensures
        r == in_sessions(views(sessions@), id@),
{
    let mut i: usize = 0;
    while i < sessions.len()
        invariant
            i <= sessions@.len(),
            forall|k: int| 0 <= k < i ==> (#[trigger] views(sessions@)[k]).conversation_id != id@,
        decreases sessions@.len() - i,
    {
        if same(sessions[i].conversation_id.as_str(), id) {
            assert(views(sessions@)[i as int].conversation_id == id@);
            return true;
        }
        i += 1;
    }
    false
}

fn bound_somewhere(tasks: &Vec<StewardTaskResponse>, id: &str) -> (r: bool)
    ensures
        r == is_bound(views(tasks@), id@),
{
    let mut i: usize = 0;
    while i < tasks.len()
        invariant
            i <= tasks@.len(),
            forall|k: int| 0 <= k < i ==> !in_sessions((#[trigger] views(tasks@)[k]).sessions, id@),
        decreases tasks@.len() - i,
    {
        if has_session(&tasks[i].sessions, id) {
            assert(in_sessions(views(tasks@)[i as int].sessions, id@));
            return true;
        }
        i += 1;
    }
    false
}

/// Gathers all that the steward oversees.
pub fn overview(
    profile: Option<StewardProfileResponse>,
    tasks: Vec<StewardTaskResponse>,
    conversations: Vec<ConversationResponse>,
) -> (r: StewardOverviewResponse)
    ensures
        r@ == overview_of(opt_view(profile), views(tasks@), views(conversations@)),
        r.open_tasks == count_tasks(views(tasks@), open_task()),
        r.running_tasks == count_tasks(views(tasks@), running_task()),
        r.waiting_tasks == count_tasks(views(tasks@), waiting_task()),
        r.interrupted_tasks == count_tasks(views(tasks@), stopped_task()),
{
    let ghost all = views(tasks@);
    let mut open: usize = 0;
    let mut running: usize = 0;
    let mut waiting: usize = 0;
    let mut stopped: usize = 0;
    let mut i: usize = 0;
    assert(all.take(0) =~= Seq::empty());
    while i < tasks.len()
        invariant
            i <= tasks@.len(),
            all == views(tasks@),
            open <= i,
            running <= i,
            waiting <= i,
            stopped <= i,
            open == count_tasks(all.take(i as int), open_task()),
            running == count_tasks(all.take(i as int), running_task()),
            waiting == count_tasks(all.take(i as int), waiting_task()),
            stopped == count_tasks(all.take(i as int), stopped_task()),
        decreases tasks@.len() - i,
    {
        proof {
            assert(all.take(i + 1).drop_last() =~= all.take(i as int));
            assert(all.take(i + 1).last() == tasks@[i as int]@);
        }
        let t = &tasks[i];
        if t.lifecycle == StewardTaskLifecycle::Open {
            open += 1;
        }
        match t.execution_state {
            StewardExecutionState::Running => {
                running += 1;
            },
            StewardExecutionState::WaitingUser | StewardExecutionState::WaitingExternal => {
                waiting += 1;
            },
            StewardExecutionState::Interrupted | StewardExecutionState::Failed => {
                stopped += 1;
            },
            _ => {},
        }
        i += 1;
    }
    assert(all.take(i as int) =~= all);
    let ghost shown = views(conversations@);
    let ghost who = opt_view(profile);
    let mut loose: Vec<StewardUnregisteredConversationResponse> = Vec::new();
    assert(views(loose@) =~= Seq::empty());
    assert(shown.take(0) =~= Seq::empty());
    for c in it: conversations
        invariant
            views(it.seq()) == shown,
            all == views(tasks@),
            who == opt_view(profile),
            views(loose@) == unregistered(shown.take(it.index() as int), who, all),
    {
        proof {
            let k = it.index() as int;
            assert(shown[k] == c@);
            assert(shown.take(k + 1).drop_last() =~= shown.take(k));
            assert(shown.take(k + 1).last() == c@);
        }
        let own = match &profile {
            Some(p) => same(p.conversation_id.as_str(), c.id.as_str()),
            None => false,
        };
        if !own && !is_steward_conversation(&c) && !is_team_worker_conversation(&c) && !bound_somewhere(
            &tasks,
            c.id.as_str(),
        ) {
            let ghost before = views(loose@);
            loose.push(unregistered_conversation_response(c));
            assert(views(loose@) =~= before.push(loose@.last()@));
        }
    }
    assert(shown.take(shown.len() as int) =~= shown);
    StewardOverviewResponse {
        profile,
        open_tasks: open,
        running_tasks: running,
        waiting_tasks: waiting,
        interrupted_tasks: stopped,
        tasks,
        unregistered_conversations: loose,
    }
}

/// A conversation that is shown as belonging to no task is neither the steward's own nor
/// bound to one of the tasks shown beside it, and it was found.
pub proof fn law_unregistered_are_unbound(
    profile: Option<StewardProfileResponseView>,
    tasks: Seq<StewardTaskResponseView>,
    conversations: Seq<ConversationResponseView>,
    i: int,
)
    requires
        0 <= i < unregistered(conversations, profile, tasks).len(),
    ensures
        ({
            let shown = unregistered(conversations, profile, tasks)[i];
            &&& !is_bound(tasks, shown.conversation_id)
            &&& profile matches Some(p) ==> p.conversation_id != shown.conversation_id
            &&& exists|k: int|
                0 <= k < conversations.len() && unregistered_shown(#[trigger] conversations[k]) == shown
        }),
    decreases conversations.len(),
{
    if conversations.len() > 0 {
        let init = conversations.drop_last();
        let before = unregistered(init, profile, tasks);
        if i < before.len() {
            law_unregistered_are_unbound(profile, tasks, init, i);
            let k = choose|k: int|
                0 <= k < init.len() && unregistered_shown(#[trigger] init[k]) == unregistered(
                    init,
                    profile,
                    tasks,
                )[i];
            assert(conversations[k] == init[k]);
        } else {
            assert(unregistered_shown(conversations[conversations.len() - 1]) == unregistered(
                conversations,
                profile,
                tasks,
            )[i]);
        }
    }
}

/// The overview is complete: every conversation is the steward's own, a team worker's, bound
/// to a task, or shown as belonging to none.
pub proof fn law_no_conversation_is_left_out(
    profile: Option<StewardProfileResponseView>,
    tasks: Seq<StewardTaskResponseView>,
    conversations: Seq<ConversationResponseView>,
    k: int,
)
    requires
        0 <= k < conversations.len(),
        is_unregistered(conversations[k], profile, tasks),
    ensures
        unregistered(conversations, profile, tasks).contains(unregistered_shown(conversations[k])),
    decreases conversations.len(),
{
    let init = conversations.drop_last();
    let before = unregistered(init, profile, tasks);
    let all = unregistered(conversations, profile, tasks);
    if k < init.len() {
        law_no_conversation_is_left_out(profile, tasks, init, k);
        let i = before.index_of(unregistered_shown(init[k]));
        assert(all[i] == unregistered_shown(conversations[k]));
    } else {
        assert(all[before.len() as int] == unregistered_shown(conversations[k]));
    }
}

/// No task is counted both as running and as waiting, or as either and as interrupted.
pub proof fn law_counts_do_not_overlap(tasks: Seq<StewardTaskResponseView>)
    ensures
        count_tasks(tasks, running_task()) + count_tasks(tasks, waiting_task()) + count_tasks(
            tasks,
            stopped_task(),
        ) <= tasks.len(),
        count_tasks(tasks, open_task()) <= tasks.len(),
    decreases tasks.len(),
{
    if tasks.len() > 0 {
        law_counts_do_not_overlap(tasks.drop_last());
    }
}

// ---------------------------------------------------------------------
// What is shown and counted
// ---------------------------------------------------------------------

/// Each conversation of a task that is there is shown with its binding's identifier, role and
/// time and its own name and project, and with the status it has now where that is known. A
/// conversation that is gone is not shown, and a role that is none is the only failure.
pub proof fn law_sessions_are_shown_as_they_are(bound: Seq<BoundConversationView>, k: int, c: ConversationResponseView)
    requires
        0 <= k < bound.len(),
        bound[k].conversation == Some(c),
    ensures
        session_role_of(bound[k].binding.role) is Err ==> sessions_of(bound) is Err,
        sessions_of(bound) matches Ok(shown) ==> exists|i: int|
            0 <= i < shown.len() && (#[trigger] shown[i]).id == bound[k].binding.id && shown[i].conversation_id == c.id
                && shown[i].conversation_name == c.name && session_role_of(bound[k].binding.role) == Ok::<
                StewardSessionRole,
                ConversationErrorView,
            >(shown[i].role) && shown[i].created_at == bound[k].binding.created_at && shown[i].project_id
                == c.project_id && shown[i].workspace == text_field(c.extra, "workspace"@) && shown[i].status == Some(
                if c.runtime is Some && c.runtime.unwrap().task_status is Some {
                    c.runtime.unwrap().task_status.unwrap()
                } else {
                    c.status
                },
            ),
    decreases bound.len(),
{
    let init = bound.drop_last();
    if k == bound.len() - 1 {
        if let Ok(shown) = sessions_of(bound) {
            assert(shown[shown.len() - 1].id == bound[k].binding.id);
        }
    } else {
        assert(init[k] == bound[k]);
        law_sessions_are_shown_as_they_are(init, k, c);
        if let Ok(shown) = sessions_of(bound) {
            let before = sessions_of(init)->Ok_0;
            let i = choose|i: int|
                0 <= i < before.len() && (#[trigger] before[i]).id == init[k].binding.id && before[i].conversation_id
                    == c.id && before[i].conversation_name == c.name && session_role_of(init[k].binding.role) == Ok::<
                    StewardSessionRole,
                    ConversationErrorView,
                >(before[i].role) && before[i].created_at == init[k].binding.created_at && before[i].project_id
                    == c.project_id && before[i].workspace == text_field(c.extra, "workspace"@) && before[i].status
                    == Some(
                    if c.runtime is Some && c.runtime.unwrap().task_status is Some {
                        c.runtime.unwrap().task_status.unwrap()
                    } else {
                        c.status
                    },
                );
            assert(shown[i] == before[i]);
        }
    }
}

/// As many sessions are shown as conversations are there, and they are shown if all their
/// roles are proper.
pub proof fn law_proper_roles_are_shown(bound: Seq<BoundConversationView>)
    ensures
        (forall|i: int|
            0 <= i < bound.len() && (#[trigger] bound[i]).conversation is Some ==> session_role_of(
                bound[i].binding.role,
            ) is Ok) ==> sessions_of(bound) is Ok,
        sessions_of(bound) matches Ok(shown) ==> shown.len() <= bound.len() && ((forall|i: int|
            0 <= i < bound.len() ==> (#[trigger] bound[i]).conversation is Some) ==> shown.len() == bound.len()) && ((
        forall|i: int| 0 <= i < bound.len() ==> (#[trigger] bound[i]).conversation is None) ==> shown.len() == 0),
    decreases bound.len(),
{
    if bound.len() > 0 {
        let init = bound.drop_last();
        assert(bound[bound.len() - 1] == bound.last());
        assert(forall|i: int| 0 <= i < init.len() ==> #[trigger] init[i] == bound[i]);
        law_proper_roles_are_shown(init);
    }
}

/// A task is shown as it is stored: its texts, its time, its states and its policies as they
/// are read, with its sessions and its events in their order. It is not shown if one of its
/// states or roles is none.
pub proof fn law_a_task_is_shown_as_stored(
    row: StewardTaskRowView,
    bound: Seq<BoundConversationView>,
    events: Seq<StewardTaskEventRowView>,
)
    ensures
        task_shown(row, bound, events) is Ok <==> sessions_of(bound) is Ok && lifecycle_of(row.lifecycle) is Ok
            && execution_state_of(row.execution_state) is Ok,
        task_shown(row, bound, events) matches Ok(t) ==> {
            &&& t.id == row.id && t.title == row.title && t.objective == row.objective && t.priority == row.priority
            &&& lifecycle_of(row.lifecycle) == Ok::<StewardTaskLifecycle, ConversationErrorView>(t.lifecycle)
            &&& execution_state_of(row.execution_state) == Ok::<StewardExecutionState, ConversationErrorView>(
                t.execution_state,
            )
            &&& t.progress_summary == row.progress_summary && t.next_action == row.next_action
            &&& t.project_id == row.project_id && t.folder_id == row.folder_id && t.workspace == row.workspace
            &&& t.created_at == row.created_at && t.updated_at == row.updated_at
            &&& sessions_of(bound) == Ok::<Seq<StewardTaskSessionResponseView>, ConversationErrorView>(t.sessions)
            &&& texts_parsed(row.blockers) matches Some(list) ==> t.blockers == list
            &&& texts_parsed(row.blockers) is None ==> t.blockers.len() == 0
            &&& json_parsed(row.permission_policy) matches Some(x) ==> t.permission_policy == x
            &&& json_parsed(row.budget_policy) matches Some(x) ==> t.budget_policy == x
            &&& json_parsed(row.permission_policy) is None ==> t.permission_policy == object_of(Seq::empty())
            &&& json_parsed(row.budget_policy) is None ==> t.budget_policy == object_of(Seq::empty())
            &&& t.events.len() == events.len()
            &&& forall|i: int|
                0 <= i < events.len() ==> (#[trigger] t.events[i]).id == events[i].id && t.events[i].event_type
                    == events[i].event_type && t.events[i].source == events[i].source && t.events[i].created_at
                    == events[i].created_at && (json_parsed(events[i].payload) matches Some(x) ==> t.events[i].payload
                    == x)
        },
{
}

/// The overview counts the tasks that are open, that are running, that wait for the user or
/// for something else, and that were interrupted or failed; `at` are the places of such
/// tasks.
pub proof fn law_the_overview_counts_tasks(
    profile: Option<StewardProfileResponseView>,
    tasks: Seq<StewardTaskResponseView>,
    conversations: Seq<ConversationResponseView>,
    at: Seq<int>,
)
    requires
        tasks.len() <= usize::MAX,
        forall|i: int, j: int| 0 <= i < j < at.len() ==> #[trigger] at[i] < #[trigger] at[j],
        forall|i: int| 0 <= i < at.len() ==> 0 <= #[trigger] at[i] < tasks.len(),
    ensures
        (forall|k: int|
            0 <= k < tasks.len() ==> (at.contains(k) <==> (#[trigger] tasks[k]).lifecycle
                == StewardTaskLifecycle::Open)) ==> overview_of(profile, tasks, conversations).open_tasks == at.len(),
        (forall|k: int|
            0 <= k < tasks.len() ==> (at.contains(k) <==> (#[trigger] tasks[k]).execution_state
                == StewardExecutionState::Running)) ==> overview_of(profile, tasks, conversations).running_tasks
            == at.len(),
        (forall|k: int|
            0 <= k < tasks.len() ==> (at.contains(k) <==> (#[trigger] tasks[k]).execution_state
                == StewardExecutionState::WaitingUser || tasks[k].execution_state
                == StewardExecutionState::WaitingExternal)) ==> overview_of(profile, tasks, conversations).waiting_tasks
            == at.len(),
        (forall|k: int|
            0 <= k < tasks.len() ==> (at.contains(k) <==> (#[trigger] tasks[k]).execution_state
                == StewardExecutionState::Interrupted || tasks[k].execution_state == StewardExecutionState::Failed))
            ==> overview_of(profile, tasks, conversations).interrupted_tasks == at.len(),
        overview_of(profile, tasks, conversations).tasks == tasks,
        overview_of(profile, tasks, conversations).profile == profile,
{
    let o = overview_of(profile, tasks, conversations);
    law_counts_do_not_overlap(tasks);
    if forall|k: int|
        0 <= k < tasks.len() ==> (at.contains(k) <==> (#[trigger] tasks[k]).lifecycle == StewardTaskLifecycle::Open) {
        lemma_count_at(tasks, open_task(), at);
    }
    if forall|k: int|
        0 <= k < tasks.len() ==> (at.contains(k) <==> (#[trigger] tasks[k]).execution_state
            == StewardExecutionState::Running) {
        lemma_count_at(tasks, running_task(), at);
    }
    if forall|k: int|
        0 <= k < tasks.len() ==> (at.contains(k) <==> (#[trigger] tasks[k]).execution_state
            == StewardExecutionState::WaitingUser || tasks[k].execution_state
            == StewardExecutionState::WaitingExternal) {
        lemma_count_at(tasks, waiting_task(), at);
    }
    if forall|k: int|
        0 <= k < tasks.len() ==> (at.contains(k) <==> (#[trigger] tasks[k]).execution_state
            == StewardExecutionState::Interrupted || tasks[k].execution_state == StewardExecutionState::Failed) {
        lemma_count_at(tasks, stopped_task(), at);
    }
}

proof fn lemma_count_at(
    tasks: Seq<StewardTaskResponseView>,
    p: spec_fn(StewardTaskResponseView) -> bool,
    at: Seq<int>,
)
    requires
        forall|i: int, j: int| 0 <= i < j < at.len() ==> #[trigger] at[i] < #[trigger] at[j],
        forall|i: int| 0 <= i < at.len() ==> 0 <= #[trigger] at[i] < tasks.len(),
        forall|k: int| 0 <= k < tasks.len() ==> (at.contains(k) <==> p(#[trigger] tasks[k])),
    ensures
        count_tasks(tasks, p) == at.len(),
    decreases tasks.len(),
{
    if tasks.len() == 0 {
        if at.len() > 0 {
            assert(0 <= at[0] < tasks.len());
        }
    } else {
        let init = tasks.drop_last();
        let n = tasks.len() - 1;
        assert(tasks[n] == tasks.last());
        assert(forall|k: int| 0 <= k < init.len() ==> #[trigger] init[k] == tasks[k]);
        if at.contains(n) {
            let q = at.index_of(n);
            if q < at.len() - 1 {
                assert(at[q] < at[at.len() - 1]);
            }
            let less = at.drop_last();
            assert forall|i: int| 0 <= i < less.len() implies 0 <= #[trigger] less[i] < init.len() by {
                assert(less[i] == at[i]);
                assert(at[i] < at[at.len() - 1]);
            }
            assert forall|k: int| 0 <= k < init.len() implies (less.contains(k) <==> p(#[trigger] init[k])) by {
                if at.contains(k) {
                    let i = at.index_of(k);
                    assert(less[i] == k);
                }
                if less.contains(k) {
                    let i = less.index_of(k);
                    assert(at[i] == k);
                }
            }
            lemma_count_at(init, p, less);
        } else {
            assert forall|i: int| 0 <= i < at.len() implies 0 <= #[trigger] at[i] < init.len() by {
                assert(at.contains(at[i]));
            }
            lemma_count_at(init, p, at);
        }
    }
}

/// A conversation that belongs to no task, no steward and no team, and is not the steward's
/// own, is shown on its own, with its name, its status, its time, and the backend of its
/// assistant or else the one that it names itself.
pub proof fn law_loose_conversations_are_shown(
    profile: Option<StewardProfileResponseView>,
    tasks: Seq<StewardTaskResponseView>,
    conversations: Seq<ConversationResponseView>,
    k: int,
)
    requires
        0 <= k < conversations.len(),
        profile is None || profile.unwrap().conversation_id != conversations[k].id,
        !marks_steward(conversations[k].extra),
        !marks_worker(conversations[k].extra),
        forall|i: int, j: int|
            0 <= i < tasks.len() && 0 <= j < (#[trigger] tasks[i]).sessions.len() ==> (
            #[trigger] tasks[i].sessions[j]).conversation_id != conversations[k].id,
    ensures
        exists|i: int|
            0 <= i < overview_of(profile, tasks, conversations).unregistered_conversations.len() && {
                let shown = #[trigger] overview_of(profile, tasks, conversations).unregistered_conversations[i];
                &&& shown.conversation_id == conversations[k].id
                &&& shown.conversation_name == conversations[k].name
                &&& shown.status == conversations[k].status
                &&& shown.project_id == conversations[k].project_id
                &&& shown.modified_at == conversations[k].modified_at
                &&& shown.workspace == text_field(conversations[k].extra, "workspace"@)
                &&& conversations[k].assistant matches Some(a) ==> shown.assistant_name == Some(a.name)
                    && shown.backend == Some(a.backend)
                &&& conversations[k].assistant is None ==> shown.assistant_name is None && shown.backend
                    == text_field(conversations[k].extra, "backend"@)
            },
{
    assert(!is_bound(tasks, conversations[k].id));
    law_no_conversation_is_left_out(profile, tasks, conversations, k);
    let shown = overview_of(profile, tasks, conversations).unregistered_conversations;
    let i = shown.index_of(unregistered_shown(conversations[k]));
    assert(shown[i].conversation_id == conversations[k].id);
}

/// Nothing is shown on its own that belongs to a task or is the steward's, and no
/// conversation that is marked as a steward's or a worker's.
pub proof fn law_only_loose_conversations_are_shown(
    profile: Option<StewardProfileResponseView>,
    tasks: Seq<StewardTaskResponseView>,
    conversations: Seq<ConversationResponseView>,
    i: int,
)
    requires
        0 <= i < unregistered(conversations, profile, tasks).len(),
    ensures
        exists|k: int|
            0 <= k < conversations.len() && (#[trigger] conversations[k]).id == unregistered(
                conversations,
                profile,
                tasks,
            )[i].conversation_id && !marks_steward(conversations[k].extra) && !marks_worker(conversations[k].extra),
        forall|a: int, b: int|
            0 <= a < tasks.len() && 0 <= b < (#[trigger] tasks[a]).sessions.len() ==> (
            #[trigger] tasks[a].sessions[b]).conversation_id != unregistered(
                conversations,
                profile,
                tasks,
            )[i].conversation_id,
        profile matches Some(p) ==> p.conversation_id != unregistered(conversations, profile, tasks)[i].conversation_id,
    decreases conversations.len(),
{
    let init = conversations.drop_last();
    let before = unregistered(init, profile, tasks);
    let after = unregistered(conversations, profile, tasks);
    if i < before.len() {
        law_only_loose_conversations_are_shown(profile, tasks, init, i);
        assert(after[i] == before[i]);
        let k = choose|k: int|
            0 <= k < init.len() && (#[trigger] init[k]).id == before[i].conversation_id && !marks_steward(
                init[k].extra,
            ) && !marks_worker(init[k].extra);
        assert(conversations[k] == init[k]);
    } else {
        let c = conversations[conversations.len() - 1];
        assert(after[i] == unregistered_shown(c));
        assert(c.id == after[i].conversation_id);
        assert(!is_bound(tasks, c.id));
        assert forall|a: int, b: int|
            0 <= a < tasks.len() && 0 <= b < (#[trigger] tasks[a]).sessions.len() implies (
        #[trigger] tasks[a].sessions[b]).conversation_id != c.id by {
            if tasks[a].sessions[b].conversation_id == c.id {
                assert(in_sessions(tasks[a].sessions, c.id));
            }
        }
    }
}

/// The steward's profile is its conversation, by its own name and workspace, with its
/// assistant.
pub proof fn law_the_profile_is_the_conversation(c: ConversationResponseView, assistant_id: Seq<char>)
    ensures
        profile_shown(c, assistant_id).conversation_id == c.id,
        profile_shown(c, assistant_id).conversation_name == c.name,
        profile_shown(c, assistant_id).assistant_id == assistant_id,
        profile_shown(c, assistant_id).workspace == text_field(c.extra, "workspace"@),
{
}

} // verus!
