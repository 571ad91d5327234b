//! Stored tasks: how they come to be, how they change, and how they are shown.
use vstd::prelude::*;
use crate::api::{
    execution_state_name, lifecycle_name, session_role_name, BindStewardTaskSessionRequest,
    BindStewardTaskSessionRequestView, CreateStewardTaskRequest, CreateStewardTaskRequestView,
    StewardExecutionState, StewardSessionRole, StewardTaskLifecycle, UpdateStewardTaskRequest,
};
use crate::conversation::{
    result_view, ConversationError, ConversationErrorView, CreateConversationPlan, CreateConversationPlanView,
};
use crate::dispatch::{dispatch_event, lemma_dispatch_is_kept, lemma_stored_dispatch_is_found};
use crate::fields::{
    is_object_or_null, json_object_or_empty, nonempty, nonempty_option, not_an_object, object_or_empty, required,
    require_json_object, required_text,
};
use crate::json::{
    is_kept, json_parsed, json_text, law_object_holds_its_entries, object_of, text_array, text_field, texts_in,
    texts_parsed, Json, JsonView,
};
use crate::names::{
    execution_state_of, law_execution_state_is_read_back, law_lifecycle_is_read_back, lifecycle_of,
};
use crate::reports::records_dispatch;
use crate::rows::{
    StewardTaskEventRow, StewardTaskEventRowView, StewardTaskRow, StewardTaskRowView, StewardTaskSessionRow,
    StewardTaskSessionRowView,
};
use crate::sessions::{first_primary, law_the_first_primary_counts, primary_binding};
use crate::text::{as_text, blank, copy_opt, is_blank, opt_view, same, same_opt, trimmed, views};

verus! {

// ---------------------------------------------------------------------
// Events
// ---------------------------------------------------------------------

/// An event that is to be recorded.
#[derive(Debug, Clone)]
pub struct EventDraft {
    pub source: String,
    pub event_type: String,
    pub payload: Json,
}

/// The model of [`EventDraft`].
#[verifier::ext_equal]
pub struct EventDraftView {
    pub source: Seq<char>,
    pub event_type: Seq<char>,
    pub payload: JsonView,
}

impl View for EventDraft {
    type V = EventDraftView;

    open spec fn view(&self) -> EventDraftView {
        EventDraftView { source: self.source@, event_type: self.event_type@, payload: self.payload@ }
    }
}

/// An event to be recorded.
pub open spec fn draft(source: Seq<char>, event_type: Seq<char>, payload: JsonView) -> EventDraftView {
    EventDraftView { source, event_type, payload }
}

/// Drafts an event.
pub fn make_draft(source: &str, event_type: &str, payload: Json) -> (r: EventDraft)
    ensures
        r@ == draft(source@, event_type@, payload@),
{
    EventDraft { source: source.to_owned(), event_type: event_type.to_owned(), payload }
}

/// The row that records an event. A payload that is kept is read back from it as it was; so
/// the row of a dispatch is found by its run.
pub fn append_event(id: String, task_id: &str, event: EventDraft, now: i64) -> (r: StewardTaskEventRow)
    ensures
        r@ == (StewardTaskEventRowView {
            id: id@,
            task_id: task_id@,
            source: event@.source,
            event_type: event@.event_type,
            payload: json_text(event@.payload),
            created_at: now,
        }),
        is_kept(event@.payload) ==> json_parsed(r@.payload) == Some(event@.payload),
        forall|conversation_id: Seq<char>, turn_id: Seq<char>|
            event@ == #[trigger] dispatch_event(conversation_id, turn_id) ==> records_dispatch(r@, turn_id),
{
    let payload = event.payload.to_text();
    let ghost was = event@;
    let r = StewardTaskEventRow {
        id,
        task_id: task_id.to_owned(),
        source: event.source,
        event_type: event.event_type,
        payload,
        created_at: now,
    };
    proof {
        assert forall|conversation_id: Seq<char>, turn_id: Seq<char>|
            was == #[trigger] dispatch_event(conversation_id, turn_id) implies records_dispatch(r@, turn_id) by {
            lemma_dispatch_is_kept(conversation_id, turn_id);
            lemma_stored_dispatch_is_found(r@, conversation_id, turn_id);
        }
    }
    r
}

/// The event of a new task.
pub fn task_created_event() -> (r: EventDraft)
    ensures
        r@ == draft("user"@, "task_created"@, object_of(Seq::empty())),
{
    make_draft("user", "task_created", Json::empty_object())
}

/// The event of a task whose fields were changed.
pub fn task_updated_event(row: &StewardTaskRow) -> (r: EventDraft)
    ensures
        r@ == draft(
            "steward"@,
            "task_updated"@,
            object_of(
                seq![
                    ("lifecycle"@, JsonView::Text(row@.lifecycle)),
                    ("execution_state"@, JsonView::Text(row@.execution_state)),
                ],
            ),
        ),
{
    make_draft(
        "steward",
        "task_updated",
        Json::object2(
            "lifecycle",
            Json::text(row.lifecycle.as_str()),
            "execution_state",
            Json::text(row.execution_state.as_str()),
        ),
    )
}

/// The event of a conversation that was bound to a task.
pub fn session_bound_event(conversation_id: &str, role: StewardSessionRole) -> (r: EventDraft)
    ensures
        r@ == draft(
            "steward"@,
            "session_bound"@,
            object_of(
                seq![
                    ("conversation_id"@, JsonView::Text(conversation_id@)),
                    ("role"@, JsonView::Text(session_role_name(role))),
                ],
            ),
        ),
{
    make_draft(
        "steward",
        "session_bound",
        Json::object2("conversation_id", Json::text(conversation_id), "role", Json::text(role.as_str())),
    )
}

/// The event of a task whose runtime was brought up again.
pub fn resumed_event(conversation_id: &str, restart: bool) -> (r: EventDraft)
    ensures
        r@ == draft(
            "steward"@,
            if restart {
                "runtime_restarted"@
            } else {
                "runtime_ensured"@
            },
            object_of(seq![("conversation_id"@, JsonView::Text(conversation_id@))]),
        ),
{
    make_draft(
        "steward",
        if restart {
            "runtime_restarted"
        } else {
            "runtime_ensured"
        },
        Json::object1("conversation_id", Json::text(conversation_id)),
    )
}

// ---------------------------------------------------------------------
// Blockers
// ---------------------------------------------------------------------

/// The blockers that a stored text lists; none where it is no list of texts.
pub open spec fn blockers_in(stored: Seq<char>) -> Seq<Seq<char>> {
    match texts_parsed(stored) {
        Some(list) => list,
        None => Seq::empty(),
    }
}

/// Reads stored blockers. A new task is stored with none.
pub fn read_blockers(stored: &str) -> (r: Vec<String>)
    ensures
        views(r@) == blockers_in(stored@),
        stored@ == "[]"@ ==> r@.len() == 0,
{
    match Json::parse_texts(stored) {
        Some(list) => list,
        None => {
            let none: Vec<String> = Vec::new();
            assert(views(none@) =~= Seq::empty());
            none
        },
    }
}

/// Writes blockers so that they are read back as they were.
pub fn write_blockers(list: &Vec<String>) -> (r: String)
    ensures
        r@ == json_text(text_array(views(list@))),
        blockers_in(r@) == views(list@),
{
    let x = Json::texts(list);
    let r = x.to_text();
    assert(texts_in(x@) == Some(views(list@))) by {
        let items = x@->Array_0;
        assert(forall|i: int| 0 <= i < items.len() ==> (#[trigger] items[i]) is Text);
        assert(texts_in(x@).unwrap() =~= views(list@));
    }
    r
}

/// Writes a single blocker.
pub fn write_blocker(text: &str) -> (r: String)
    ensures
        r@ == json_text(text_array(seq![text@])),
        blockers_in(r@) == seq![text@],
{
    let mut list: Vec<String> = Vec::new();
    list.push(text.to_owned());
    assert(views(list@) =~= seq![text@]);
    write_blockers(&list)
}

// ---------------------------------------------------------------------
// Creating and changing
// ---------------------------------------------------------------------

/// A request for a task with its texts trimmed and its policies made objects.
pub open spec fn checked_request(request: CreateStewardTaskRequestView) -> Result<
    CreateStewardTaskRequestView,
    ConversationErrorView,
> {
    match (required("title"@, request.title), required("objective"@, request.objective)) {
        (Err(e), _) => Err(e),
        (Ok(_), Err(e)) => Err(e),
        (Ok(title), Ok(objective)) => if !is_object_or_null(request.permission_policy) {
            Err(not_an_object("permission_policy"@))
        } else if !is_object_or_null(request.budget_policy) {
            Err(not_an_object("budget_policy"@))
        } else {
            Ok(
                CreateStewardTaskRequestView {
                    title,
                    objective,
                    permission_policy: object_or_empty(request.permission_policy),
                    budget_policy: object_or_empty(request.budget_policy),
                    ..request
                },
            )
        },
    }
}

/// Checks what a task is to be created with.
pub fn check_create_request(request: CreateStewardTaskRequest) -> (r: Result<
    CreateStewardTaskRequest,
    ConversationError,
>)
    ensures
        result_view(r) == checked_request(request@),
{
    let title = match required_text("title", request.title) {
        Ok(t) => t,
        Err(e) => {
            return Err(e);
        },
    };
    let objective = match required_text("objective", request.objective) {
        Ok(t) => t,
        Err(e) => {
            return Err(e);
        },
    };
    if let Err(e) = require_json_object("permission_policy", &request.permission_policy) {
        return Err(e);
    }
    if let Err(e) = require_json_object("budget_policy", &request.budget_policy) {
        return Err(e);
    }
    Ok(
        CreateStewardTaskRequest {
            title,
            objective,
            priority: request.priority,
            project_id: request.project_id,
            folder_id: request.folder_id,
            workspace: request.workspace,
            permission_policy: json_object_or_empty(request.permission_policy),
            budget_policy: json_object_or_empty(request.budget_policy),
            conversation_id: request.conversation_id,
        },
    )
}

/// The row of a new task: open, idle where a conversation is bound to it from the start and
/// unassigned where none is.
pub open spec fn new_task(
    id: Seq<char>,
    user_id: Seq<char>,
    checked: CreateStewardTaskRequestView,
    now: i64,
) -> StewardTaskRowView {
    StewardTaskRowView {
        id,
        user_id,
        title: checked.title,
        objective: checked.objective,
        lifecycle: "open"@,
        execution_state: if checked.conversation_id is Some {
            "idle"@
        } else {
            "unassigned"@
        },
        priority: checked.priority,
        progress_summary: None,
        next_action: None,
        blockers: "[]"@,
        project_id: checked.project_id,
        folder_id: checked.folder_id,
        workspace: checked.workspace,
        permission_policy: json_text(checked.permission_policy),
        budget_policy: json_text(checked.budget_policy),
        created_at: now,
        updated_at: now,
    }
}

/// The row of a new task, from a request that was checked. Policies that are kept are read back
/// from it as they were.
pub fn create_task(id: String, user_id: &str, checked: &CreateStewardTaskRequest, now: i64) -> (r: StewardTaskRow)
    ensures
        r@ == new_task(id@, user_id@, checked@, now),
        is_kept(checked@.permission_policy) ==> json_parsed(r@.permission_policy) == Some(
            checked@.permission_policy,
        ),
        is_kept(checked@.budget_policy) ==> json_parsed(r@.budget_policy) == Some(checked@.budget_policy),
{
    StewardTaskRow {
        id,
        user_id: user_id.to_owned(),
        title: checked.title.clone(),
        objective: checked.objective.clone(),
        lifecycle: "open".to_owned(),
        execution_state: if checked.conversation_id.is_some() {
            "idle".to_owned()
        } else {
            "unassigned".to_owned()
        },
        priority: checked.priority,
        progress_summary: None,
        next_action: None,
        blockers: "[]".to_owned(),
        project_id: copy_opt(&checked.project_id),
        folder_id: copy_opt(&checked.folder_id),
        workspace: copy_opt(&checked.workspace),
        permission_policy: checked.permission_policy.to_text(),
        budget_policy: checked.budget_policy.to_text(),
        created_at: now,
        updated_at: now,
    }
}

/// A text field after an update that may leave it as it was.
pub open spec fn renewed_text(field: Seq<char>, new: Option<String>, old_value: Seq<char>) -> Result<
    Seq<char>,
    ConversationErrorView,
> {
    match new {
        Some(value) => required(field, value@),
        None => Ok(old_value),
    }
}

/// An optional field after an update: a blank text clears it.
pub open spec fn renewed_option(new: Option<String>, old_value: Option<Seq<char>>) -> Option<Seq<char>> {
    match new {
        Some(value) => nonempty(value@),
        None => old_value,
    }
}

/// A policy field after an update.
pub open spec fn renewed_policy(new: Option<Json>, old_value: Seq<char>) -> Seq<char> {
    match new {
        Some(value) => json_text(value@),
        None => old_value,
    }
}

/// Whether a policy may be stored.
pub open spec fn acceptable_policy(new: Option<Json>) -> bool {
    new matches Some(value) ==> is_object_or_null(value@)
}

/// The row of a task after an update. What the request leaves out stays as it was; the
/// identity, the owner and the time of creation always do.
pub open spec fn updated_task(row: StewardTaskRowView, request: UpdateStewardTaskRequest, now: i64) -> Result<
    StewardTaskRowView,
    ConversationErrorView,
> {
    match (
        renewed_text("title"@, request.title, row.title),
        renewed_text("objective"@, request.objective, row.objective),
    ) {
        (Err(e), _) => Err(e),
        (Ok(_), Err(e)) => Err(e),
        (Ok(title), Ok(objective)) => if !acceptable_policy(request.permission_policy) {
            Err(not_an_object("permission_policy"@))
        } else if !acceptable_policy(request.budget_policy) {
            Err(not_an_object("budget_policy"@))
        } else {
            Ok(
                StewardTaskRowView {
                    title,
                    objective,
                    lifecycle: match request.lifecycle {
                        Some(x) => lifecycle_name(x),
                        None => row.lifecycle,
                    },
                    execution_state: match request.execution_state {
                        Some(x) => execution_state_name(x),
                        None => row.execution_state,
                    },
                    priority: match request.priority {
                        Some(p) => p,
                        None => row.priority,
                    },
                    progress_summary: renewed_option(request.progress_summary, row.progress_summary),
                    next_action: renewed_option(request.next_action, row.next_action),
                    blockers: match request.blockers {
                        Some(list) => json_text(text_array(views(list@))),
                        None => row.blockers,
                    },
                    project_id: renewed_option(request.project_id, row.project_id),
                    folder_id: renewed_option(request.folder_id, row.folder_id),
                    workspace: renewed_option(request.workspace, row.workspace),
                    permission_policy: renewed_policy(request.permission_policy, row.permission_policy),
                    budget_policy: renewed_policy(request.budget_policy, row.budget_policy),
                    updated_at: now,
                    ..row
                },
            )
        },
    }
}

fn renew_text(field: &str, new: Option<String>, old_value: String) -> (r: Result<String, ConversationError>)
    ensures
        result_view(r) == renewed_text(field@, new, old_value@),
{
    match new {
        Some(value) => required_text(field, value),
        None => Ok(old_value),
    }
}

fn renew_option(new: Option<String>, old_value: Option<String>) -> (r: Option<String>)
    ensures
        opt_view(r) == renewed_option(new, opt_view(old_value)),
{
    match new {
        Some(value) => nonempty_option(value),
        None => old_value,
    }
}

fn check_policy(field: &str, new: &Option<Json>) -> (r: Result<(), ConversationError>)
    ensures
        r is Ok <==> acceptable_policy(*new),
        r matches Err(e) ==> e@ == not_an_object(field@),
{
    match new {
        Some(value) => require_json_object(field, value),
        None => Ok(()),
    }
}

fn renew_policy(new: Option<Json>, old_value: String) -> (r: String)
    ensures
        r@ == renewed_policy(new, old_value@),
        new matches Some(value) ==> (is_kept(value@) ==> json_parsed(r@) == Some(value@)),
{
    match new {
        Some(value) => value.to_text(),
        None => old_value,
    }
}

/// Changes the fields of a task that a request names.
pub fn update_task(row: StewardTaskRow, request: UpdateStewardTaskRequest, now: i64) -> (r: Result<
    StewardTaskRow,
    ConversationError,
>)
    ensures
        result_view(r) == updated_task(row@, request, now),
        r matches Ok(after) ==> (request.blockers matches Some(list) ==> blockers_in(after@.blockers) == views(
            list@,
        )),
        r matches Ok(after) ==> (request.permission_policy matches Some(policy) ==> (is_kept(policy@)
            ==> json_parsed(after@.permission_policy) == Some(policy@))),
        r matches Ok(after) ==> (request.budget_policy matches Some(policy) ==> (is_kept(policy@) ==> json_parsed(
            after@.budget_policy,
        ) == Some(policy@))),
{
    let title = match renew_text("title", request.title, row.title) {
        Ok(t) => t,
        Err(e) => {
            return Err(e);
        },
    };
    let objective = match renew_text("objective", request.objective, row.objective) {
        Ok(t) => t,
        Err(e) => {
            return Err(e);
        },
    };
    if let Err(e) = check_policy("permission_policy", &request.permission_policy) {
        return Err(e);
    }
    if let Err(e) = check_policy("budget_policy", &request.budget_policy) {
        return Err(e);
    }
    Ok(
        StewardTaskRow {
            id: row.id,
            user_id: row.user_id,
            title,
            objective,
            lifecycle: match request.lifecycle {
                Some(x) => x.as_str().to_owned(),
                None => row.lifecycle,
            },
            execution_state: match request.execution_state {
                Some(x) => x.as_str().to_owned(),
                None => row.execution_state,
            },
            priority: match request.priority {
                Some(p) => p,
                None => row.priority,
            },
            progress_summary: renew_option(request.progress_summary, row.progress_summary),
            next_action: renew_option(request.next_action, row.next_action),
            blockers: match request.blockers {
                Some(list) => write_blockers(&list),
                None => row.blockers,
            },
            project_id: renew_option(request.project_id, row.project_id),
            folder_id: renew_option(request.folder_id, row.folder_id),
            workspace: renew_option(request.workspace, row.workspace),
            permission_policy: renew_policy(request.permission_policy, row.permission_policy),
            budget_policy: renew_policy(request.budget_policy, row.budget_policy),
            created_at: row.created_at,
            updated_at: now,
        },
    )
}

/// An update that does not name the lifecycle leaves it alone, whatever it says of the
/// execution, and the other way round.
pub proof fn law_lifecycle_and_execution_are_separate(
    row: StewardTaskRowView,
    request: UpdateStewardTaskRequest,
    now: i64,
)
    ensures
        updated_task(row, request, now) matches Ok(after) ==> {
            &&& request.lifecycle is None ==> after.lifecycle == row.lifecycle
            &&& request.execution_state is None ==> after.execution_state == row.execution_state
            &&& after.id == row.id
            &&& after.user_id == row.user_id
            &&& after.created_at == row.created_at
        },
{
}

// ---------------------------------------------------------------------
// Binding conversations
// ---------------------------------------------------------------------

/// The prompt of a task's primary conversation.
pub const TASK_LEADER_PROMPT: &'static str = "This conversation is the primary execution session for a durable AionUi steward task. Work through your native harness and native MCP/skills. You may remain a single agent or activate the embedded expert team when complexity justifies it. Keep the steward informed through durable task state and clear final summaries; do not treat process exit as task completion.";

/// The error for a request that would replace the primary conversation without saying so.
pub open spec fn primary_taken(existing: Seq<char>) -> ConversationErrorView {
    ConversationErrorView::Busy {
        reason: "task already has primary conversation "@ + existing
            + "; explicit replace_primary=true is required"@,
    }
}

/// Whether a request would put a conversation in the place of another primary without
/// saying so.
pub open spec fn replaces_silently(
    request: BindStewardTaskSessionRequestView,
    bindings: Seq<StewardTaskSessionRowView>,
) -> bool {
    &&& request.role == StewardSessionRole::Primary
    &&& !request.replace_primary
    &&& first_primary(bindings) matches Some(b) && request.conversation_id != Some(b.conversation_id)
}

/// Refuses to replace the primary conversation unless the request says so.
pub fn check_primary_replacement(
    request: &BindStewardTaskSessionRequest,
    bindings: &Vec<StewardTaskSessionRow>,
) -> (r: Result<(), ConversationError>)
    ensures
        r is Err <==> replaces_silently(request@, views(bindings@)),
        r matches Err(e) ==> e@ == primary_taken(first_primary(views(bindings@)).unwrap().conversation_id),
{
    if request.role == StewardSessionRole::Primary && !request.replace_primary {
        if let Some(b) = primary_binding(bindings) {
            if !same_opt(as_text(&request.conversation_id), Some(b.conversation_id.as_str())) {
                let mut reason = "task already has primary conversation ".to_owned();
                reason.append(b.conversation_id.as_str());
                reason.append("; explicit replace_primary=true is required");
                return Err(ConversationError::Busy { reason });
            }
        }
    }
    Ok(())
}

/// The text, unless it is blank. It is not trimmed.
pub open spec fn unless_blank(value: Option<Seq<char>>) -> Option<Seq<char>> {
    match value {
        Some(v) => if blank(v) {
            None
        } else {
            Some(v)
        },
        None => None,
    }
}

/// Drops a blank text.
pub fn filter_blank(value: Option<&str>) -> (r: Option<&str>)
    ensures
        opt_view(r) == unless_blank(opt_view(value)),
{
    match value {
        Some(v) => if is_blank(v) {
            None
        } else {
            Some(v)
        },
        None => None,
    }
}

/// The extra data of a new conversation: a first entry, the prompt, and the workspace where
/// there is one.
pub open spec fn session_extra(
    key: Seq<char>,
    value: JsonView,
    prompt: Seq<char>,
    workspace: Option<Seq<char>>,
) -> JsonView {
    let base = seq![(key, value), ("preset_context"@, JsonView::Text(prompt))];
    match workspace {
        Some(w) => object_of(base.push(("workspace"@, JsonView::Text(w)))),
        None => object_of(base),
    }
}

/// The conversation that is created for a task when the request names none.
pub open spec fn session_plan(request: BindStewardTaskSessionRequestView, task: StewardTaskRowView) -> Result<
    CreateConversationPlanView,
    ConversationErrorView,
> {
    match unless_blank(request.assistant_id) {
        None => Err(
            ConversationErrorView::BadRequest { reason: "assistant_id is required when creating a session"@ },
        ),
        Some(assistant_id) => Ok(
            CreateConversationPlanView {
                name: match unless_blank(request.conversation_name) {
                    Some(n) => n,
                    None => task.title,
                },
                assistant_id,
                locale: "zh-CN"@,
                extra: session_extra(
                    "steward_task_id"@,
                    JsonView::Text(task.id),
                    TASK_LEADER_PROMPT@,
                    unless_blank(
                        match request.workspace {
                            Some(w) => Some(w),
                            None => task.workspace,
                        },
                    ),
                ),
            },
        ),
    }
}

/// Plans the conversation that is created for a task when the request names none.
pub fn plan_session(request: &BindStewardTaskSessionRequest, task: &StewardTaskRow) -> (r: Result<
    CreateConversationPlan,
    ConversationError,
>)
    ensures
        result_view(r) == session_plan(request@, task@),
{
    let assistant_id = match filter_blank(as_text(&request.assistant_id)) {
        Some(a) => a,
        None => {
            return Err(
                ConversationError::bad_request(
                    "assistant_id is required when creating a session".to_owned(),
                ),
            );
        },
    };
    let wanted = match as_text(&request.workspace) {
        Some(w) => Some(w),
        None => as_text(&task.workspace),
    };
    let id = Json::text(task.id.as_str());
    let prompt = Json::text(TASK_LEADER_PROMPT);
    let extra = match filter_blank(wanted) {
        Some(w) => {
            let x = Json::object3("steward_task_id", id, "preset_context", prompt, "workspace", Json::text(w));
            assert(seq![
                ("steward_task_id"@, JsonView::Text(task@.id)),
                ("preset_context"@, JsonView::Text(TASK_LEADER_PROMPT@)),
                ("workspace"@, JsonView::Text(w@)),
            ] =~= seq![
                ("steward_task_id"@, JsonView::Text(task@.id)),
                ("preset_context"@, JsonView::Text(TASK_LEADER_PROMPT@)),
            ].push(("workspace"@, JsonView::Text(w@))));
            x
        },
        None => Json::object2("steward_task_id", id, "preset_context", prompt),
    };
    Ok(
        CreateConversationPlan {
            name: match filter_blank(as_text(&request.conversation_name)) {
                Some(n) => n.to_owned(),
                None => task.title.clone(),
            },
            assistant_id: assistant_id.to_owned(),
            locale: "zh-CN".to_owned(),
            extra,
        },
    )
}

/// The binding of a conversation to a task from now on.
pub open spec fn new_binding(
    id: Seq<char>,
    task_id: Seq<char>,
    conversation_id: Seq<char>,
    role: StewardSessionRole,
    now: i64,
) -> StewardTaskSessionRowView {
    StewardTaskSessionRowView {
        id,
        task_id,
        conversation_id,
        role: session_role_name(role),
        created_at: now,
        detached_at: None,
    }
}

/// The row that binds a conversation to a task.
pub fn bind_existing_session(
    id: String,
    task_id: &str,
    conversation_id: &str,
    role: StewardSessionRole,
    now: i64,
) -> (r: StewardTaskSessionRow)
    ensures
        r@ == (StewardTaskSessionRowView {
            id: id@,
            task_id: task_id@,
            conversation_id: conversation_id@,
            role: session_role_name(role),
            created_at: now,
            detached_at: None,
        }),
        r@ == new_binding(id@, task_id@, conversation_id@, role, now),
{
    StewardTaskSessionRow {
        id,
        task_id: task_id.to_owned(),
        conversation_id: conversation_id.to_owned(),
        role: role.as_str().to_owned(),
        created_at: now,
        detached_at: None,
    }
}

/// The row of a task whose execution state changed, and nothing else but the time.
pub open spec fn in_state(row: StewardTaskRowView, state: Seq<char>, now: i64) -> StewardTaskRowView {
    StewardTaskRowView { execution_state: state, updated_at: now, ..row }
}

/// Puts a task in an execution state.
pub fn set_state(row: StewardTaskRow, state: &str, now: i64) -> (r: StewardTaskRow)
    ensures
        r@ == in_state(row@, state@, now),
{
    let mut row = row;
    row.execution_state = state.to_owned();
    row.updated_at = now;
    row
}

/// The task once a conversation is bound to it, where the binding changes it: one that nobody
/// worked on can be worked on by a primary conversation.
pub open spec fn bound_task(row: StewardTaskRowView, role: StewardSessionRole, now: i64) -> Option<StewardTaskRowView> {
    if role == StewardSessionRole::Primary && row.execution_state == "unassigned"@ {
        Some(in_state(row, "idle"@, now))
    } else {
        None
    }
}

/// What a binding changes about a task: the first primary conversation makes an unassigned
/// task idle.
pub fn task_after_binding(row: &StewardTaskRow, role: StewardSessionRole, now: i64) -> (r: Option<StewardTaskRow>)
    ensures
        opt_view(r) == if role == StewardSessionRole::Primary && row@.execution_state == "unassigned"@ {
            Some(in_state(row@, "idle"@, now))
        } else {
            None
        },
        opt_view(r) == bound_task(row@, role, now),
{
    if role == StewardSessionRole::Primary && same(row.execution_state.as_str(), "unassigned") {
        Some(set_state(row.copy(), "idle", now))
    } else {
        None
    }
}

/// The row of a task that was archived or restored. Archiving pauses it; restoring opens it
/// and leaves its execution state.
pub open spec fn archived_task(row: StewardTaskRowView, archived: bool, now: i64) -> StewardTaskRowView {
    StewardTaskRowView {
        lifecycle: if archived {
            "archived"@
        } else {
            "open"@
        },
        execution_state: if archived {
            "paused"@
        } else {
            row.execution_state
        },
        updated_at: now,
        ..row
    }
}

/// Archives or restores a task.
pub fn set_task_archived(row: StewardTaskRow, archived: bool, now: i64) -> (r: StewardTaskRow)
    ensures
        r@ == archived_task(row@, archived, now),
{
    let mut row = row;
    row.lifecycle = if archived {
        "archived".to_owned()
    } else {
        "open".to_owned()
    };
    if archived {
        row.execution_state = "paused".to_owned();
    }
    row.updated_at = now;
    row
}

/// The error for a task that there is not.
pub open spec fn no_such_task(task_id: Seq<char>) -> ConversationErrorView {
    ConversationErrorView::NotFound { reason: "Steward task '"@ + task_id + "' not found"@ }
}

/// The error for a task that is not there.
pub fn task_not_found(task_id: &str) -> (r: ConversationError)
    ensures
        r@ == (ConversationErrorView::NotFound { reason: "Steward task '"@ + task_id@ + "' not found"@ }),
        r@ == no_such_task(task_id@),
{
    let mut reason = "Steward task '".to_owned();
    reason.append(task_id);
    reason.append("' not found");
    ConversationError::not_found_reason(reason)
}

// ---------------------------------------------------------------------
// What requests come to
// ---------------------------------------------------------------------

/// Where an update succeeds, each field that the request names takes the requested value:
/// states are read back as they were asked for, texts are trimmed, and a blank text clears
/// what may be left out.
pub proof fn law_updates_take_effect(row: StewardTaskRowView, request: UpdateStewardTaskRequest, now: i64)
    ensures
        updated_task(row, request, now) matches Ok(after) ==> {
            &&& request.execution_state matches Some(x) ==> execution_state_of(after.execution_state) == Ok::<
                StewardExecutionState,
                ConversationErrorView,
            >(x)
            &&& request.lifecycle matches Some(x) ==> lifecycle_of(after.lifecycle) == Ok::<
                StewardTaskLifecycle,
                ConversationErrorView,
            >(x)
            &&& request.priority matches Some(p) ==> after.priority == p
            &&& request.title matches Some(s) ==> after.title == trimmed(s@)
            &&& request.objective matches Some(s) ==> after.objective == trimmed(s@)
            &&& request.progress_summary matches Some(s) ==> (trimmed(s@).len() > 0 ==> after.progress_summary == Some(
                trimmed(s@),
            )) && (trimmed(s@).len() == 0 ==> after.progress_summary is None)
            &&& request.next_action matches Some(s) ==> (trimmed(s@).len() > 0 ==> after.next_action == Some(
                trimmed(s@),
            )) && (trimmed(s@).len() == 0 ==> after.next_action is None)
            &&& request.project_id matches Some(s) ==> (trimmed(s@).len() > 0 ==> after.project_id == Some(
                trimmed(s@),
            )) && (trimmed(s@).len() == 0 ==> after.project_id is None)
            &&& request.folder_id matches Some(s) ==> (trimmed(s@).len() > 0 ==> after.folder_id == Some(
                trimmed(s@),
            )) && (trimmed(s@).len() == 0 ==> after.folder_id is None)
            &&& request.workspace matches Some(s) ==> (trimmed(s@).len() > 0 ==> after.workspace == Some(
                trimmed(s@),
            )) && (trimmed(s@).len() == 0 ==> after.workspace is None)
            &&& request.blockers matches Some(list) ==> after.blockers == json_text(text_array(views(list@)))
            &&& request.permission_policy matches Some(p) ==> after.permission_policy == json_text(p@)
            &&& request.budget_policy matches Some(p) ==> after.budget_policy == json_text(p@)
            &&& after.updated_at == now
        },
{
    if let Some(x) = request.execution_state {
        law_execution_state_is_read_back(x);
    }
    if let Some(x) = request.lifecycle {
        law_lifecycle_is_read_back(x);
    }
}

/// Where an update succeeds, each field that the request does not name stays as it was.
pub proof fn law_updates_leave_the_rest(row: StewardTaskRowView, request: UpdateStewardTaskRequest, now: i64)
    ensures
        updated_task(row, request, now) matches Ok(after) ==> {
            &&& request.execution_state is None ==> after.execution_state == row.execution_state
            &&& request.lifecycle is None ==> after.lifecycle == row.lifecycle
            &&& request.priority is None ==> after.priority == row.priority
            &&& request.title is None ==> after.title == row.title
            &&& request.objective is None ==> after.objective == row.objective
            &&& request.progress_summary is None ==> after.progress_summary == row.progress_summary
            &&& request.next_action is None ==> after.next_action == row.next_action
            &&& request.project_id is None ==> after.project_id == row.project_id
            &&& request.folder_id is None ==> after.folder_id == row.folder_id
            &&& request.workspace is None ==> after.workspace == row.workspace
            &&& request.blockers is None ==> after.blockers == row.blockers
            &&& request.permission_policy is None ==> after.permission_policy == row.permission_policy
            &&& request.budget_policy is None ==> after.budget_policy == row.budget_policy
            &&& after.id == row.id
            &&& after.user_id == row.user_id
            &&& after.created_at == row.created_at
        },
{
}

/// An update is refused exactly if it would make the title or the objective blank, or store
/// a policy that is neither an object nor `null`.
pub proof fn law_updates_are_refused_for_a_reason(
    row: StewardTaskRowView,
    request: UpdateStewardTaskRequest,
    now: i64,
)
    ensures
        updated_task(row, request, now) is Err <==> {
            ||| request.title is Some && trimmed(request.title.unwrap()@).len() == 0
            ||| request.objective is Some && trimmed(request.objective.unwrap()@).len() == 0
            ||| request.permission_policy is Some && !(request.permission_policy.unwrap()@ is Null)
                && !(request.permission_policy.unwrap()@ is Object)
            ||| request.budget_policy is Some && !(request.budget_policy.unwrap()@ is Null)
                && !(request.budget_policy.unwrap()@ is Object)
        },
        updated_task(row, request, now) matches Err(e) ==> e is BadRequest,
{
}

/// A task is created only with a title and an objective, which are trimmed, and with
/// policies that are objects, where `null` stands for the empty one. The rest is taken as it
/// was asked for.
pub proof fn law_new_tasks_are_checked(request: CreateStewardTaskRequestView)
    ensures
        checked_request(request) is Err <==> {
            ||| trimmed(request.title).len() == 0
            ||| trimmed(request.objective).len() == 0
            ||| !(request.permission_policy is Null) && !(request.permission_policy is Object)
            ||| !(request.budget_policy is Null) && !(request.budget_policy is Object)
        },
        checked_request(request) matches Err(e) ==> e is BadRequest,
        checked_request(request) matches Ok(checked) ==> {
            &&& checked.title == trimmed(request.title)
            &&& checked.objective == trimmed(request.objective)
            &&& checked.priority == request.priority
            &&& checked.project_id == request.project_id
            &&& checked.folder_id == request.folder_id
            &&& checked.workspace == request.workspace
            &&& checked.conversation_id == request.conversation_id
            &&& request.permission_policy is Object ==> checked.permission_policy == request.permission_policy
            &&& request.budget_policy is Object ==> checked.budget_policy == request.budget_policy
            &&& request.permission_policy is Null ==> checked.permission_policy == object_of(Seq::empty())
            &&& request.budget_policy is Null ==> checked.budget_policy == object_of(Seq::empty())
        },
{
}

/// A new task is open, idle if a conversation comes with it and unassigned otherwise, has
/// made no progress and holds what was asked for.
pub proof fn law_new_tasks_begin_open(
    id: Seq<char>,
    user_id: Seq<char>,
    checked: CreateStewardTaskRequestView,
    now: i64,
)
    ensures
        ({
            let row = new_task(id, user_id, checked, now);
            &&& lifecycle_of(row.lifecycle) == Ok::<StewardTaskLifecycle, ConversationErrorView>(
                StewardTaskLifecycle::Open,
            )
            &&& checked.conversation_id is Some ==> execution_state_of(row.execution_state) == Ok::<
                StewardExecutionState,
                ConversationErrorView,
            >(StewardExecutionState::Idle)
            &&& checked.conversation_id is None ==> execution_state_of(row.execution_state) == Ok::<
                StewardExecutionState,
                ConversationErrorView,
            >(StewardExecutionState::Unassigned)
            &&& row.id == id
            &&& row.user_id == user_id
            &&& row.title == checked.title
            &&& row.objective == checked.objective
            &&& row.priority == checked.priority
            &&& row.project_id == checked.project_id
            &&& row.folder_id == checked.folder_id
            &&& row.workspace == checked.workspace
            &&& row.progress_summary is None
            &&& row.next_action is None
            &&& row.blockers == "[]"@
            &&& row.permission_policy == json_text(checked.permission_policy)
            &&& row.budget_policy == json_text(checked.budget_policy)
            &&& row.created_at == now
            &&& row.updated_at == now
        }),
{
    law_lifecycle_is_read_back(StewardTaskLifecycle::Open);
    law_execution_state_is_read_back(StewardExecutionState::Idle);
    law_execution_state_is_read_back(StewardExecutionState::Unassigned);
}

/// Archiving a task archives and pauses it, restoring it opens it and leaves its execution
/// alone; whatever else the task holds stays, so that restoring brings back what was
/// archived but for the pause.
pub proof fn law_restoring_undoes_archiving(row: StewardTaskRowView, then: i64, now: i64)
    ensures
        lifecycle_of(archived_task(row, true, then).lifecycle) == Ok::<StewardTaskLifecycle, ConversationErrorView>(
            StewardTaskLifecycle::Archived,
        ),
        execution_state_of(archived_task(row, true, then).execution_state) == Ok::<
            StewardExecutionState,
            ConversationErrorView,
        >(StewardExecutionState::Paused),
        lifecycle_of(archived_task(row, false, now).lifecycle) == Ok::<StewardTaskLifecycle, ConversationErrorView>(
            StewardTaskLifecycle::Open,
        ),
        archived_task(row, false, now).execution_state == row.execution_state,
        archived_task(row, true, then).updated_at == then,
        row.lifecycle == "open"@ ==> (StewardTaskRowView {
            execution_state: row.execution_state,
            updated_at: row.updated_at,
            ..archived_task(archived_task(row, true, then), false, now)
        }) == row,
        (StewardTaskRowView {
            lifecycle: row.lifecycle,
            execution_state: row.execution_state,
            updated_at: row.updated_at,
            ..archived_task(row, true, then)
        }) == row,
{
    law_lifecycle_is_read_back(StewardTaskLifecycle::Archived);
    law_lifecycle_is_read_back(StewardTaskLifecycle::Open);
    law_execution_state_is_read_back(StewardExecutionState::Paused);
}

/// A task keeps its primary conversation unless a request says that it may be replaced: a
/// request that names another one, or none, is turned away.
pub proof fn law_the_primary_is_not_replaced_silently(
    request: BindStewardTaskSessionRequestView,
    bindings: Seq<StewardTaskSessionRowView>,
    k: int,
)
    requires
        0 <= k < bindings.len(),
        bindings[k].role == "primary"@,
        forall|i: int| 0 <= i < k ==> (#[trigger] bindings[i]).role != "primary"@,
    ensures
        replaces_silently(request, bindings) <==> request.role == StewardSessionRole::Primary
            && !request.replace_primary && request.conversation_id != Some(bindings[k].conversation_id),
        first_primary(bindings) == Some(bindings[k]),
{
    law_the_first_primary_counts(bindings, k);
}

/// A conversation is planned for a task only for an assistant that is named; it takes the
/// given name and workspace, or else those of the task, and knows the task.
pub proof fn law_a_planned_session_serves_its_task(
    request: BindStewardTaskSessionRequestView,
    task: StewardTaskRowView,
)
    ensures
        session_plan(request, task) is Ok <==> request.assistant_id is Some && !blank(request.assistant_id.unwrap()),
        session_plan(request, task) matches Err(e) ==> e == (ConversationErrorView::BadRequest {
            reason: "assistant_id is required when creating a session"@,
        }),
        session_plan(request, task) matches Ok(plan) ==> {
            &&& plan.locale == "zh-CN"@
            &&& Some(plan.assistant_id) == request.assistant_id
            &&& request.conversation_name is Some && !blank(request.conversation_name.unwrap()) ==> plan.name
                == request.conversation_name.unwrap()
            &&& request.conversation_name is None || blank(request.conversation_name.unwrap()) ==> plan.name
                == task.title
            &&& text_field(plan.extra, "steward_task_id"@) == Some(task.id)
            &&& text_field(plan.extra, "preset_context"@) == Some(TASK_LEADER_PROMPT@)
            &&& request.workspace is Some && !blank(request.workspace.unwrap()) ==> text_field(
                plan.extra,
                "workspace"@,
            ) == request.workspace
            &&& request.workspace is None && task.workspace is Some && !blank(task.workspace.unwrap()) ==> text_field(
                plan.extra,
                "workspace"@,
            ) == task.workspace
            &&& request.workspace is Some && blank(request.workspace.unwrap()) ==> text_field(
                plan.extra,
                "workspace"@,
            ) is None
            &&& request.workspace is None && (task.workspace is None || blank(task.workspace.unwrap()))
                ==> text_field(plan.extra, "workspace"@) is None
        },
{
    reveal_strlit("steward_task_id");
    reveal_strlit("preset_context");
    reveal_strlit("workspace");
    assert("steward_task_id"@.len() == 15);
    assert("preset_context"@.len() == 14);
    assert("workspace"@.len() == 9);
    let base = seq![
        ("steward_task_id"@, JsonView::Text(task.id)),
        ("preset_context"@, JsonView::Text(TASK_LEADER_PROMPT@)),
    ];
    let workspace = unless_blank(
        match request.workspace {
            Some(w) => Some(w),
            None => task.workspace,
        },
    );
    let pairs = match workspace {
        Some(w) => base.push(("workspace"@, JsonView::Text(w))),
        None => base,
    };
    assert(pairs[0] == base[0] && pairs[1] == base[1]);
    law_object_holds_its_entries(pairs, 0, "steward_task_id"@);
    law_object_holds_its_entries(pairs, 1, "preset_context"@);
    law_object_holds_its_entries(pairs, 2, "workspace"@);
}

/// A task that nobody works on is idle from the time on at which a primary conversation is
/// bound to it; nothing else of it changes, and no other binding changes a task.
pub proof fn law_a_primary_takes_up_the_task(row: StewardTaskRowView, role: StewardSessionRole, now: i64)
    ensures
        bound_task(row, role, now) is Some <==> role is Primary && row.execution_state == "unassigned"@,
        bound_task(row, role, now) matches Some(after) ==> after.execution_state == "idle"@ && after.updated_at == now
            && row == (StewardTaskRowView {
            execution_state: row.execution_state,
            updated_at: row.updated_at,
            ..after
        }),
        bound_task(row, role, now) matches Some(after) ==> bound_task(after, role, now) is None,
{
    reveal_strlit("idle");
    reveal_strlit("unassigned");
    assert("idle"@.len() == 4);
    assert("unassigned"@.len() == 10);
}

/// A new binding joins its task and its conversation from now on and is not detached. It is
/// the primary one of the task exactly if it was asked for as such.
pub proof fn law_a_new_binding_joins_both(
    id: Seq<char>,
    task_id: Seq<char>,
    conversation_id: Seq<char>,
    role: StewardSessionRole,
    now: i64,
)
    ensures
        ({
            let b = new_binding(id, task_id, conversation_id, role, now);
            &&& b.id == id && b.task_id == task_id && b.conversation_id == conversation_id
            &&& b.created_at == now && b.detached_at is None
            &&& first_primary(seq![b]) == Some(b) <==> role is Primary
            &&& role is Worker ==> b.role == "worker"@
            &&& role is Replacement ==> b.role == "replacement"@
            &&& role is Observer ==> b.role == "observer"@
        }),
{
    reveal_strlit("primary");
    reveal_strlit("worker");
    reveal_strlit("replacement");
    reveal_strlit("observer");
    assert("primary"@.len() == 7);
    assert("worker"@.len() == 6);
    assert("replacement"@.len() == 11);
    assert("observer"@.len() == 8);
    let b = new_binding(id, task_id, conversation_id, role, now);
    reveal_with_fuel(first_primary, 3);
    assert(seq![b].drop_first() =~= Seq::empty());
}

/// A request that is refused for the primary conversation that there is says which one, and
/// refusals for different ones differ.
pub proof fn law_a_refusal_names_the_primary(existing: Seq<char>, other: Seq<char>)
    ensures
        primary_taken(existing) is Busy,
        primary_taken(existing)->Busy_reason.len() > existing.len(),
        exists|i: int|
            0 <= i && i + existing.len() <= primary_taken(existing)->Busy_reason.len() && #[trigger] primary_taken(
                existing,
            )->Busy_reason.subrange(i, i + existing.len()) == existing,
        primary_taken(existing) == primary_taken(other) ==> existing == other,
{
    reveal_strlit("task already has primary conversation ");
    let head = "task already has primary conversation "@;
    let tail = "; explicit replace_primary=true is required"@;
    let a = head + existing + tail;
    let b = head + other + tail;
    assert(head.len() > 0);
    assert(a.subrange(head.len() as int, head.len() as int + existing.len()) =~= existing);
    assert(b.subrange(head.len() as int, head.len() as int + other.len()) =~= other);
    assert(primary_taken(existing)->Busy_reason == a);
    if a == b {
        assert(a.len() == b.len());
        assert(existing.len() == other.len());
    }
}

/// A task that there is not is told by its identifier, and different ones differently.
pub proof fn law_an_unknown_task_is_named(task_id: Seq<char>, other: Seq<char>)
    ensures
        no_such_task(task_id) is NotFound,
        no_such_task(task_id) == no_such_task(other) ==> task_id == other,
{
    let head = "Steward task '"@;
    let tail = "' not found"@;
    let a = head + task_id + tail;
    let b = head + other + tail;
    assert(a.subrange(head.len() as int, head.len() as int + task_id.len()) =~= task_id);
    assert(b.subrange(head.len() as int, head.len() as int + other.len()) =~= other);
    if a == b {
        assert(a.len() == b.len());
        assert(task_id.len() == other.len());
    }
}

} // verus!
