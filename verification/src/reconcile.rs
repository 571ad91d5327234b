//! Bringing the stored execution state of a task in line with its conversation's runtime.
use vstd::prelude::*;
use crate::conversation::{ConversationResponse, ConversationResponseView, MessageStatus};
use crate::json::{law_object_holds_its_entries, object_of, text_field, Json, JsonView};
use crate::rows::{StewardTaskRow, StewardTaskRowView};
use crate::tasks::{draft, in_state, make_draft, set_state, EventDraft, EventDraftView};
use crate::text::{opt_view, same};

verus! {

/// A change of a task's execution state, with the event that records it.
#[derive(Debug, Clone)]
pub struct Reconciled {
    pub task: StewardTaskRow,
    pub event: EventDraft,
}

/// The model of [`Reconciled`].
#[verifier::ext_equal]
pub struct ReconciledView {
    pub task: StewardTaskRowView,
    pub event: EventDraftView,
}

impl View for Reconciled {
    type V = ReconciledView;

    open spec fn view(&self) -> ReconciledView {
        ReconciledView { task: self.task@, event: self.event@ }
    }
}

/// What is known about a task's execution.
pub enum RuntimeFacts<'a> {
    /// No conversation is its primary.
    NoPrimary,
    /// The primary conversation is gone.
    NoConversation(&'a str),
    /// The primary conversation is there, and its last message, where it was asked for, has
    /// this status.
    Conversation(&'a str, &'a ConversationResponse, Option<MessageStatus>),
}

/// The model of [`RuntimeFacts`].
#[verifier::ext_equal]
pub enum RuntimeFactsView {
    NoPrimary,
    NoConversation(Seq<char>),
    Conversation(Seq<char>, ConversationResponseView, Option<MessageStatus>),
}

impl<'a> View for RuntimeFacts<'a> {
    type V = RuntimeFactsView;

    open spec fn view(&self) -> RuntimeFactsView {
        match *self {
            RuntimeFacts::NoPrimary => RuntimeFactsView::NoPrimary,
            RuntimeFacts::NoConversation(id) => RuntimeFactsView::NoConversation(id@),
            RuntimeFacts::Conversation(id, c, status) => RuntimeFactsView::Conversation(id@, c@, status),
        }
    }
}

/// Whether the runtime of a conversation is at work, or has work.
pub open spec fn is_busy(c: ConversationResponseView) -> bool {
    c.runtime matches Some(r) && (r.is_processing || r.has_task)
}

/// Whether the last message of the conversation has to be looked at: the task counts as
/// running, but its conversation is not busy.
pub open spec fn asks_for_last_message(row: StewardTaskRowView, c: ConversationResponseView) -> bool {
    !is_busy(c) && row.execution_state == "running"@
}

/// Whether the runtime of a conversation is at work, or has work.
fn conversation_is_busy(c: &ConversationResponse) -> (r: bool)
    ensures
        r == is_busy(c@),
{
    match &c.runtime {
        Some(x) => x.is_processing || x.has_task,
        None => false,
    }
}

/// Whether the last message of the conversation has to be looked at.
pub fn needs_last_message(row: &StewardTaskRow, conversation: &ConversationResponse) -> (r: bool)
    ensures
        r == asks_for_last_message(row@, conversation@),
{
    !conversation_is_busy(conversation) && same(row.execution_state.as_str(), "running")
}

/// A change to a state, with its event.
pub open spec fn change(
    row: StewardTaskRowView,
    state: Seq<char>,
    event_type: Seq<char>,
    payload: JsonView,
    now: i64,
) -> Option<ReconciledView> {
    Some(ReconciledView { task: in_state(row, state, now), event: draft("runtime"@, event_type, payload) })
}

/// The state that the runtime shows, where it shows one: running while the conversation is
/// busy; once a running task's conversation is not, interrupted after an error and idle
/// otherwise.
pub open spec fn shown_state(
    row: StewardTaskRowView,
    c: ConversationResponseView,
    last: Option<MessageStatus>,
) -> Option<Seq<char>> {
    if is_busy(c) {
        Some("running"@)
    } else if row.execution_state == "running"@ {
        if last == Some(MessageStatus::Error) {
            Some("interrupted"@)
        } else {
            Some("idle"@)
        }
    } else {
        None
    }
}

/// The change that the facts call for, if any.
pub open spec fn reconciled(row: StewardTaskRowView, facts: RuntimeFactsView, now: i64) -> Option<ReconciledView> {
    match facts {
        RuntimeFactsView::NoPrimary => if row.execution_state != "unassigned"@ && row.execution_state
            != "interrupted"@ {
            change(row, "interrupted"@, "primary_binding_missing"@, object_of(Seq::empty()), now)
        } else {
            None
        },
        RuntimeFactsView::NoConversation(id) => if row.execution_state != "interrupted"@ {
            change(
                row,
                "interrupted"@,
                "primary_session_missing"@,
                object_of(seq![("conversation_id"@, JsonView::Text(id))]),
                now,
            )
        } else {
            None
        },
        RuntimeFactsView::Conversation(id, c, last) => match shown_state(row, c, last) {
            Some(state) => if row.execution_state != state {
                change(
                    row,
                    state,
                    "execution_state_reconciled"@,
                    object_of(
                        seq![
                            ("conversation_id"@, JsonView::Text(id)),
                            ("execution_state"@, JsonView::Text(state)),
                        ],
                    ),
                    now,
                )
            } else {
                None
            },
            None => None,
        },
    }
}

fn make_change(row: &StewardTaskRow, state: &str, event_type: &str, payload: Json, now: i64) -> (r: Option<Reconciled>)
    ensures
        opt_view(r) == change(row@, state@, event_type@, payload@, now),
{
    Some(
        Reconciled {
            task: set_state(row.copy(), state, now),
            event: make_draft("runtime", event_type, payload),
        },
    )
}

/// Decides how a task's stored execution state is to change.
pub fn reconcile_runtime_state(row: &StewardTaskRow, facts: RuntimeFacts, now: i64) -> (r: Option<Reconciled>)
    ensures
        opt_view(r) == reconciled(row@, facts@, now),
{
    let state = row.execution_state.as_str();
    match facts {
        RuntimeFacts::NoPrimary => if !same(state, "unassigned") && !same(state, "interrupted") {
            make_change(row, "interrupted", "primary_binding_missing", Json::empty_object(), now)
        } else {
            None
        },
        RuntimeFacts::NoConversation(id) => if !same(state, "interrupted") {
            make_change(
                row,
                "interrupted",
                "primary_session_missing",
                Json::object1("conversation_id", Json::text(id)),
                now,
            )
        } else {
            None
        },
        RuntimeFacts::Conversation(id, c, last) => {
            let failed = match last {
                Some(s) => s == MessageStatus::Error,
                None => false,
            };
            let next = if conversation_is_busy(c) {
                "running"
            } else if same(state, "running") {
                if failed {
                    "interrupted"
                } else {
                    "idle"
                }
            } else {
                return None;
            };
            if same(state, next) {
                None
            } else {
                make_change(
                    row,
                    next,
                    "execution_state_reconciled",
                    Json::object2("conversation_id", Json::text(id), "execution_state", Json::text(next)),
                    now,
                )
            }
        },
    }
}

/// Reconciling touches the execution state and the time of the last change, and nothing
/// else: a process that ends never ends its task.
pub proof fn law_reconciling_leaves_the_lifecycle(row: StewardTaskRowView, facts: RuntimeFactsView, now: i64)
    ensures
        reconciled(row, facts, now) matches Some(r) ==> {
            &&& r.task.lifecycle == row.lifecycle
            &&& r.task == in_state(row, r.task.execution_state, now)
            &&& r.task.execution_state != row.execution_state
            &&& r.task.execution_state == "running"@ || r.task.execution_state == "interrupted"@
                || r.task.execution_state == "idle"@
        },
{
}

/// Reconciling a second time with the same facts changes nothing.
pub proof fn law_reconciling_settles(row: StewardTaskRowView, facts: RuntimeFactsView, now: i64, again: i64)
    ensures
        reconciled(row, facts, now) matches Some(r) ==> reconciled(r.task, facts, again) is None,
{
    reveal_strlit("running");
    reveal_strlit("interrupted");
    reveal_strlit("idle");
    assert("running"@.len() == 7);
    assert("interrupted"@.len() == 11);
    assert("idle"@.len() == 4);
}

/// A task without a primary conversation is interrupted, unless it was never assigned; so is
/// one whose conversation is gone. What was interrupted already stays as it is.
pub proof fn law_what_lost_its_conversation_is_interrupted(row: StewardTaskRowView, id: Seq<char>, now: i64)
    ensures
        row.execution_state == "unassigned"@ || row.execution_state == "interrupted"@ ==> reconciled(
            row,
            RuntimeFactsView::NoPrimary,
            now,
        ) is None,
        row.execution_state != "unassigned"@ && row.execution_state != "interrupted"@ ==> (reconciled(
            row,
            RuntimeFactsView::NoPrimary,
            now,
        ) matches Some(r) && r.task.execution_state == "interrupted"@ && r.task.updated_at == now && r.event.event_type
            == "primary_binding_missing"@ && r.event.source == "runtime"@),
        row.execution_state == "interrupted"@ ==> reconciled(row, RuntimeFactsView::NoConversation(id), now) is None,
        row.execution_state != "interrupted"@ ==> (reconciled(
            row,
            RuntimeFactsView::NoConversation(id),
            now,
        ) matches Some(r) && r.task.execution_state == "interrupted"@ && r.task.updated_at == now && r.event.source
            == "runtime"@ && r.event.event_type == "primary_session_missing"@ && text_field(r.event.payload, "conversation_id"@) == Some(id)),
{
    let pairs = seq![("conversation_id"@, JsonView::Text(id))];
    law_object_holds_its_entries(pairs, 0, "conversation_id"@);
}

/// A task is running while its conversation is at work; one that was running and is at work
/// no more was interrupted if its last message is an error, and is idle otherwise. Any other
/// state of a task whose conversation rests is left alone.
pub proof fn law_the_conversation_shows_the_state(
    row: StewardTaskRowView,
    id: Seq<char>,
    c: ConversationResponseView,
    last: Option<MessageStatus>,
    now: i64,
)
    ensures
        ({
            let busy = c.runtime is Some && (c.runtime.unwrap().is_processing || c.runtime.unwrap().has_task);
            let after = reconciled(row, RuntimeFactsView::Conversation(id, c, last), now);
            &&& busy && row.execution_state == "running"@ ==> after is None
            &&& busy && row.execution_state != "running"@ ==> after is Some
                && after.unwrap().task.execution_state == "running"@
            &&& !busy && row.execution_state == "running"@ && last == Some(MessageStatus::Error) ==> after is Some
                && after.unwrap().task.execution_state == "interrupted"@
            &&& !busy && row.execution_state == "running"@ && last != Some(MessageStatus::Error) ==> after is Some
                && after.unwrap().task.execution_state == "idle"@
            &&& !busy && row.execution_state != "running"@ ==> after is None
            &&& after matches Some(r) ==> r.event.event_type == "execution_state_reconciled"@ && text_field(
                r.event.payload,
                "conversation_id"@,
            ) == Some(id) && text_field(r.event.payload, "execution_state"@) == Some(r.task.execution_state)
                && r.task.updated_at == now && r.event.source == "runtime"@
        }),
{
    reveal_strlit("running");
    reveal_strlit("idle");
    reveal_strlit("interrupted");
    assert("running"@.len() == 7);
    assert("idle"@.len() == 4);
    assert("interrupted"@.len() == 11);
    reveal_strlit("conversation_id");
    reveal_strlit("execution_state");
    assert("conversation_id"@[0] == 'c');
    assert("execution_state"@[0] == 'e');
    if let Some(state) = shown_state(row, c, last) {
        let pairs = seq![("conversation_id"@, JsonView::Text(id)), ("execution_state"@, JsonView::Text(state))];
        law_object_holds_its_entries(pairs, 0, "conversation_id"@);
        law_object_holds_its_entries(pairs, 1, "execution_state"@);
    }
}

/// The last message is looked at where it may matter: of two readings of it, each calls for
/// the same change unless it is asked for, and where it is asked for, an error and a message
/// without one call for different changes.
pub proof fn law_the_last_message_is_asked_for_where_it_matters(
    row: StewardTaskRowView,
    id: Seq<char>,
    c: ConversationResponseView,
    a: Option<MessageStatus>,
    b: Option<MessageStatus>,
    now: i64,
)
    ensures
        !asks_for_last_message(row, c) ==> reconciled(row, RuntimeFactsView::Conversation(id, c, a), now)
            == reconciled(row, RuntimeFactsView::Conversation(id, c, b), now),
        asks_for_last_message(row, c) && a == Some(MessageStatus::Error) && b != Some(MessageStatus::Error)
            ==> reconciled(row, RuntimeFactsView::Conversation(id, c, a), now) != reconciled(
            row,
            RuntimeFactsView::Conversation(id, c, b),
            now,
        ),
{
    law_the_conversation_shows_the_state(row, id, c, a, now);
    law_the_conversation_shows_the_state(row, id, c, b, now);
    reveal_strlit("idle");
    reveal_strlit("interrupted");
    assert("idle"@.len() == 4);
    assert("interrupted"@.len() == 11);
}

} // verus!
