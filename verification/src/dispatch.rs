//! Sending work to a task's primary conversation, and waiting for what comes of it.
use vstd::prelude::*;
use crate::api::{StewardExecutionState, StewardTaskInquiryResponse, StewardTaskInquiryResponseView};
use crate::conversation::{
    ConversationError, ConversationErrorView, MessagePosition, MessageResponse, MessageResponseView, MessageStatus,
    MessageType, SendMessageResponse, SendMessageResponseView,
};
use crate::json::{
    field, is_kept, json_parsed, json_text, law_object_holds_its_entries, lemma_lookup_put_all, lemma_object_is_plain,
    number_of, object_of, text_array, text_field, Json, JsonView, RESERVED_KEY,
};
use crate::names::{execution_state_of, law_execution_state_is_read_back};
use crate::reports::records_dispatch;
use crate::rows::{StewardTaskEventRowView, StewardTaskRow, StewardTaskRowView};
use crate::tasks::{blockers_in, draft, in_state, make_draft, set_state, write_blocker, EventDraft, EventDraftView};
use crate::text::{opt_view, trim, trimmed, views};

verus! {

/// How long the first signs of execution are waited for, in milliseconds.
pub const DISPATCH_START_PROBE_TIMEOUT: u64 = 7000;

/// How long they are waited for after a recovery.
pub const DISPATCH_START_RECOVERY_TIMEOUT: u64 = 7000;

/// How often is looked for them.
pub const DISPATCH_START_POLL_INTERVAL: u64 = 500;

/// How long a leader's reply is waited for.
pub const LEADER_REPLY_TIMEOUT: u64 = 180000;

/// How often is looked for it.
pub const LEADER_REPLY_POLL_INTERVAL: u64 = 500;

/// What is stored as the blocker when the runtime could not be brought up.
pub const RECOVERY_BLOCKER: &'static str = "Primary conversation could not be recovered after accepting the message";

/// What is stored as the blocker when nothing started.
pub const START_BLOCKER: &'static str = "Primary conversation accepted the message but did not start after one recovery attempt";

/// How long to wait before looking again, `None` when the time is over.
pub open spec fn poll_delay(elapsed: u64, timeout: u64, interval: u64) -> Option<u64> {
    if elapsed >= timeout {
        None
    } else if interval <= timeout - elapsed {
        Some(interval)
    } else {
        Some((timeout - elapsed) as u64)
    }
}

/// How long to wait before looking again.
pub fn next_poll(elapsed: u64, timeout: u64, interval: u64) -> (r: Option<u64>)
    ensures
        r == poll_delay(elapsed, timeout, interval),
{
    if elapsed >= timeout {
        None
    } else if interval <= timeout - elapsed {
        Some(interval)
    } else {
        Some(timeout - elapsed)
    }
}

/// The wait never reaches past the end of the time.
pub proof fn law_polling_ends_in_time(elapsed: u64, timeout: u64, interval: u64)
    ensures
        poll_delay(elapsed, timeout, interval) matches Some(d) ==> elapsed + d <= timeout && d <= interval,
        poll_delay(elapsed, timeout, interval) is None <==> elapsed >= timeout,
{
}

// ---------------------------------------------------------------------
// The course of a dispatch
// ---------------------------------------------------------------------

/// How far a dispatch has come.
#[derive(Debug, Clone, Copy, PartialEq, Eq, Structural)]
pub enum DispatchPhase {
    /// The message was accepted; signs of execution are looked for.
    Probing,
    /// None came; the same conversation's runtime is being brought up.
    Recovering,
    /// It was brought up; signs of execution are looked for again.
    ProbingAgain,
    /// It is over.
    Done,
}

/// A dispatch after its message was accepted.
#[derive(Debug, Clone)]
pub struct Dispatch {
    pub task: StewardTaskRow,
    pub conversation_id: String,
    pub msg_id: String,
    pub phase: DispatchPhase,
}

/// The model of [`Dispatch`].
#[verifier::ext_equal]
pub struct DispatchView {
    pub task: StewardTaskRowView,
    pub conversation_id: Seq<char>,
    pub msg_id: Seq<char>,
    pub phase: DispatchPhase,
}

impl View for Dispatch {
    type V = DispatchView;

    open spec fn view(&self) -> DispatchView {
        DispatchView {
            task: self.task@,
            conversation_id: self.conversation_id@,
            msg_id: self.msg_id@,
            phase: self.phase,
        }
    }
}

/// What was seen of a dispatch.
#[derive(Debug, Clone, Copy, PartialEq, Eq, Structural)]
pub enum DispatchObservation {
    /// Whether signs of execution came in time.
    Activity(bool),
    /// Whether the runtime could be brought up.
    Recovery(bool),
}

/// What is to be done next.
#[derive(Debug, Clone, PartialEq)]
pub enum DispatchAction {
    /// Look for signs of execution for so many milliseconds.
    Probe(u64),
    /// Bring up the runtime of the same conversation.
    EnsureRuntime,
    /// The message is being worked on: hand back its receipt.
    Accept,
    /// Hand back the error that the runtime gave.
    ReturnRuntimeError,
    /// Hand back this error.
    Fail(ConversationError),
    /// Nothing: the observation does not belong to this phase.
    Ignore,
}

/// The model of [`DispatchAction`].
#[verifier::ext_equal]
pub enum DispatchActionView {
    Probe(u64),
    EnsureRuntime,
    Accept,
    ReturnRuntimeError,
    Fail(ConversationErrorView),
    Ignore,
}

impl View for DispatchAction {
    type V = DispatchActionView;

    open spec fn view(&self) -> DispatchActionView {
        match *self {
            DispatchAction::Probe(ms) => DispatchActionView::Probe(ms),
            DispatchAction::EnsureRuntime => DispatchActionView::EnsureRuntime,
            DispatchAction::Accept => DispatchActionView::Accept,
            DispatchAction::ReturnRuntimeError => DispatchActionView::ReturnRuntimeError,
            DispatchAction::Fail(e) => DispatchActionView::Fail(e@),
            DispatchAction::Ignore => DispatchActionView::Ignore,
        }
    }
}

/// A step of a dispatch: its new state, whether the task is to be stored, the event to be
/// recorded, and what is to be done next.
#[derive(Debug, Clone)]
pub struct DispatchStep {
    pub dispatch: Dispatch,
    pub store_task: bool,
    pub event: Option<EventDraft>,
    pub action: DispatchAction,
}

/// The model of [`DispatchStep`].
#[verifier::ext_equal]
pub struct DispatchStepView {
    pub dispatch: DispatchView,
    pub store_task: bool,
    pub event: Option<EventDraftView>,
    pub action: DispatchActionView,
}

impl View for DispatchStep {
    type V = DispatchStepView;

    open spec fn view(&self) -> DispatchStepView {
        DispatchStepView {
            dispatch: self.dispatch@,
            store_task: self.store_task,
            event: opt_view(self.event),
            action: self.action@,
        }
    }
}

/// The payload that names the conversation and the message.
pub open spec fn dispatch_payload(d: DispatchView) -> JsonView {
    object_of(
        seq![
            ("conversation_id"@, JsonView::Text(d.conversation_id)),
            ("msg_id"@, JsonView::Text(d.msg_id)),
        ],
    )
}

/// The row of a task whose dispatch failed, with the reason as its only blocker.
pub open spec fn blocked_task(row: StewardTaskRowView, blocker: Seq<char>, now: i64) -> StewardTaskRowView {
    StewardTaskRowView {
        blockers: json_text(text_array(seq![blocker])),
        ..in_state(row, "failed"@, now)
    }
}

/// The error of a dispatch that did not start.
pub open spec fn start_timeout(conversation_id: Seq<char>) -> ConversationErrorView {
    ConversationErrorView::Timeout {
        reason: "primary conversation "@ + conversation_id
            + " did not start after one recovery attempt; no replacement session was created"@,
    }
}

/// A step that records an event of the runtime.
pub open spec fn runtime_step(
    d: DispatchView,
    task: StewardTaskRowView,
    phase: DispatchPhase,
    store_task: bool,
    event_type: Seq<char>,
    action: DispatchActionView,
) -> DispatchStepView {
    DispatchStepView {
        dispatch: DispatchView { task, phase, ..d },
        store_task,
        event: Some(draft("runtime"@, event_type, dispatch_payload(d))),
        action,
    }
}

/// The step that an observation leads to.
pub open spec fn step_of(d: DispatchView, seen: DispatchObservation, now: i64) -> DispatchStepView {
    match (d.phase, seen) {
        (DispatchPhase::Probing, DispatchObservation::Activity(true)) => runtime_step(
            d,
            d.task,
            DispatchPhase::Done,
            false,
            "dispatch_started"@,
            DispatchActionView::Accept,
        ),
        (DispatchPhase::Probing, DispatchObservation::Activity(false)) => DispatchStepView {
            dispatch: DispatchView { phase: DispatchPhase::Recovering, ..d },
            store_task: false,
            event: None,
            action: DispatchActionView::EnsureRuntime,
        },
        (DispatchPhase::Recovering, DispatchObservation::Recovery(true)) => runtime_step(
            d,
            d.task,
            DispatchPhase::ProbingAgain,
            false,
            "dispatch_recovery_requested"@,
            DispatchActionView::Probe(DISPATCH_START_RECOVERY_TIMEOUT),
        ),
        (DispatchPhase::Recovering, DispatchObservation::Recovery(false)) => runtime_step(
            d,
            blocked_task(d.task, RECOVERY_BLOCKER@, now),
            DispatchPhase::Done,
            true,
            "dispatch_recovery_failed"@,
            DispatchActionView::ReturnRuntimeError,
        ),
        (DispatchPhase::ProbingAgain, DispatchObservation::Activity(true)) => runtime_step(
            d,
            d.task,
            DispatchPhase::Done,
            false,
            "dispatch_started_after_recovery"@,
            DispatchActionView::Accept,
        ),
        (DispatchPhase::ProbingAgain, DispatchObservation::Activity(false)) => runtime_step(
            d,
            blocked_task(d.task, START_BLOCKER@, now),
            DispatchPhase::Done,
            true,
            "dispatch_start_timeout"@,
            DispatchActionView::Fail(start_timeout(d.conversation_id)),
        ),
        _ => DispatchStepView {
            dispatch: d,
            store_task: false,
            event: None,
            action: DispatchActionView::Ignore,
        },
    }
}

/// The event that records a dispatch.
pub open spec fn dispatch_event(conversation_id: Seq<char>, turn_id: Seq<char>) -> EventDraftView {
    draft(
        "steward"@,
        "task_dispatched"@,
        object_of(
            seq![
                ("conversation_id"@, JsonView::Text(conversation_id)),
                ("turn_id"@, JsonView::Text(turn_id)),
            ],
        ),
    )
}

/// The event that records a dispatch, once it is stored in a form that is read back, is found
/// by the run of the dispatch.
pub proof fn lemma_stored_dispatch_is_found(
    row: StewardTaskEventRowView,
    conversation_id: Seq<char>,
    turn_id: Seq<char>,
)
    requires
        row.event_type == dispatch_event(conversation_id, turn_id).event_type,
        json_parsed(row.payload) == Some(dispatch_event(conversation_id, turn_id).payload),
    ensures
        records_dispatch(row, turn_id),
{
    let pairs = seq![
        ("conversation_id"@, JsonView::Text(conversation_id)),
        ("turn_id"@, JsonView::Text(turn_id)),
    ];
    lemma_lookup_put_all(pairs, "turn_id"@);
    assert(pairs.last() == ("turn_id"@, JsonView::Text(turn_id)));
}

/// The payload of that event is read back as it was.
pub proof fn lemma_dispatch_is_kept(conversation_id: Seq<char>, turn_id: Seq<char>)
    ensures
        is_kept(dispatch_event(conversation_id, turn_id).payload),
{
    let pairs = seq![
        ("conversation_id"@, JsonView::Text(conversation_id)),
        ("turn_id"@, JsonView::Text(turn_id)),
    ];
    reveal_strlit("conversation_id");
    reveal_strlit("$serde_json::private::RawValue");
    assert("conversation_id"@[0] != RESERVED_KEY@[0]);
    lemma_object_is_plain(pairs, 127);
}

/// The state of a dispatch whose message was just accepted.
pub open spec fn started(
    task: StewardTaskRowView,
    conversation_id: Seq<char>,
    receipt: SendMessageResponseView,
    now: i64,
) -> DispatchStepView {
    DispatchStepView {
        dispatch: DispatchView {
            task: in_state(task, "running"@, now),
            conversation_id,
            msg_id: receipt.msg_id,
            phase: DispatchPhase::Probing,
        },
        store_task: true,
        event: Some(dispatch_event(conversation_id, receipt.turn_id)),
        action: DispatchActionView::Probe(DISPATCH_START_PROBE_TIMEOUT),
    }
}

/// Begins a dispatch whose message was accepted.
pub fn start_dispatch(
    task: StewardTaskRow,
    conversation_id: &str,
    receipt: &SendMessageResponse,
    now: i64,
) -> (r: DispatchStep)
    ensures
        r@ == started(task@, conversation_id@, receipt@, now),
{
    let event = make_draft(
        "steward",
        "task_dispatched",
        Json::object2(
            "conversation_id",
            Json::text(conversation_id),
            "turn_id",
            Json::text(receipt.turn_id.as_str()),
        ),
    );
    DispatchStep {
        dispatch: Dispatch {
            task: set_state(task, "running", now),
            conversation_id: conversation_id.to_owned(),
            msg_id: receipt.msg_id.clone(),
            phase: DispatchPhase::Probing,
        },
        store_task: true,
        event: Some(event),
        action: DispatchAction::Probe(DISPATCH_START_PROBE_TIMEOUT),
    }
}

fn make_step(
    d: Dispatch,
    phase: DispatchPhase,
    store_task: bool,
    event_type: &str,
    action: DispatchAction,
) -> (r: DispatchStep)
    ensures
        r@ == runtime_step(d@, d@.task, phase, store_task, event_type@, action@),
{
    let event = make_draft(
        "runtime",
        event_type,
        Json::object2(
            "conversation_id",
            Json::text(d.conversation_id.as_str()),
            "msg_id",
            Json::text(d.msg_id.as_str()),
        ),
    );
    DispatchStep {
        dispatch: Dispatch { task: d.task, conversation_id: d.conversation_id, msg_id: d.msg_id, phase },
        store_task,
        event: Some(event),
        action,
    }
}

fn block_task(row: StewardTaskRow, blocker: &str, now: i64) -> (r: StewardTaskRow)
    ensures
        r@ == blocked_task(row@, blocker@, now),
        blockers_in(r@.blockers) == seq![blocker@],
{
    let mut row = set_state(row, "failed", now);
    row.blockers = write_blocker(blocker);
    row
}

/// What keeps a task from going on whose dispatch failed in this phase.
pub open spec fn blocker_of(phase: DispatchPhase) -> Seq<char> {
    if phase is Recovering {
        RECOVERY_BLOCKER@
    } else {
        START_BLOCKER@
    }
}

/// Goes on with a dispatch after something was seen of it. A task that is stored in doing so
/// is kept from going on by one thing, that of the phase in which the dispatch failed.
pub fn dispatch(d: Dispatch, seen: DispatchObservation, now: i64) -> (r: DispatchStep)
    ensures
        r@ == step_of(d@, seen, now),
        r.store_task ==> blockers_in(r@.dispatch.task.blockers) == seq![blocker_of(d@.phase)],
{
    match (d.phase, seen) {
        (DispatchPhase::Probing, DispatchObservation::Activity(true)) => make_step(
            d,
            DispatchPhase::Done,
            false,
            "dispatch_started",
            DispatchAction::Accept,
        ),
        (DispatchPhase::Probing, DispatchObservation::Activity(false)) => DispatchStep {
            dispatch: Dispatch {
                task: d.task,
                conversation_id: d.conversation_id,
                msg_id: d.msg_id,
                phase: DispatchPhase::Recovering,
            },
            store_task: false,
            event: None,
            action: DispatchAction::EnsureRuntime,
        },
        (DispatchPhase::Recovering, DispatchObservation::Recovery(true)) => make_step(
            d,
            DispatchPhase::ProbingAgain,
            false,
            "dispatch_recovery_requested",
            DispatchAction::Probe(DISPATCH_START_RECOVERY_TIMEOUT),
        ),
        (DispatchPhase::Recovering, DispatchObservation::Recovery(false)) => {
            let blocked = Dispatch {
                task: block_task(d.task, RECOVERY_BLOCKER, now),
                conversation_id: d.conversation_id,
                msg_id: d.msg_id,
                phase: d.phase,
            };
            make_step(
                blocked,
                DispatchPhase::Done,
                true,
                "dispatch_recovery_failed",
                DispatchAction::ReturnRuntimeError,
            )
        },
        (DispatchPhase::ProbingAgain, DispatchObservation::Activity(true)) => make_step(
            d,
            DispatchPhase::Done,
            false,
            "dispatch_started_after_recovery",
            DispatchAction::Accept,
        ),
        (DispatchPhase::ProbingAgain, DispatchObservation::Activity(false)) => {
            let mut reason = "primary conversation ".to_owned();
            reason.append(d.conversation_id.as_str());
            reason.append(" did not start after one recovery attempt; no replacement session was created");
            let blocked = Dispatch {
                task: block_task(d.task, START_BLOCKER, now),
                conversation_id: d.conversation_id,
                msg_id: d.msg_id,
                phase: d.phase,
            };
            make_step(
                blocked,
                DispatchPhase::Done,
                true,
                "dispatch_start_timeout",
                DispatchAction::Fail(ConversationError::Timeout { reason }),
            )
        },
        _ => DispatchStep { dispatch: d, store_task: false, event: None, action: DispatchAction::Ignore },
    }
}

/// The state after a series of observations, each made at its time.
pub open spec fn run(d: DispatchView, seen: Seq<(DispatchObservation, i64)>) -> DispatchView
    decreases seen.len(),
{
    if seen.len() == 0 {
        d
    } else {
        step_of(run(d, seen.drop_last()), seen.last().0, seen.last().1).dispatch
    }
}

/// How often a series of observations leads to the runtime being brought up.
pub open spec fn recoveries(d: DispatchView, seen: Seq<(DispatchObservation, i64)>) -> nat
    decreases seen.len(),
{
    if seen.len() == 0 {
        0
    } else {
        recoveries(d, seen.drop_last()) + if step_of(
            run(d, seen.drop_last()),
            seen.last().0,
            seen.last().1,
        ).action is EnsureRuntime {
            1nat
        } else {
            0nat
        }
    }
}

/// Whatever is seen of a dispatch, the runtime is brought up at most once.
pub proof fn law_at_most_one_recovery(d: DispatchView, seen: Seq<(DispatchObservation, i64)>)
    ensures
        recoveries(d, seen) <= 1,
        run(d, seen).phase is Probing ==> recoveries(d, seen) == 0,
    decreases seen.len(),
{
    if seen.len() > 0 {
        law_at_most_one_recovery(d, seen.drop_last());
    }
}

/// Whether two rows are the same but for the execution state, the blockers and the time of
/// the last change.
pub open spec fn same_task(a: StewardTaskRowView, b: StewardTaskRowView) -> bool {
    b == (StewardTaskRowView {
        execution_state: b.execution_state,
        blockers: b.blockers,
        updated_at: b.updated_at,
        ..a
    })
}

/// A dispatch stays with one conversation and one message, and leaves all of the task but
/// its execution state, its blockers and the time of its last change; in particular its
/// lifecycle.
pub proof fn law_dispatch_keeps_task_and_conversation(d: DispatchView, seen: Seq<(DispatchObservation, i64)>)
    ensures
        run(d, seen).conversation_id == d.conversation_id,
        run(d, seen).msg_id == d.msg_id,
        same_task(d.task, run(d, seen).task),
        run(d, seen).task.lifecycle == d.task.lifecycle,
    decreases seen.len(),
{
    if seen.len() > 0 {
        law_dispatch_keeps_task_and_conversation(d, seen.drop_last());
    }
}

/// A dispatch is over after three observations that belong to it, and fails only with its
/// task marked as failed.
pub proof fn law_dispatch_comes_to_an_end(d: DispatchView, first: i64, second: i64, third: i64, up: bool, active: bool)
    requires
        d.phase is Probing,
    ensures
        ({
            let a = step_of(d, DispatchObservation::Activity(false), first);
            let b = step_of(a.dispatch, DispatchObservation::Recovery(up), second);
            let c = step_of(b.dispatch, DispatchObservation::Activity(active), third);
            &&& step_of(d, DispatchObservation::Activity(true), first).dispatch.phase is Done
            &&& a.action is EnsureRuntime
            &&& !up ==> b.dispatch.phase is Done && b.action is ReturnRuntimeError
                && b.dispatch.task.execution_state == "failed"@
            &&& up ==> c.dispatch.phase is Done
            &&& up && active ==> c.action is Accept && c.dispatch.task == d.task
            &&& up && !active ==> c.action is Fail && c.dispatch.task.execution_state == "failed"@
        }),
{
}

// ---------------------------------------------------------------------
// Signs of execution
// ---------------------------------------------------------------------

/// Whether a message shows that the conversation was at work since the dispatch.
pub open spec fn shows_work(m: MessageResponseView, dispatched_at: i64) -> bool {
    m.created_at >= dispatched_at && m.position == Some(MessagePosition::Left) && m.backend_turn_id is Some
}

fn on_left(p: Option<MessagePosition>) -> (r: bool)
    ensures
        r == (p == Some(MessagePosition::Left)),
{
    match p {
        Some(x) => x == MessagePosition::Left,
        None => false,
    }
}

fn has_status(s: Option<MessageStatus>, expected: MessageStatus) -> (r: bool)
    ensures
        r == (s == Some(expected)),
{
    match s {
        Some(x) => x == expected,
        None => false,
    }
}

/// Whether one of the messages shows that the conversation was at work since the dispatch.
pub fn messages_show_work(messages: &Vec<MessageResponse>, dispatched_at: i64) -> (r: bool)
    ensures
        r == exists|i: int| 0 <= i < messages@.len() && shows_work((#[trigger] messages@[i])@, dispatched_at),
{
    let mut i: usize = 0;
    while i < messages.len()
        invariant
            i <= messages@.len(),
            forall|k: int| 0 <= k < i ==> !shows_work((#[trigger] messages@[k])@, dispatched_at),
        decreases messages@.len() - i,
    {
        let m = &messages[i];
        if m.created_at >= dispatched_at && on_left(m.position) && m.backend_turn_id.is_some() {
            assert(shows_work(messages@[i as int]@, dispatched_at));
            return true;
        }
        i += 1;
    }
    false
}

// ---------------------------------------------------------------------
// The leader's reply
// ---------------------------------------------------------------------

/// The text of a message, whether it stands alone or under `content`.
pub open spec fn content_text(content: JsonView) -> Option<Seq<char>> {
    match content {
        JsonView::Text(s) => Some(s),
        _ => text_field(content, "content"@),
    }
}

/// The reply that a message is: a finished, visible text of the leader that a turn produced
/// no earlier than the question.
pub open spec fn reply_in(m: MessageResponseView, asked_at: i64) -> Option<(Seq<char>, i64)> {
    if m.created_at < asked_at || m.message_type != MessageType::Text || m.position != Some(MessagePosition::Left)
        || m.status != Some(MessageStatus::Finish) || m.hidden || m.backend_turn_id is None {
        None
    } else {
        match content_text(m.content) {
            Some(s) => if trimmed(s).len() > 0 {
                Some((trimmed(s), m.created_at))
            } else {
                None
            },
            None => None,
        }
    }
}

/// The reply that a message is.
pub fn leader_reply_after(message: &MessageResponse, asked_at: i64) -> (r: Option<(String, i64)>)
    ensures
        match r {
            Some((text, at)) => reply_in(message@, asked_at) == Some((text@, at)),
            None => reply_in(message@, asked_at) is None,
        },
{
    if message.created_at < asked_at || message.message_type != MessageType::Text || !on_left(message.position)
        || !has_status(message.status, MessageStatus::Finish) || message.hidden
        || message.backend_turn_id.is_none() {
        return None;
    }
    let text = match message.content.as_str() {
        Some(s) => Some(s),
        None => message.content.text_at("content"),
    };
    match text {
        Some(s) => {
            let kept = trim(s);
            if kept.is_empty() {
                None
            } else {
                Some((kept.to_owned(), message.created_at))
            }
        },
        None => None,
    }
}

/// The latest reply among the messages; of replies at one time the last one.
pub open spec fn latest_reply(messages: Seq<MessageResponseView>, asked_at: i64) -> Option<(Seq<char>, i64)>
    decreases messages.len(),
{
    if messages.len() == 0 {
        None
    } else {
        match (latest_reply(messages.drop_last(), asked_at), reply_in(messages.last(), asked_at)) {
            (Some(best), Some(new)) => if new.1 >= best.1 {
                Some(new)
            } else {
                Some(best)
            },
            (Some(best), None) => Some(best),
            (None, new) => new,
        }
    }
}

/// Finds the latest reply.
pub fn find_leader_reply(messages: &Vec<MessageResponse>, asked_at: i64) -> (r: Option<(String, i64)>)
    ensures
        match r {
            Some((text, at)) => latest_reply(views(messages@), asked_at) == Some((text@, at)),
            None => latest_reply(views(messages@), asked_at) is None,
        },
{
    let ghost all = views(messages@);
    let mut best: Option<(String, i64)> = None;
    let mut i: usize = 0;
    assert(all.take(0) =~= Seq::empty());
    while i < messages.len()
        invariant
            i <= messages@.len(),
            all == views(messages@),
            match best {
                Some((text, at)) => latest_reply(all.take(i as int), asked_at) == Some((text@, at)),
                None => latest_reply(all.take(i as int), asked_at) is None,
            },
        decreases messages@.len() - i,
    {
        proof {
            assert(all.take(i + 1).drop_last() =~= all.take(i as int));
            assert(all.take(i + 1).last() == messages@[i as int]@);
        }
        if let Some((text, at)) = leader_reply_after(&messages[i], asked_at) {
            let newer = match &best {
                Some((_, earlier)) => at >= *earlier,
                None => true,
            };
            if newer {
                best = Some((text, at));
            }
        }
        i += 1;
    }
    assert(all.take(i as int) =~= all);
    best
}

/// A reply is never older than the question, and never blank.
pub proof fn law_reply_answers_the_question(messages: Seq<MessageResponseView>, asked_at: i64)
    ensures
        latest_reply(messages, asked_at) matches Some((text, at)) ==> at >= asked_at && text.len() > 0,
    decreases messages.len(),
{
    if messages.len() > 0 {
        law_reply_answers_the_question(messages.drop_last(), asked_at);
    }
}

/// The error of a question that was not answered in time.
pub fn reply_timeout(conversation_id: &str) -> (r: ConversationError)
    ensures
        r@ == (ConversationErrorView::Timeout {
            reason: "primary conversation "@ + conversation_id@
                + " accepted the question but did not return a leader reply"@,
        }),
{
    let mut reason = "primary conversation ".to_owned();
    reason.append(conversation_id);
    reason.append(" accepted the question but did not return a leader reply");
    ConversationError::Timeout { reason }
}

/// The event of a leader's reply.
pub open spec fn reply_event(conversation_id: Seq<char>, request_msg_id: Seq<char>, replied_at: i64) -> EventDraftView {
    draft(
        "runtime"@,
        "leader_reply_received"@,
        object_of(
            seq![
                ("conversation_id"@, JsonView::Text(conversation_id)),
                ("request_msg_id"@, JsonView::Text(request_msg_id)),
                ("replied_at"@, JsonView::Number(number_of(replied_at as int))),
            ],
        ),
    )
}

/// The event and the answer of a question that the leader answered.
pub fn ask(conversation_id: &str, request_msg_id: &str, reply: String, replied_at: i64) -> (r: (
    EventDraft,
    StewardTaskInquiryResponse,
))
    ensures
        r.0@ == draft(
            "runtime"@,
            "leader_reply_received"@,
            object_of(
                seq![
                    ("conversation_id"@, JsonView::Text(conversation_id@)),
                    ("request_msg_id"@, JsonView::Text(request_msg_id@)),
                    ("replied_at"@, JsonView::Number(number_of(replied_at as int))),
                ],
            ),
        ),
        r.1@ == (StewardTaskInquiryResponseView {
            conversation_id: conversation_id@,
            request_msg_id: request_msg_id@,
            reply: reply@,
            replied_at,
        }),
        r.0@ == reply_event(conversation_id@, request_msg_id@, replied_at),
{
    (
        make_draft(
            "runtime",
            "leader_reply_received",
            Json::object3(
                "conversation_id",
                Json::text(conversation_id),
                "request_msg_id",
                Json::text(request_msg_id),
                "replied_at",
                Json::from_i64(replied_at),
            ),
        ),
        StewardTaskInquiryResponse {
            conversation_id: conversation_id.to_owned(),
            request_msg_id: request_msg_id.to_owned(),
            reply,
            replied_at,
        },
    )
}

// ---------------------------------------------------------------------
// What a dispatch and a question come to
// ---------------------------------------------------------------------

/// A wait is as long as the interval, and shorter only where the time runs out.
pub proof fn law_a_wait_is_the_interval(elapsed: u64, timeout: u64, interval: u64)
    ensures
        elapsed + interval <= timeout && elapsed < timeout ==> poll_delay(elapsed, timeout, interval) == Some(interval),
        elapsed < timeout && elapsed + interval > timeout ==> poll_delay(elapsed, timeout, interval) == Some(
            (timeout - elapsed) as u64,
        ),
{
}

/// A dispatched task runs, with nothing else changed but the time, and is stored; the event
/// says which turn of which conversation works on it, and whether the work starts is looked
/// for.
pub proof fn law_a_dispatched_task_runs(
    task: StewardTaskRowView,
    conversation_id: Seq<char>,
    receipt: SendMessageResponseView,
    now: i64,
)
    ensures
        ({
            let step = started(task, conversation_id, receipt, now);
            &&& execution_state_of(step.dispatch.task.execution_state) == Ok::<
                StewardExecutionState,
                ConversationErrorView,
            >(StewardExecutionState::Running)
            &&& (StewardTaskRowView {
                execution_state: task.execution_state,
                updated_at: task.updated_at,
                ..step.dispatch.task
            }) == task
            &&& step.dispatch.task.updated_at == now
            &&& step.dispatch.conversation_id == conversation_id
            &&& step.dispatch.msg_id == receipt.msg_id
            &&& step.dispatch.phase is Probing
            &&& step.store_task
            &&& step.action == DispatchActionView::Probe(7000)
            &&& step.event is Some
            &&& step.event.unwrap().event_type == "task_dispatched"@
            &&& text_field(step.event.unwrap().payload, "turn_id"@) == Some(receipt.turn_id)
            &&& text_field(step.event.unwrap().payload, "conversation_id"@) == Some(conversation_id)
        }),
{
    law_execution_state_is_read_back(StewardExecutionState::Running);
    let pairs = seq![
        ("conversation_id"@, JsonView::Text(conversation_id)),
        ("turn_id"@, JsonView::Text(receipt.turn_id)),
    ];
    reveal_strlit("conversation_id");
    reveal_strlit("turn_id");
    assert("conversation_id"@.len() == 15);
    assert("turn_id"@.len() == 7);
    law_object_holds_its_entries(pairs, 0, "conversation_id"@);
    law_object_holds_its_entries(pairs, 1, "turn_id"@);
}

/// Work that is seen is accepted, at once or after the recovery, and changes nothing of the
/// task. Work that is not seen is recovered once; if it still does not start, or the recovery
/// fails, the task has failed, which is stored together with why.
pub proof fn law_each_step_of_a_dispatch(d: DispatchView, now: i64)
    ensures
        d.phase is Probing ==> {
            let seen = step_of(d, DispatchObservation::Activity(true), now);
            let unseen = step_of(d, DispatchObservation::Activity(false), now);
            &&& seen.action is Accept && seen.dispatch.phase is Done && seen.dispatch.task == d.task
                && !seen.store_task && seen.event is Some && seen.event.unwrap().event_type == "dispatch_started"@
            &&& unseen.action is EnsureRuntime && unseen.dispatch.phase is Recovering && unseen.dispatch.task == d.task
                && !unseen.store_task
        },
        d.phase is Recovering ==> {
            let up = step_of(d, DispatchObservation::Recovery(true), now);
            let down = step_of(d, DispatchObservation::Recovery(false), now);
            &&& up.action == DispatchActionView::Probe(7000) && up.dispatch.phase is ProbingAgain && up.dispatch.task == d.task && !up.store_task
            &&& down.action is ReturnRuntimeError && down.dispatch.phase is Done && down.store_task
                && down.dispatch.task.execution_state == "failed"@ && down.dispatch.task.updated_at == now
                && down.dispatch.task.blockers == json_text(text_array(seq![RECOVERY_BLOCKER@]))
        },
        d.phase is ProbingAgain ==> {
            let seen = step_of(d, DispatchObservation::Activity(true), now);
            let unseen = step_of(d, DispatchObservation::Activity(false), now);
            &&& seen.action is Accept && seen.dispatch.phase is Done && seen.dispatch.task == d.task
                && !seen.store_task && seen.event is Some && seen.event.unwrap().event_type
                == "dispatch_started_after_recovery"@
            &&& unseen.action is Fail && unseen.dispatch.phase is Done && unseen.store_task
                && unseen.dispatch.task.execution_state == "failed"@ && unseen.dispatch.task.updated_at == now
                && unseen.dispatch.task.blockers == json_text(text_array(seq![START_BLOCKER@]))
        },
{
}

/// What is seen at the wrong time is ignored, and a dispatch that is done stays as it is.
pub proof fn law_untimely_observations_are_ignored(d: DispatchView, seen: DispatchObservation, now: i64)
    requires
        d.phase is Done || (seen is Recovery && !(d.phase is Recovering)) || (seen is Activity && d.phase is Recovering),
    ensures
        step_of(d, seen, now).action is Ignore,
        step_of(d, seen, now).dispatch == d,
        !step_of(d, seen, now).store_task,
        step_of(d, seen, now).event is None,
{
}

/// Every event of a dispatch names the conversation and the message that it is about.
pub proof fn law_dispatch_events_name_their_message(d: DispatchView, seen: DispatchObservation, now: i64)
    ensures
        step_of(d, seen, now).event matches Some(e) ==> text_field(e.payload, "conversation_id"@) == Some(
            d.conversation_id,
        ) && text_field(e.payload, "msg_id"@) == Some(d.msg_id) && e.source == "runtime"@,
{
    let pairs = seq![
        ("conversation_id"@, JsonView::Text(d.conversation_id)),
        ("msg_id"@, JsonView::Text(d.msg_id)),
    ];
    reveal_strlit("conversation_id");
    reveal_strlit("msg_id");
    assert("conversation_id"@.len() == 15);
    assert("msg_id"@.len() == 6);
    law_object_holds_its_entries(pairs, 0, "conversation_id"@);
    law_object_holds_its_entries(pairs, 1, "msg_id"@);
}

/// A message shows that work began if it is the agent's own, of a turn, and no older than the
/// dispatch.
pub proof fn law_only_the_agents_messages_show_work(m: MessageResponseView, dispatched_at: i64)
    ensures
        m.created_at < dispatched_at ==> !shows_work(m, dispatched_at),
        m.position != Some(MessagePosition::Left) ==> !shows_work(m, dispatched_at),
        m.backend_turn_id is None ==> !shows_work(m, dispatched_at),
        m.created_at >= dispatched_at && m.position == Some(MessagePosition::Left) && m.backend_turn_id is Some
            ==> shows_work(m, dispatched_at),
{
}

/// A message answers a question if it is a finished, visible text of a turn on the left, no
/// older than the question, with more than whitespace in it; the answer is that text,
/// trimmed, whether it stands alone or under `content`.
pub proof fn law_an_answer_is_a_finished_text(m: MessageResponseView, asked_at: i64)
    ensures
        ({
            let fits = m.created_at >= asked_at && m.message_type == MessageType::Text && m.position == Some(
                MessagePosition::Left,
            ) && m.status == Some(MessageStatus::Finish) && !m.hidden && m.backend_turn_id is Some;
            &&& !fits ==> reply_in(m, asked_at) is None
            &&& fits ==> (m.content matches JsonView::Text(s) ==> (trimmed(s).len() > 0 ==> reply_in(m, asked_at)
                == Some((trimmed(s), m.created_at))) && (trimmed(s).len() == 0 ==> reply_in(m, asked_at) is None))
            &&& fits && m.content is Object ==> (text_field(m.content, "content"@) matches Some(s) ==> (trimmed(
                s,
            ).len() > 0 ==> reply_in(m, asked_at) == Some((trimmed(s), m.created_at))) && (trimmed(s).len() == 0
                ==> reply_in(m, asked_at) is None))
            &&& fits && !(m.content is Text) && text_field(m.content, "content"@) is None ==> reply_in(
                m,
                asked_at,
            ) is None
        }),
{
}

/// Of several answers the latest counts, and of those of one time the last.
pub proof fn law_the_latest_answer_counts(messages: Seq<MessageResponseView>, asked_at: i64, k: int)
    requires
        0 <= k < messages.len(),
        reply_in(messages[k], asked_at) is Some,
        forall|j: int|
            0 <= j < k && reply_in(#[trigger] messages[j], asked_at) is Some ==> messages[j].created_at
                <= messages[k].created_at,
        forall|j: int|
            k < j < messages.len() && reply_in(#[trigger] messages[j], asked_at) is Some ==> messages[j].created_at
                < messages[k].created_at,
    ensures
        latest_reply(messages, asked_at) == reply_in(messages[k], asked_at),
    decreases messages.len(),
{
    let init = messages.drop_last();
    assert(forall|j: int| 0 <= j < init.len() ==> #[trigger] init[j] == messages[j]);
    assert(messages[messages.len() - 1] == messages.last());
    if k == messages.len() - 1 {
        lemma_reply_is_one_of(init, asked_at);
        if let Some((_, at)) = latest_reply(init, asked_at) {
            let j = choose|j: int|
                0 <= j < init.len() && reply_in(#[trigger] init[j], asked_at) == latest_reply(init, asked_at);
            assert(messages[j].created_at <= messages[k].created_at);
        }
    } else {
        law_the_latest_answer_counts(init, asked_at, k);
    }
}

proof fn lemma_reply_is_one_of(messages: Seq<MessageResponseView>, asked_at: i64)
    ensures
        latest_reply(messages, asked_at) is Some ==> exists|j: int|
            0 <= j < messages.len() && reply_in(#[trigger] messages[j], asked_at) == latest_reply(messages, asked_at),
    decreases messages.len(),
{
    if messages.len() > 0 {
        let init = messages.drop_last();
        lemma_reply_is_one_of(init, asked_at);
        assert(messages[messages.len() - 1] == messages.last());
        if latest_reply(messages, asked_at) is Some && latest_reply(messages, asked_at) != reply_in(
            messages.last(),
            asked_at,
        ) {
            let j = choose|j: int|
                0 <= j < init.len() && reply_in(#[trigger] init[j], asked_at) == latest_reply(init, asked_at);
            assert(messages[j] == init[j]);
        }
    }
}

/// A question is without an answer only if none of the messages is one.
pub proof fn law_an_answer_is_not_overlooked(messages: Seq<MessageResponseView>, asked_at: i64, k: int)
    requires
        0 <= k < messages.len(),
        reply_in(messages[k], asked_at) is Some,
    ensures
        latest_reply(messages, asked_at) is Some,
    decreases messages.len(),
{
    if k < messages.len() - 1 {
        law_an_answer_is_not_overlooked(messages.drop_last(), asked_at, k);
    }
}

/// A leader's reply is kept as an event of the runtime that says in which conversation, to
/// which message and when the leader replied.
pub proof fn law_a_reply_is_kept(conversation_id: Seq<char>, request_msg_id: Seq<char>, replied_at: i64)
    ensures
        ({
            let e = reply_event(conversation_id, request_msg_id, replied_at);
            &&& e.source == "runtime"@ && e.event_type == "leader_reply_received"@
            &&& text_field(e.payload, "conversation_id"@) == Some(conversation_id)
            &&& text_field(e.payload, "request_msg_id"@) == Some(request_msg_id)
            &&& field(e.payload, "replied_at"@) == Some(JsonView::Number(number_of(replied_at as int)))
        }),
{
    reveal_strlit("conversation_id");
    reveal_strlit("request_msg_id");
    reveal_strlit("replied_at");
    assert("conversation_id"@.len() == 15);
    assert("request_msg_id"@.len() == 14);
    assert("replied_at"@.len() == 10);
    let pairs = seq![
        ("conversation_id"@, JsonView::Text(conversation_id)),
        ("request_msg_id"@, JsonView::Text(request_msg_id)),
        ("replied_at"@, JsonView::Number(number_of(replied_at as int))),
    ];
    law_object_holds_its_entries(pairs, 0, "conversation_id"@);
    law_object_holds_its_entries(pairs, 1, "request_msg_id"@);
    law_object_holds_its_entries(pairs, 2, "replied_at"@);
}

/// A task whose dispatch failed says what failed: the recovery of the runtime, or else the
/// start.
pub proof fn law_what_failed_is_said(phase: DispatchPhase)
    ensures
        phase is Recovering ==> blocker_of(phase) == RECOVERY_BLOCKER@,
        !(phase is Recovering) ==> blocker_of(phase) == START_BLOCKER@,
        RECOVERY_BLOCKER@ != START_BLOCKER@,
{
    reveal_strlit("Primary conversation could not be recovered after accepting the message");
    reveal_strlit("Primary conversation accepted the message but did not start after one recovery attempt");
    assert(RECOVERY_BLOCKER@[21] == 'c');
    assert(START_BLOCKER@[21] == 'a');
}

/// A dispatch that did not start in time is told as such, with the conversation in which
/// nothing started; those of different conversations differ.
pub proof fn law_a_dispatch_that_did_not_start_is_told(conversation_id: Seq<char>, other: Seq<char>)
    ensures
        start_timeout(conversation_id) is Timeout,
        start_timeout(conversation_id)->Timeout_reason == "primary conversation "@ + conversation_id
            + " did not start after one recovery attempt; no replacement session was created"@,
        start_timeout(conversation_id) == start_timeout(other) ==> conversation_id == other,
{
    let head = "primary conversation "@;
    let tail = " did not start after one recovery attempt; no replacement session was created"@;
    let a = head + conversation_id + tail;
    let b = head + other + tail;
    assert(a.subrange(head.len() as int, head.len() as int + conversation_id.len()) =~= conversation_id);
    assert(b.subrange(head.len() as int, head.len() as int + other.len()) =~= other);
    if a == b {
        assert(a.len() == b.len());
        assert(conversation_id.len() == other.len());
    }
}

} // verus!
