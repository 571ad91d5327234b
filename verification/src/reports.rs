//! Reports on runs that came to their end, and their delivery.
use vstd::prelude::*;
use crate::api::StewardExecutionState;
use crate::conversation::{
    ConversationErrorView, ConversationResponse, MessagePosition, MessageResponse, MessageResponseView, MessageRow, MessageRowView,
    MessageStatus, MessageType,
};
use crate::json::{
    json_parsed, json_text, law_object_holds_its_entries, number_of, object_of, text_field, Json, JsonView,
};
use crate::names::{execution_state_of, law_execution_state_is_read_back};
use crate::rows::{
    StewardReportOutboxRow, StewardReportOutboxRowView, StewardTaskEventRow, StewardTaskEventRowView, StewardTaskRow,
    StewardTaskRowView,
};
use crate::tasks::{blockers_in, draft, in_state, make_draft, read_blockers, set_state, EventDraft, EventDraftView};
use crate::text::{
    as_text, has_prefix, has_suffix, has_text, join, joined, occurs_at, opt_view, same, same_opt, trim, trimmed, views,
};

verus! {

// ---------------------------------------------------------------------
// The end of a run
// ---------------------------------------------------------------------

/// How a run came to its end.
#[derive(Debug, Clone, Copy, PartialEq, Eq, Structural)]
pub enum TerminalEvent {
    TeamCompleted,
    TeamFailed,
    TeamCancelled,
    TurnCompleted,
    TurnFailed,
}

/// The name of a terminal event.
pub open spec fn terminal_name(e: TerminalEvent) -> Seq<char> {
    match e {
        TerminalEvent::TeamCompleted => "team.runCompleted"@,
        TerminalEvent::TeamFailed => "team.runFailed"@,
        TerminalEvent::TeamCancelled => "team.runCancelled"@,
        TerminalEvent::TurnCompleted => "turn.completed"@,
        TerminalEvent::TurnFailed => "turn.failed"@,
    }
}

impl TerminalEvent {
    /// The name of this event.
    pub fn name(&self) -> (r: &'static str)
        ensures
            r@ == terminal_name(*self),
    {
        match self {
            TerminalEvent::TeamCompleted => "team.runCompleted",
            TerminalEvent::TeamFailed => "team.runFailed",
            TerminalEvent::TeamCancelled => "team.runCancelled",
            TerminalEvent::TurnCompleted => "turn.completed",
            TerminalEvent::TurnFailed => "turn.failed",
        }
    }
}

/// The event that is announced under a name. A failed turn is announced as completed.
pub open spec fn announced(event_name: Seq<char>) -> Option<TerminalEvent> {
    if event_name == "team.runCompleted"@ {
        Some(TerminalEvent::TeamCompleted)
    } else if event_name == "team.runFailed"@ {
        Some(TerminalEvent::TeamFailed)
    } else if event_name == "team.runCancelled"@ {
        Some(TerminalEvent::TeamCancelled)
    } else if event_name == "turn.completed"@ {
        Some(TerminalEvent::TurnCompleted)
    } else {
        None
    }
}

/// A run that came to its end.
#[derive(Debug, Clone)]
pub struct TerminalRun {
    pub event: TerminalEvent,
    pub user_id: String,
    pub run_id: String,
}

/// The model of [`TerminalRun`].
#[verifier::ext_equal]
pub struct TerminalRunView {
    pub event: TerminalEvent,
    pub user_id: Seq<char>,
    pub run_id: Seq<char>,
}

impl View for TerminalRun {
    type V = TerminalRunView;

    open spec fn view(&self) -> TerminalRunView {
        TerminalRunView { event: self.event, user_id: self.user_id@, run_id: self.run_id@ }
    }
}

/// The run whose end an event announces: that of a team by `team_run_id`, that of a single
/// turn by `turn_id`.
pub open spec fn run_announced(event_name: Seq<char>, data: JsonView) -> Option<TerminalRunView> {
    match announced(event_name) {
        None => None,
        Some(event) => {
            let key = if event is TurnCompleted {
                "turn_id"@
            } else {
                "team_run_id"@
            };
            match (text_field(data, "user_id"@), text_field(data, key)) {
                (Some(user_id), Some(run_id)) => Some(TerminalRunView { event, user_id, run_id }),
                _ => None,
            }
        },
    }
}

/// Reads the announcement of a run's end; `None` for what is none.
pub fn terminal_run(event_name: &str, data: &Json) -> (r: Option<TerminalRun>)
    ensures
        opt_view(r) == run_announced(event_name@, data@),
{
    let event = if same(event_name, "team.runCompleted") {
        TerminalEvent::TeamCompleted
    } else if same(event_name, "team.runFailed") {
        TerminalEvent::TeamFailed
    } else if same(event_name, "team.runCancelled") {
        TerminalEvent::TeamCancelled
    } else if same(event_name, "turn.completed") {
        TerminalEvent::TurnCompleted
    } else {
        return None;
    };
    let key = if event == TerminalEvent::TurnCompleted {
        "turn_id"
    } else {
        "team_run_id"
    };
    match (data.text_at("user_id"), data.text_at(key)) {
        (Some(user_id), Some(run_id)) => Some(
            TerminalRun { event, user_id: user_id.to_owned(), run_id: run_id.to_owned() },
        ),
        _ => None,
    }
}

/// Whether a conversation leads a team, whose own terminal event is the one that counts.
pub fn leads_team(conversation: &ConversationResponse) -> (r: bool)
    ensures
        r == (text_field(conversation@.extra, "embedded_team_id"@) is Some),
{
    conversation.extra.text_at("embedded_team_id").is_some()
}

/// The last message on the left.
pub open spec fn last_left(messages: Seq<MessageResponseView>) -> Option<MessageResponseView>
    decreases messages.len(),
{
    if messages.len() == 0 {
        None
    } else if messages.last().position == Some(MessagePosition::Left) {
        Some(messages.last())
    } else {
        last_left(messages.drop_last())
    }
}

/// How a turn ended, by the last message that it left.
pub open spec fn turn_end(messages: Seq<MessageResponseView>) -> TerminalEvent {
    match last_left(messages) {
        Some(m) => if m.status == Some(MessageStatus::Error) {
            TerminalEvent::TurnFailed
        } else {
            TerminalEvent::TurnCompleted
        },
        None => TerminalEvent::TurnCompleted,
    }
}

fn on_left(p: Option<MessagePosition>) -> (r: bool)
    ensures
        r == (p == Some(MessagePosition::Left)),
{
    match p {
        Some(x) => x == MessagePosition::Left,
        None => false,
    }
}

/// Judges by its messages how a turn ended.
pub fn judge_turn(messages: &Vec<MessageResponse>) -> (r: TerminalEvent)
    ensures
        r == turn_end(views(messages@)),
{
    let ghost all = views(messages@);
    let mut i: usize = messages.len();
    assert(all.take(i as int) =~= all);
    while 0 < i
        invariant
            i <= messages@.len(),
            all == views(messages@),
            last_left(all) == last_left(all.take(i as int)),
        decreases i,
    {
        i -= 1;
        assert(all.take(i + 1).drop_last() =~= all.take(i as int));
        assert(all.take(i + 1).last() == messages@[i as int]@);
        if on_left(messages[i].position) {
            return match messages[i].status {
                Some(MessageStatus::Error) => TerminalEvent::TurnFailed,
                _ => TerminalEvent::TurnCompleted,
            };
        }
    }
    TerminalEvent::TurnCompleted
}

// ---------------------------------------------------------------------
// What the run produced
// ---------------------------------------------------------------------

/// Whether an event records the dispatch of the run.
pub open spec fn records_dispatch(e: StewardTaskEventRowView, run_id: Seq<char>) -> bool {
    &&& e.event_type == "task_dispatched"@
    &&& json_parsed(e.payload) matches Some(x) && text_field(x, "turn_id"@) == Some(run_id)
}

/// When the run was dispatched, by the first event that records it.
pub open spec fn dispatched_at(events: Seq<StewardTaskEventRowView>, run_id: Seq<char>) -> Option<i64>
    decreases events.len(),
{
    if events.len() == 0 {
        None
    } else if records_dispatch(events[0], run_id) {
        Some(events[0].created_at)
    } else {
        dispatched_at(events.drop_first(), run_id)
    }
}

/// Finds out when a run was dispatched.
pub fn find_dispatch(events: &Vec<StewardTaskEventRow>, run_id: &str) -> (r: Option<i64>)
    ensures
        r == dispatched_at(views(events@), run_id@),
{
    let ghost all = views(events@);
    let mut i: usize = 0;
    assert(all.skip(0) =~= all);
    while i < events.len()
        invariant
            i <= events@.len(),
            all == views(events@),
            dispatched_at(all, run_id@) == dispatched_at(all.skip(i as int), run_id@),
        decreases events@.len() - i,
    {
        assert(all.skip(i as int).drop_first() =~= all.skip(i + 1));
        assert(all.skip(i as int)[0] == events@[i as int]@);
        let e = &events[i];
        if same(e.event_type.as_str(), "task_dispatched") {
            if let Some(x) = Json::parse(e.payload.as_str()) {
                if same_opt(x.text_at("turn_id"), Some(run_id)) {
                    return Some(e.created_at);
                }
            }
        }
        i += 1;
    }
    None
}

/// A dispatch that is recorded is found by its run, with the time of its first record.
pub proof fn law_recorded_dispatch_is_found(events: Seq<StewardTaskEventRowView>, k: int, run_id: Seq<char>)
    requires
        0 <= k < events.len(),
        records_dispatch(events[k], run_id),
        forall|i: int| 0 <= i < k ==> !records_dispatch(#[trigger] events[i], run_id),
    ensures
        dispatched_at(events, run_id) == Some(events[k].created_at),
    decreases k,
{
    if k > 0 {
        let rest = events.drop_first();
        assert(!records_dispatch(events[0], run_id));
        assert(rest[k - 1] == events[k]);
        assert forall|i: int| 0 <= i < k - 1 implies !records_dispatch(#[trigger] rest[i], run_id) by {
            assert(rest[i] == events[i + 1]);
        }
        law_recorded_dispatch_is_found(rest, k - 1, run_id);
    }
}

/// The result that a message is: a finished, visible text of the leader, no older than the
/// dispatch.
pub open spec fn result_in(m: MessageResponseView, since: i64) -> Option<Seq<char>> {
    if m.created_at < since || m.hidden || m.position != Some(MessagePosition::Left) || m.message_type
        != MessageType::Text || m.status != Some(MessageStatus::Finish) {
        None
    } else {
        match text_field(m.content, "content"@) {
            Some(s) => if trimmed(s).len() > 0 {
                Some(trimmed(s))
            } else {
                None
            },
            None => None,
        }
    }
}

/// The last result among the messages.
pub open spec fn last_result(messages: Seq<MessageResponseView>, since: i64) -> Option<Seq<char>>
    decreases messages.len(),
{
    if messages.len() == 0 {
        None
    } else {
        match result_in(messages.last(), since) {
            Some(s) => Some(s),
            None => last_result(messages.drop_last(), since),
        }
    }
}

fn result_of(m: &MessageResponse, since: i64) -> (r: Option<String>)
    ensures
        opt_view(r) == result_in(m@, since),
{
    let finished = match m.status {
        Some(s) => s == MessageStatus::Finish,
        None => false,
    };
    if m.created_at < since || m.hidden || !on_left(m.position) || m.message_type != MessageType::Text || !finished {
        return None;
    }
    match m.content.text_at("content") {
        Some(s) => {
            let kept = trim(s);
            if kept.is_empty() {
                None
            } else {
                Some(kept.to_owned())
            }
        },
        None => None,
    }
}

/// The leader's last words since the dispatch of the run.
pub fn latest_run_result(messages: &Vec<MessageResponse>, since: i64) -> (r: Option<String>)
    ensures
        opt_view(r) == last_result(views(messages@), since),
{
    let ghost all = views(messages@);
    let mut i: usize = messages.len();
    assert(all.take(i as int) =~= all);
    while 0 < i
        invariant
            i <= messages@.len(),
            all == views(messages@),
            last_result(all, since) == last_result(all.take(i as int), since),
        decreases i,
    {
        i -= 1;
        assert(all.take(i + 1).drop_last() =~= all.take(i as int));
        assert(all.take(i + 1).last() == messages@[i as int]@);
        if let Some(text) = result_of(&messages[i], since) {
            return Some(text);
        }
    }
    None
}

/// A run's result never comes from before its dispatch: messages that are all older give
/// none.
pub proof fn law_old_answers_are_not_reported(messages: Seq<MessageResponseView>, since: i64)
    requires
        forall|i: int| 0 <= i < messages.len() ==> (#[trigger] messages[i]).created_at < since,
    ensures
        last_result(messages, since) is None,
    decreases messages.len(),
{
    if messages.len() > 0 {
        assert(messages[messages.len() - 1].created_at < since);
        let init = messages.drop_last();
        assert forall|i: int| 0 <= i < init.len() implies (#[trigger] init[i]).created_at < since by {
            assert(messages[i].created_at < since);
        }
        law_old_answers_are_not_reported(init, since);
    }
}

// ---------------------------------------------------------------------
// The report
// ---------------------------------------------------------------------

/// The word for how a run ended.
pub open spec fn end_word(e: TerminalEvent) -> Seq<char> {
    match e {
        TerminalEvent::TeamFailed | TerminalEvent::TurnFailed => "失败"@,
        TerminalEvent::TeamCancelled => "已取消"@,
        _ => "已完成"@,
    }
}

/// Whether the run came to a good end, so that it may have a result.
pub open spec fn came_to_good_end(e: TerminalEvent) -> bool {
    e is TeamCompleted || e is TurnCompleted
}

/// Whether a result is to be looked for.
pub fn wants_result(event: TerminalEvent) -> (r: bool)
    ensures
        r == came_to_good_end(event),
{
    match event {
        TerminalEvent::TeamCompleted | TerminalEvent::TurnCompleted => true,
        _ => false,
    }
}

/// The text of a report.
pub open spec fn report_text(task: StewardTaskRowView, e: TerminalEvent, result: Option<Seq<char>>) -> Seq<char> {
    let progress = match result {
        Some(s) => s,
        None => match task.progress_summary {
            Some(s) => s,
            None => "执行会话已结束，请打开原会话查看结果。"@,
        },
    };
    let label = if result is Some {
        "Leader 结果"@
    } else {
        "进展"@
    };
    let blockers = blockers_in(task.blockers);
    "任务「"@ + task.title + "」本轮执行"@ + end_word(e) + "。\n"@ + label + "："@ + progress
        + match task.next_action {
        Some(next) => "\n下一步："@ + next,
        None => Seq::empty(),
    } + if blockers.len() > 0 {
        "\n阻塞："@ + joined(blockers, "；"@)
    } else {
        Seq::empty()
    }
}

fn write_report(task: &StewardTaskRow, event: TerminalEvent, result: Option<&str>) -> (r: String)
    ensures
        r@ == report_text(task@, event, opt_view(result)),
{
    let mut content = "任务「".to_owned();
    content.append(task.title.as_str());
    content.append("」本轮执行");
    content.append(
        match event {
            TerminalEvent::TeamFailed | TerminalEvent::TurnFailed => "失败",
            TerminalEvent::TeamCancelled => "已取消",
            _ => "已完成",
        },
    );
    content.append("。\n");
    content.append(
        if result.is_some() {
            "Leader 结果"
        } else {
            "进展"
        },
    );
    content.append("：");
    content.append(
        match result {
            Some(s) => s,
            None => match as_text(&task.progress_summary) {
                Some(s) => s,
                None => "执行会话已结束，请打开原会话查看结果。",
            },
        },
    );
    let ghost base = content@;
    if let Some(next) = as_text(&task.next_action) {
        content.append("\n下一步：");
        content.append(next);
    }
    let ghost second = content@;
    assert(second =~= base + match task@.next_action {
        Some(next) => "\n下一步："@ + next,
        None => Seq::empty(),
    });
    let blockers = read_blockers(task.blockers.as_str());
    if !blockers.is_empty() {
        content.append("\n阻塞：");
        content.append(join(&blockers, "；").as_str());
    }
    assert(content@ =~= report_text(task@, event, opt_view(result)));
    content
}

/// The execution state of a task after a run ended: failed or interrupted with the run, and
/// idle after a good end if it was running.
pub open spec fn state_after(state: Seq<char>, e: TerminalEvent) -> Seq<char> {
    match e {
        TerminalEvent::TeamFailed | TerminalEvent::TurnFailed => "failed"@,
        TerminalEvent::TeamCancelled => "interrupted"@,
        _ => if state == "running"@ {
            "idle"@
        } else {
            state
        },
    }
}

/// The row of a task after a run ended.
pub open spec fn task_after_run(task: StewardTaskRowView, e: TerminalEvent, now: i64) -> StewardTaskRowView {
    in_state(task, state_after(task.execution_state, e), now)
}

/// The row of a new report.
pub open spec fn new_report(
    id: Seq<char>,
    run: TerminalRunView,
    task: StewardTaskRowView,
    steward_conversation_id: Seq<char>,
    result: Option<Seq<char>>,
    now: i64,
) -> StewardReportOutboxRowView {
    StewardReportOutboxRowView {
        id,
        user_id: run.user_id,
        task_id: task.id,
        steward_conversation_id,
        run_id: run.run_id,
        terminal_event: terminal_name(run.event),
        content: report_text(task, run.event, result),
        inbox_delivered_at: None,
        im_delivered_at: None,
        attempts: 0,
        next_attempt_at: now,
        last_error: None,
        created_at: now,
        updated_at: now,
    }
}

/// What the end of a run changes: the task, and a report to the steward.
pub fn handle_terminal_event(
    run: &TerminalRun,
    task: StewardTaskRow,
    steward_conversation_id: &str,
    result: Option<&str>,
    report_id: String,
    now: i64,
) -> (r: (StewardTaskRow, StewardReportOutboxRow))
    ensures
        r.0@ == task_after_run(task@, run.event, now),
        r.1@ == new_report(report_id@, run@, task@, steward_conversation_id@, opt_view(result), now),
{
    let content = write_report(&task, run.event, result);
    let report = StewardReportOutboxRow {
        id: report_id,
        user_id: run.user_id.clone(),
        task_id: task.id.clone(),
        steward_conversation_id: steward_conversation_id.to_owned(),
        run_id: run.run_id.clone(),
        terminal_event: run.event.name().to_owned(),
        content,
        inbox_delivered_at: None,
        im_delivered_at: None,
        attempts: 0,
        next_attempt_at: now,
        last_error: None,
        created_at: now,
        updated_at: now,
    };
    let after = match run.event {
        TerminalEvent::TeamFailed | TerminalEvent::TurnFailed => set_state(task, "failed", now),
        TerminalEvent::TeamCancelled => set_state(task, "interrupted", now),
        _ => if same(task.execution_state.as_str(), "running") {
            set_state(task, "idle", now)
        } else {
            let mut task = task;
            task.updated_at = now;
            task
        },
    };
    (after, report)
}

/// The end of a run never ends its task: the lifecycle is left alone.
pub proof fn law_run_end_leaves_the_lifecycle(task: StewardTaskRowView, e: TerminalEvent, now: i64)
    ensures
        task_after_run(task, e, now).lifecycle == task.lifecycle,
        task_after_run(task, e, now).execution_state != "running"@ || task.execution_state == "running"@,
        came_to_good_end(e) && task.execution_state != "running"@ ==> task_after_run(task, e, now).execution_state
            == task.execution_state,
{
    reveal_strlit("running");
    reveal_strlit("failed");
    reveal_strlit("interrupted");
    reveal_strlit("idle");
    assert("running"@.len() == 7);
    assert("failed"@.len() == 6);
    assert("interrupted"@.len() == 11);
    assert("idle"@.len() == 4);
}

/// The event of a report that was put in the outbox.
pub open spec fn queued_event(run: TerminalRunView, report_id: Seq<char>) -> EventDraftView {
    draft(
        "runtime"@,
        "completion_report_queued"@,
        object_of(
            seq![
                ("run_id"@, JsonView::Text(run.run_id)),
                ("terminal_event"@, JsonView::Text(terminal_name(run.event))),
                ("report_id"@, JsonView::Text(report_id)),
            ],
        ),
    )
}

/// The event of a report that was put in the outbox.
pub fn report_queued_event(run: &TerminalRun, report_id: &str) -> (r: EventDraft)
    ensures
        r@ == queued_event(run@, report_id@),
{
    make_draft(
        "runtime",
        "completion_report_queued",
        Json::object3(
            "run_id",
            Json::text(run.run_id.as_str()),
            "terminal_event",
            Json::text(run.event.name()),
            "report_id",
            Json::text(report_id),
        ),
    )
}

// ---------------------------------------------------------------------
// Delivery
// ---------------------------------------------------------------------

/// The message that brings a report to the steward's conversation.
pub open spec fn inbox_message(report: StewardReportOutboxRowView) -> MessageRowView {
    let id = "steward-report-"@ + report.id;
    MessageRowView {
        id,
        conversation_id: report.steward_conversation_id,
        msg_id: Some(id),
        message_type: "text"@,
        content: json_text(
            object_of(
                seq![
                    ("content"@, JsonView::Text(report.content)),
                    (
                        "_meta"@,
                        object_of(
                            seq![
                                ("kind"@, JsonView::Text("steward_report"@)),
                                ("steward_report"@, JsonView::Bool(true)),
                                ("task_id"@, JsonView::Text(report.task_id)),
                                ("run_id"@, JsonView::Text(report.run_id)),
                                ("terminal_event"@, JsonView::Text(report.terminal_event)),
                            ],
                        ),
                    ),
                ],
            ),
        ),
        position: Some("left"@),
        status: Some("finish"@),
        hidden: false,
        created_at: report.created_at,
        backend_turn_id: Some("steward-report:"@ + report.run_id),
    }
}

fn make_inbox_message(report: &StewardReportOutboxRow) -> (r: MessageRow)
    ensures
        r@ == inbox_message(report@),
{
    let mut id = "steward-report-".to_owned();
    id.append(report.id.as_str());
    let mut turn = "steward-report:".to_owned();
    turn.append(report.run_id.as_str());
    let mut meta: Vec<(String, Json)> = Vec::new();
    meta.push(("kind".to_owned(), Json::text("steward_report")));
    meta.push(("steward_report".to_owned(), Json::Bool(true)));
    meta.push(("task_id".to_owned(), Json::text(report.task_id.as_str())));
    meta.push(("run_id".to_owned(), Json::text(report.run_id.as_str())));
    meta.push(("terminal_event".to_owned(), Json::text(report.terminal_event.as_str())));
    assert(crate::json::entry_views(meta@) =~= seq![
        ("kind"@, JsonView::Text("steward_report"@)),
        ("steward_report"@, JsonView::Bool(true)),
        ("task_id"@, JsonView::Text(report@.task_id)),
        ("run_id"@, JsonView::Text(report@.run_id)),
        ("terminal_event"@, JsonView::Text(report@.terminal_event)),
    ]);
    let content = Json::object2("content", Json::text(report.content.as_str()), "_meta", Json::object(meta));
    MessageRow {
        id: id.clone(),
        conversation_id: report.steward_conversation_id.clone(),
        msg_id: Some(id),
        message_type: "text".to_owned(),
        content: content.to_text(),
        position: Some("left".to_owned()),
        status: Some("finish".to_owned()),
        hidden: false,
        created_at: report.created_at,
        backend_turn_id: Some(turn),
    }
}

/// How long to wait after so many failed attempts, in milliseconds: ten seconds after the
/// first, twice as long after each further one, five minutes at most.
pub open spec fn backoff(attempts: int) -> int
    decreases attempts,
{
    if attempts <= 0 {
        5000
    } else if attempts >= 6 {
        300000
    } else {
        2 * backoff(attempts - 1)
    }
}

/// The number after `n`, as far as there is one.
pub open spec fn one_more(n: i64) -> i64 {
    if n == i64::MAX {
        n
    } else {
        (n + 1) as i64
    }
}

/// The time `delay` after `now`, as far as there is one.
pub open spec fn later(now: i64, delay: int) -> i64 {
    if now + delay > i64::MAX {
        i64::MAX
    } else {
        (now + delay) as i64
    }
}

/// A failed attempt at delivery.
#[derive(Debug, Clone, PartialEq, Eq)]
pub struct ReportFailure {
    pub attempts: i64,
    pub next_attempt_at: i64,
    pub error: String,
    pub updated_at: i64,
}

/// The model of [`ReportFailure`].
#[verifier::ext_equal]
pub struct ReportFailureView {
    pub attempts: i64,
    pub next_attempt_at: i64,
    pub error: Seq<char>,
    pub updated_at: i64,
}

impl View for ReportFailure {
    type V = ReportFailureView;

    open spec fn view(&self) -> ReportFailureView {
        ReportFailureView {
            attempts: self.attempts,
            next_attempt_at: self.next_attempt_at,
            error: self.error@,
            updated_at: self.updated_at,
        }
    }
}

/// What is recorded of a failed attempt.
pub open spec fn deferred(attempts: i64, error: Seq<char>, now: i64) -> ReportFailureView {
    let n = one_more(attempts);
    ReportFailureView {
        attempts: n,
        next_attempt_at: later(now, backoff(n as int)),
        error,
        updated_at: now,
    }
}

/// Puts off a report whose delivery failed.
pub fn defer_report(attempts: i64, error: &str, now: i64) -> (r: ReportFailure)
    ensures
        r@ == deferred(attempts, error@, now),
{
    let n: i64 = if attempts == i64::MAX {
        attempts
    } else {
        attempts + 1
    };
    proof {
        reveal_with_fuel(backoff, 7);
    }
    let delay: i64 = if n <= 0 {
        5000
    } else if n == 1 {
        10000
    } else if n == 2 {
        20000
    } else if n == 3 {
        40000
    } else if n == 4 {
        80000
    } else if n == 5 {
        160000
    } else {
        300000
    };
    let next: i64 = if now > i64::MAX - delay {
        i64::MAX
    } else {
        now + delay
    };
    ReportFailure { attempts: n, next_attempt_at: next, error: error.to_owned(), updated_at: now }
}

/// The wait lies between five seconds and five minutes, and grows with the attempts.
pub proof fn law_backoff_is_bounded_and_grows(a: int, b: int)
    requires
        a <= b,
    ensures
        5000 <= backoff(a) <= backoff(b) <= 300000,
{
    reveal_with_fuel(backoff, 7);
}

/// What happened to a report on its way.
#[derive(Debug, Clone, PartialEq, Eq)]
pub enum DeliveryEvent {
    /// Nothing yet.
    Begin,
    /// It is in the steward's conversation.
    InboxDelivered,
    /// It could not be put there.
    InboxFailed(String),
    /// There is no way to the user's chats yet.
    ImUnavailable,
    /// It reached so many chats.
    ImDelivered(u64),
    /// It could not be sent to them.
    ImFailed(String),
}

/// The model of [`DeliveryEvent`].
#[verifier::ext_equal]
pub enum DeliveryEventView {
    Begin,
    InboxDelivered,
    InboxFailed(Seq<char>),
    ImUnavailable,
    ImDelivered(u64),
    ImFailed(Seq<char>),
}

impl View for DeliveryEvent {
    type V = DeliveryEventView;

    open spec fn view(&self) -> DeliveryEventView {
        match *self {
            DeliveryEvent::Begin => DeliveryEventView::Begin,
            DeliveryEvent::InboxDelivered => DeliveryEventView::InboxDelivered,
            DeliveryEvent::InboxFailed(e) => DeliveryEventView::InboxFailed(e@),
            DeliveryEvent::ImUnavailable => DeliveryEventView::ImUnavailable,
            DeliveryEvent::ImDelivered(n) => DeliveryEventView::ImDelivered(n),
            DeliveryEvent::ImFailed(e) => DeliveryEventView::ImFailed(e@),
        }
    }
}

/// What is to be done next with a report.
#[derive(Debug, Clone)]
pub enum DeliveryAction {
    /// Put this message in the steward's conversation.
    DeliverInbox(MessageRow),
    /// Send the report to the user's chats.
    DeliverIm,
    /// Record that it was not delivered.
    Defer(ReportFailure),
    /// Record the delivery, with this event, and count the report as completed.
    Complete(EventDraft),
    /// Nothing is left to be done.
    Leave,
}

/// The model of [`DeliveryAction`].
#[verifier::ext_equal]
pub enum DeliveryActionView {
    DeliverInbox(MessageRowView),
    DeliverIm,
    Defer(ReportFailureView),
    Complete(EventDraftView),
    Leave,
}

impl View for DeliveryAction {
    type V = DeliveryActionView;

    open spec fn view(&self) -> DeliveryActionView {
        match *self {
            DeliveryAction::DeliverInbox(m) => DeliveryActionView::DeliverInbox(m@),
            DeliveryAction::DeliverIm => DeliveryActionView::DeliverIm,
            DeliveryAction::Defer(f) => DeliveryActionView::Defer(f@),
            DeliveryAction::Complete(e) => DeliveryActionView::Complete(e@),
            DeliveryAction::Leave => DeliveryActionView::Leave,
        }
    }
}

/// What is left to be done once the report is in the steward's conversation.
pub open spec fn after_inbox(report: StewardReportOutboxRowView) -> DeliveryActionView {
    if report.im_delivered_at is None {
        DeliveryActionView::DeliverIm
    } else {
        DeliveryActionView::Leave
    }
}

/// What is to be done with a report after an event. Each destination has its own mark: what
/// was delivered to one is not delivered there again because the other failed.
pub open spec fn delivery_step(
    report: StewardReportOutboxRowView,
    event: DeliveryEventView,
    now: i64,
) -> DeliveryActionView {
    match event {
        DeliveryEventView::Begin => if report.inbox_delivered_at is None {
            DeliveryActionView::DeliverInbox(inbox_message(report))
        } else {
            after_inbox(report)
        },
        DeliveryEventView::InboxDelivered => after_inbox(report),
        DeliveryEventView::InboxFailed(error) => DeliveryActionView::Defer(deferred(report.attempts, error, now)),
        DeliveryEventView::ImUnavailable => DeliveryActionView::Defer(
            deferred(report.attempts, "IM report delivery port is not ready"@, now),
        ),
        DeliveryEventView::ImDelivered(count) => DeliveryActionView::Complete(
            draft(
                "runtime"@,
                "completion_report_delivered"@,
                object_of(
                    seq![
                        ("run_id"@, JsonView::Text(report.run_id)),
                        ("report_id"@, JsonView::Text(report.id)),
                        ("im_target_count"@, JsonView::Number(number_of(count as int))),
                    ],
                ),
            ),
        ),
        DeliveryEventView::ImFailed(error) => DeliveryActionView::Defer(deferred(report.attempts, error, now)),
    }
}

/// Decides what is to be done with a report.
pub fn deliver_pending_report(report: &StewardReportOutboxRow, event: DeliveryEvent, now: i64) -> (r: DeliveryAction)
    ensures
        r@ == delivery_step(report@, event@, now),
{
    match event {
        DeliveryEvent::Begin => if report.inbox_delivered_at.is_none() {
            DeliveryAction::DeliverInbox(make_inbox_message(report))
        } else if report.im_delivered_at.is_none() {
            DeliveryAction::DeliverIm
        } else {
            DeliveryAction::Leave
        },
        DeliveryEvent::InboxDelivered => if report.im_delivered_at.is_none() {
            DeliveryAction::DeliverIm
        } else {
            DeliveryAction::Leave
        },
        DeliveryEvent::InboxFailed(error) => DeliveryAction::Defer(
            defer_report(report.attempts, error.as_str(), now),
        ),
        DeliveryEvent::ImUnavailable => DeliveryAction::Defer(
            defer_report(report.attempts, "IM report delivery port is not ready", now),
        ),
        DeliveryEvent::ImDelivered(count) => DeliveryAction::Complete(
            make_draft(
                "runtime",
                "completion_report_delivered",
                Json::object3(
                    "run_id",
                    Json::text(report.run_id.as_str()),
                    "report_id",
                    Json::text(report.id.as_str()),
                    "im_target_count",
                    Json::from_u64(count),
                ),
            ),
        ),
        DeliveryEvent::ImFailed(error) => DeliveryAction::Defer(
            defer_report(report.attempts, error.as_str(), now),
        ),
    }
}

/// A report that is in the steward's conversation is not put there again, and one that
/// reached the chats is not sent to them again.
pub proof fn law_destinations_are_marked_separately(
    report: StewardReportOutboxRowView,
    event: DeliveryEventView,
    now: i64,
)
    ensures
        report.inbox_delivered_at is Some ==> !(delivery_step(report, event, now) is DeliverInbox),
        report.im_delivered_at is Some ==> !(delivery_step(report, event, now) is DeliverIm),
        report.inbox_delivered_at is Some && report.im_delivered_at is Some ==> delivery_step(
            report,
            DeliveryEventView::Begin,
            now,
        ) is Leave,
        report.inbox_delivered_at is None ==> delivery_step(
            report,
            DeliveryEventView::Begin,
            now,
        ) is DeliverInbox,
{
}

// ---------------------------------------------------------------------
// What the end of a run comes to
// ---------------------------------------------------------------------

/// A run's result is the last message of the leader since the dispatch that is a visible,
/// finished text with more than whitespace in it. Earlier ones do not count.
pub proof fn law_the_last_result_is_reported(messages: Seq<MessageResponseView>, since: i64, k: int, text: Seq<char>)
    requires
        0 <= k < messages.len(),
        messages[k].created_at >= since,
        !messages[k].hidden,
        messages[k].position == Some(MessagePosition::Left),
        messages[k].message_type == MessageType::Text,
        messages[k].status == Some(MessageStatus::Finish),
        text_field(messages[k].content, "content"@) == Some(text),
        trimmed(text).len() > 0,
        forall|i: int|
            k < i < messages.len() ==> {
                ||| (#[trigger] messages[i]).created_at < since
                ||| messages[i].hidden
                ||| messages[i].position != Some(MessagePosition::Left)
                ||| messages[i].message_type != MessageType::Text
                ||| messages[i].status != Some(MessageStatus::Finish)
                ||| text_field(messages[i].content, "content"@) is None
                ||| trimmed(text_field(messages[i].content, "content"@).unwrap()).len() == 0
            },
    ensures
        last_result(messages, since) == Some(trimmed(text)),
    decreases messages.len(),
{
    if k < messages.len() - 1 {
        let init = messages.drop_last();
        assert(messages[messages.len() - 1] == messages.last());
        assert(forall|i: int| 0 <= i < init.len() ==> #[trigger] init[i] == messages[i]);
        law_the_last_result_is_reported(init, since, k, text);
    }
}

/// A run is without a result only if none of its messages is one.
pub proof fn law_a_result_is_not_overlooked(messages: Seq<MessageResponseView>, since: i64, k: int, text: Seq<char>)
    requires
        0 <= k < messages.len(),
        messages[k].created_at >= since,
        !messages[k].hidden,
        messages[k].position == Some(MessagePosition::Left),
        messages[k].message_type == MessageType::Text,
        messages[k].status == Some(MessageStatus::Finish),
        text_field(messages[k].content, "content"@) == Some(text),
        trimmed(text).len() > 0,
    ensures
        last_result(messages, since) is Some,
    decreases messages.len(),
{
    if k < messages.len() - 1 {
        law_a_result_is_not_overlooked(messages.drop_last(), since, k, text);
    }
}

/// A result is the trimmed text of one of the run's own messages: nothing is reported that
/// the leader did not say, openly and to the end, since the dispatch.
pub proof fn law_a_result_was_said(messages: Seq<MessageResponseView>, since: i64)
    ensures
        last_result(messages, since) matches Some(r) ==> exists|i: int|
            0 <= i < messages.len() && (#[trigger] messages[i]).created_at >= since && !messages[i].hidden
                && messages[i].position == Some(MessagePosition::Left) && messages[i].message_type
                == MessageType::Text && messages[i].status == Some(MessageStatus::Finish) && (text_field(
                messages[i].content,
                "content"@,
            ) matches Some(s) && trimmed(s) == r && r.len() > 0),
    decreases messages.len(),
{
    if messages.len() > 0 {
        let init = messages.drop_last();
        law_a_result_was_said(init, since);
        assert(messages[messages.len() - 1] == messages.last());
        assert(forall|i: int| 0 <= i < init.len() ==> #[trigger] init[i] == messages[i]);
        if last_result(messages, since) is Some && result_in(messages.last(), since) is None {
            let r = last_result(init, since).unwrap();
            let i = choose|i: int|
                0 <= i < init.len() && (#[trigger] init[i]).created_at >= since && !init[i].hidden
                    && init[i].position == Some(MessagePosition::Left) && init[i].message_type == MessageType::Text
                    && init[i].status == Some(MessageStatus::Finish) && (text_field(
                    init[i].content,
                    "content"@,
                ) matches Some(s) && trimmed(s) == r && r.len() > 0);
            assert(messages[i] == init[i]);
        }
    }
}

/// A turn is judged by the last message on the left: it failed if that one is an error, and
/// was completed otherwise.
pub proof fn law_the_last_message_judges_the_turn(messages: Seq<MessageResponseView>, k: int)
    requires
        0 <= k < messages.len(),
        messages[k].position == Some(MessagePosition::Left),
        forall|i: int|
            k < i < messages.len() ==> (#[trigger] messages[i]).position != Some(MessagePosition::Left),
    ensures
        messages[k].status == Some(MessageStatus::Error) ==> turn_end(messages) == TerminalEvent::TurnFailed,
        messages[k].status != Some(MessageStatus::Error) ==> turn_end(messages) == TerminalEvent::TurnCompleted,
    decreases messages.len(),
{
    if k < messages.len() - 1 {
        let init = messages.drop_last();
        assert(messages[messages.len() - 1] == messages.last());
        assert(forall|i: int| 0 <= i < init.len() ==> #[trigger] init[i] == messages[i]);
        law_the_last_message_judges_the_turn(init, k);
    }
}

/// A turn that left nothing was completed.
pub proof fn law_a_silent_turn_is_completed(messages: Seq<MessageResponseView>)
    requires
        forall|i: int|
            0 <= i < messages.len() ==> (#[trigger] messages[i]).position != Some(MessagePosition::Left),
    ensures
        turn_end(messages) == TerminalEvent::TurnCompleted,
    decreases messages.len(),
{
    if messages.len() > 0 {
        let init = messages.drop_last();
        assert(messages[messages.len() - 1] == messages.last());
        assert(forall|i: int| 0 <= i < init.len() ==> #[trigger] init[i] == messages[i]);
        law_a_silent_turn_is_completed(init);
    }
}

/// The time of a dispatch is that of the first event of the type `task_dispatched` whose
/// payload names the run as its turn.
pub proof fn law_dispatch_is_the_first_of_its_turn(
    events: Seq<StewardTaskEventRowView>,
    k: int,
    payload: JsonView,
    run_id: Seq<char>,
)
    requires
        0 <= k < events.len(),
        events[k].event_type == "task_dispatched"@,
        json_parsed(events[k].payload) == Some(payload),
        text_field(payload, "turn_id"@) == Some(run_id),
        forall|i: int|
            0 <= i < k ==> {
                ||| (#[trigger] events[i]).event_type != "task_dispatched"@
                ||| json_parsed(events[i].payload) is None
                ||| text_field(json_parsed(events[i].payload).unwrap(), "turn_id"@) != Some(run_id)
            },
    ensures
        dispatched_at(events, run_id) == Some(events[k].created_at),
{
    law_recorded_dispatch_is_found(events, k, run_id);
}

/// A dispatch that is found was recorded: by an event of the type `task_dispatched` of that
/// time whose payload names the run as its turn.
pub proof fn law_found_dispatch_was_recorded(events: Seq<StewardTaskEventRowView>, run_id: Seq<char>)
    ensures
        dispatched_at(events, run_id) matches Some(at) ==> exists|i: int|
            0 <= i < events.len() && (#[trigger] events[i]).created_at == at && events[i].event_type
                == "task_dispatched"@ && (json_parsed(events[i].payload) matches Some(x) && text_field(
                x,
                "turn_id"@,
            ) == Some(run_id)),
    decreases events.len(),
{
    if events.len() > 0 {
        if records_dispatch(events[0], run_id) {
            assert(events[0].created_at == dispatched_at(events, run_id).unwrap());
        } else {
            let rest = events.drop_first();
            law_found_dispatch_was_recorded(rest, run_id);
            if dispatched_at(rest, run_id) is Some {
                let at = dispatched_at(rest, run_id).unwrap();
                let i = choose|i: int|
                    0 <= i < rest.len() && (#[trigger] rest[i]).created_at == at && rest[i].event_type
                        == "task_dispatched"@ && (json_parsed(rest[i].payload) matches Some(x) && text_field(
                        x,
                        "turn_id"@,
                    ) == Some(run_id));
                assert(events[i + 1] == rest[i]);
            }
        }
    }
}

/// The end of a team's run is announced by `team_run_id`, that of a single turn by
/// `turn_id`, each for the user that is named beside it; nothing else announces one.
pub proof fn law_announcements_name_user_and_run(event_name: Seq<char>, data: JsonView)
    ensures
        run_announced(event_name, data) matches Some(run) ==> {
            &&& text_field(data, "user_id"@) == Some(run.user_id)
            &&& run.event is TeamCompleted || run.event is TeamFailed || run.event is TeamCancelled ==> text_field(
                data,
                "team_run_id"@,
            ) == Some(run.run_id)
            &&& run.event is TurnCompleted ==> text_field(data, "turn_id"@) == Some(run.run_id)
            &&& !(run.event is TurnFailed)
            &&& run.event is TeamCompleted <==> event_name == "team.runCompleted"@
            &&& run.event is TeamFailed <==> event_name == "team.runFailed"@
            &&& run.event is TeamCancelled <==> event_name == "team.runCancelled"@
            &&& run.event is TurnCompleted <==> event_name == "turn.completed"@
        },
        text_field(data, "user_id"@) is Some && text_field(data, "team_run_id"@) is Some && (event_name
            == "team.runCompleted"@ || event_name == "team.runFailed"@ || event_name == "team.runCancelled"@)
            ==> run_announced(event_name, data) is Some,
        text_field(data, "user_id"@) is Some && text_field(data, "turn_id"@) is Some && event_name
            == "turn.completed"@ ==> run_announced(event_name, data) is Some,
{
    reveal_strlit("team.runCompleted");
    reveal_strlit("team.runFailed");
    reveal_strlit("team.runCancelled");
    reveal_strlit("turn.completed");
    assert("team.runCompleted"@.len() == 17);
    assert("team.runFailed"@.len() == 14);
    assert("team.runCancelled"@.len() == 17);
    assert("turn.completed"@.len() == 14);
    assert("team.runCompleted"@[9] == 'o');
    assert("team.runCancelled"@[9] == 'a');
    assert("team.runFailed"@[1] == 'e');
    assert("turn.completed"@[1] == 'u');
}

/// A run that failed makes its task failed, a cancelled one makes it interrupted, and one
/// that came to a good end makes a running task idle and leaves any other as it was. Nothing
/// else of the task changes but the time.
pub proof fn law_the_end_of_a_run_decides_the_state(task: StewardTaskRowView, e: TerminalEvent, now: i64)
    ensures
        e is TeamFailed || e is TurnFailed ==> execution_state_of(task_after_run(task, e, now).execution_state) == Ok::<
            StewardExecutionState,
            ConversationErrorView,
        >(StewardExecutionState::Failed),
        e is TeamCancelled ==> execution_state_of(task_after_run(task, e, now).execution_state) == Ok::<
            StewardExecutionState,
            ConversationErrorView,
        >(StewardExecutionState::Interrupted),
        (e is TeamCompleted || e is TurnCompleted) && task.execution_state == "running"@ ==> execution_state_of(
            task_after_run(task, e, now).execution_state,
        ) == Ok::<StewardExecutionState, ConversationErrorView>(StewardExecutionState::Idle),
        (e is TeamCompleted || e is TurnCompleted) && task.execution_state != "running"@ ==> task_after_run(
            task,
            e,
            now,
        ).execution_state == task.execution_state,
        (StewardTaskRowView {
            execution_state: task.execution_state,
            updated_at: task.updated_at,
            ..task_after_run(task, e, now)
        }) == task,
        task_after_run(task, e, now).updated_at == now,
{
    law_execution_state_is_read_back(StewardExecutionState::Failed);
    law_execution_state_is_read_back(StewardExecutionState::Interrupted);
    law_execution_state_is_read_back(StewardExecutionState::Idle);
}

/// A report names its task and how the run ended, before it says anything else.
pub proof fn law_a_report_says_what_ended_and_how(task: StewardTaskRowView, e: TerminalEvent, result: Option<Seq<char>>)
    ensures
        e is TeamFailed || e is TurnFailed ==> has_prefix(
            report_text(task, e, result),
            "任务「"@ + task.title + "」本轮执行"@ + "失败"@,
        ),
        e is TeamCancelled ==> has_prefix(
            report_text(task, e, result),
            "任务「"@ + task.title + "」本轮执行"@ + "已取消"@,
        ),
        e is TeamCompleted || e is TurnCompleted ==> has_prefix(
            report_text(task, e, result),
            "任务「"@ + task.title + "」本轮执行"@ + "已完成"@,
        ),
{
    let head = "任务「"@ + task.title + "」本轮执行"@ + end_word(e);
    let all = report_text(task, e, result);
    assert(all.take(head.len() as int) =~= head);
}

/// A report hands on what the leader said. Without a result it tells the progress that is
/// recorded, and in any case the next action and the blockers.
pub proof fn law_a_report_hands_on_what_is_known(task: StewardTaskRowView, e: TerminalEvent, result: Option<Seq<char>>)
    ensures
        result matches Some(s) ==> has_text(report_text(task, e, result), "Leader 结果："@ + s),
        result is None ==> (task.progress_summary matches Some(s) ==> has_text(
            report_text(task, e, result),
            "进展："@ + s,
        )),
        task.next_action matches Some(next) ==> has_text(report_text(task, e, result), "\n下一步："@ + next),
        blockers_in(task.blockers).len() > 0 ==> has_suffix(
            report_text(task, e, result),
            "\n阻塞："@ + joined(blockers_in(task.blockers), "；"@),
        ),
{
    let all = report_text(task, e, result);
    let head = "任务「"@ + task.title + "」本轮执行"@ + end_word(e) + "。\n"@;
    reveal_strlit("Leader 结果");
    reveal_strlit("Leader 结果：");
    reveal_strlit("进展");
    reveal_strlit("进展：");
    reveal_strlit("：");
    assert("Leader 结果："@ =~= "Leader 结果"@ + "："@);
    assert("进展："@ =~= "进展"@ + "："@);
    let label = if result is Some {
        "Leader 结果："@
    } else {
        "进展："@
    };
    let progress = match result {
        Some(s) => s,
        None => match task.progress_summary {
            Some(s) => s,
            None => "执行会话已结束，请打开原会话查看结果。"@,
        },
    };
    let at = head.len() as int;
    assert(all.subrange(at, at + (label + progress).len()) =~= label + progress);
    assert(occurs_at(all, label + progress, at));
    if let Some(next) = task.next_action {
        let then = at + (label + progress).len();
        assert(all.subrange(then, then + ("\n下一步："@ + next).len()) =~= "\n下一步："@ + next);
        assert(occurs_at(all, "\n下一步："@ + next, then));
    }
    if blockers_in(task.blockers).len() > 0 {
        let tail = "\n阻塞："@ + joined(blockers_in(task.blockers), "；"@);
        assert(all.skip(all.len() - tail.len()) =~= tail);
    }
}

/// A new report is about its run and its task, goes to the steward that it was made for, and
/// is due at once, at no destination yet and without a failed attempt.
pub proof fn law_a_new_report_is_due(
    id: Seq<char>,
    run: TerminalRunView,
    task: StewardTaskRowView,
    steward_conversation_id: Seq<char>,
    result: Option<Seq<char>>,
    now: i64,
)
    ensures
        ({
            let report = new_report(id, run, task, steward_conversation_id, result, now);
            &&& report.id == id
            &&& report.user_id == run.user_id
            &&& report.run_id == run.run_id
            &&& report.task_id == task.id
            &&& report.steward_conversation_id == steward_conversation_id
            &&& report.inbox_delivered_at is None
            &&& report.im_delivered_at is None
            &&& report.attempts == 0
            &&& report.last_error is None
            &&& report.next_attempt_at == now
            &&& report.created_at == now
            &&& report.updated_at == now
            &&& run.event is TeamCompleted ==> report.terminal_event == "team.runCompleted"@
            &&& run.event is TeamFailed ==> report.terminal_event == "team.runFailed"@
            &&& run.event is TeamCancelled ==> report.terminal_event == "team.runCancelled"@
            &&& run.event is TurnCompleted ==> report.terminal_event == "turn.completed"@
            &&& run.event is TurnFailed ==> report.terminal_event == "turn.failed"@
        }),
{
}

/// A report reaches the steward's conversation as a visible, finished message on the left
/// that holds the report's own words.
pub proof fn law_the_inbox_holds_the_report(report: StewardReportOutboxRowView)
    ensures
        exists|x: JsonView|
            #[trigger] json_text(x) == inbox_message(report).content && text_field(x, "content"@) == Some(
                report.content,
            ),
        inbox_message(report).conversation_id == report.steward_conversation_id,
        inbox_message(report).position == Some("left"@),
        inbox_message(report).status == Some("finish"@),
        !inbox_message(report).hidden,
        inbox_message(report).created_at == report.created_at,
        inbox_message(report).msg_id == Some(inbox_message(report).id),
        has_suffix(inbox_message(report).id, report.id),
{
    let meta = object_of(
        seq![
            ("kind"@, JsonView::Text("steward_report"@)),
            ("steward_report"@, JsonView::Bool(true)),
            ("task_id"@, JsonView::Text(report.task_id)),
            ("run_id"@, JsonView::Text(report.run_id)),
            ("terminal_event"@, JsonView::Text(report.terminal_event)),
        ],
    );
    let pairs = seq![("content"@, JsonView::Text(report.content)), ("_meta"@, meta)];
    let x = object_of(pairs);
    reveal_strlit("content");
    reveal_strlit("_meta");
    assert("content"@.len() == 7);
    assert("_meta"@.len() == 5);
    law_object_holds_its_entries(pairs, 0, "content"@);
    assert(json_text(x) == inbox_message(report).content);
    let id = inbox_message(report).id;
    assert(id.skip(id.len() - report.id.len()) =~= report.id);
}

/// A failed attempt counts as one more, keeps its error, and is followed by a wait that
/// doubles from ten seconds with each attempt up to five minutes.
pub proof fn law_attempts_are_spaced_out(attempts: i64, error: Seq<char>, now: i64)
    requires
        attempts < i64::MAX,
        now + 300000 <= i64::MAX,
    ensures
        deferred(attempts, error, now).attempts == attempts + 1,
        deferred(attempts, error, now).error == error,
        deferred(attempts, error, now).updated_at == now,
        attempts == 0 ==> deferred(attempts, error, now).next_attempt_at == now + 10000,
        0 <= attempts < 4 ==> deferred((attempts + 1) as i64, error, now).next_attempt_at - now == 2 * (deferred(
            attempts,
            error,
            now,
        ).next_attempt_at - now),
        attempts >= 5 ==> deferred(attempts, error, now).next_attempt_at == now + 300000,
{
    reveal_with_fuel(backoff, 8);
}

/// A report goes to the steward's conversation first and to the chats next; what fails is
/// put off with its error, and what reached the chats is completed.
pub proof fn law_delivery_goes_on_until_complete(
    report: StewardReportOutboxRowView,
    error: Seq<char>,
    count: u64,
    now: i64,
)
    ensures
        report.inbox_delivered_at is None ==> delivery_step(report, DeliveryEventView::Begin, now) is DeliverInbox,
        report.inbox_delivered_at is Some && report.im_delivered_at is None ==> delivery_step(
            report,
            DeliveryEventView::Begin,
            now,
        ) is DeliverIm,
        report.im_delivered_at is None ==> delivery_step(report, DeliveryEventView::InboxDelivered, now) is DeliverIm,
        delivery_step(report, DeliveryEventView::InboxFailed(error), now) matches DeliveryActionView::Defer(f)
            && f.error == error,
        delivery_step(report, DeliveryEventView::ImFailed(error), now) matches DeliveryActionView::Defer(f) && f.error
            == error,
        delivery_step(report, DeliveryEventView::ImUnavailable, now) is Defer,
        delivery_step(report, DeliveryEventView::ImDelivered(count), now) matches DeliveryActionView::Complete(d)
            && d.event_type == "completion_report_delivered"@ && text_field(d.payload, "run_id"@) == Some(
            report.run_id,
        ) && text_field(d.payload, "report_id"@) == Some(report.id),
{
    let pairs = seq![
        ("run_id"@, JsonView::Text(report.run_id)),
        ("report_id"@, JsonView::Text(report.id)),
        ("im_target_count"@, JsonView::Number(number_of(count as int))),
    ];
    reveal_strlit("run_id");
    reveal_strlit("report_id");
    reveal_strlit("im_target_count");
    assert("run_id"@.len() == 6);
    assert("report_id"@.len() == 9);
    assert("im_target_count"@.len() == 15);
    law_object_holds_its_entries(pairs, 0, "run_id"@);
    law_object_holds_its_entries(pairs, 1, "report_id"@);
}

} // verus!
