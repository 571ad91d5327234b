//! The course of a run's end, from its announcement to the report on it.
use vstd::prelude::*;
use crate::conversation::{ConversationResponse, ConversationResponseView, MessageResponse, MessageResponseView};
use crate::json::{text_field, Json, JsonView};
use crate::reports::{
    came_to_good_end, dispatched_at, find_dispatch, handle_terminal_event, judge_turn, last_result, latest_run_result,
    law_a_new_report_is_due, law_a_report_hands_on_what_is_known, law_announcements_name_user_and_run, leads_team, new_report, queued_event, report_queued_event, run_announced, task_after_run, terminal_run, turn_end,
    wants_result, TerminalEvent, TerminalRun, TerminalRunView,
};
use crate::rows::{
    StewardProfileRow, StewardProfileRowView, StewardReportOutboxRow, StewardReportOutboxRowView, StewardTaskEventRow,
    StewardTaskEventRowView, StewardTaskRow, StewardTaskRowView,
};
use crate::tasks::{EventDraft, EventDraftView};
use crate::text::{as_text, has_text, opt_view, views};

verus! {

/// What is to be done next for the end of a run.
#[derive(Debug, Clone)]
pub enum ReportStep {
    /// Find the task that the run was dispatched for.
    FindTask { run: TerminalRun },
    /// Load the primary conversation of the task.
    LoadLeader { run: TerminalRun, task: StewardTaskRow },
    /// List the latest messages of the primary conversation.
    JudgeTurn { run: TerminalRun, task: StewardTaskRow },
    /// Load the profile of the steward.
    LoadProfile { run: TerminalRun, task: StewardTaskRow },
    /// List the events of the task.
    FindDispatch { run: TerminalRun, task: StewardTaskRow, steward_conversation_id: String },
    /// List the messages of the primary conversation.
    ReadResult { run: TerminalRun, task: StewardTaskRow, steward_conversation_id: String, since: i64 },
    /// Give the report an identifier and the time.
    Compose { run: TerminalRun, task: StewardTaskRow, steward_conversation_id: String, result: Option<String> },
    /// Store the task, and put the report in the outbox.
    Store { run: TerminalRun, task: StewardTaskRow, report: StewardReportOutboxRow },
    /// Record the event, if there is one, deliver what is pending, and give the answer.
    Finish { task_id: String, event: Option<EventDraft>, answer: bool },
    /// Answer that nothing was reported.
    Stop,
}

/// The model of [`ReportStep`].
#[verifier::ext_equal]
pub enum ReportStepView {
    FindTask { run: TerminalRunView },
    LoadLeader { run: TerminalRunView, task: StewardTaskRowView },
    JudgeTurn { run: TerminalRunView, task: StewardTaskRowView },
    LoadProfile { run: TerminalRunView, task: StewardTaskRowView },
    FindDispatch { run: TerminalRunView, task: StewardTaskRowView, steward_conversation_id: Seq<char> },
    ReadResult { run: TerminalRunView, task: StewardTaskRowView, steward_conversation_id: Seq<char>, since: i64 },
    Compose {
        run: TerminalRunView,
        task: StewardTaskRowView,
        steward_conversation_id: Seq<char>,
        result: Option<Seq<char>>,
    },
    Store { run: TerminalRunView, task: StewardTaskRowView, report: StewardReportOutboxRowView },
    Finish { task_id: Seq<char>, event: Option<EventDraftView>, answer: bool },
    Stop,
}

impl View for ReportStep {
    type V = ReportStepView;

    open spec fn view(&self) -> ReportStepView {
        match *self {
            ReportStep::FindTask { run } => ReportStepView::FindTask { run: run@ },
            ReportStep::LoadLeader { run, task } => ReportStepView::LoadLeader { run: run@, task: task@ },
            ReportStep::JudgeTurn { run, task } => ReportStepView::JudgeTurn { run: run@, task: task@ },
            ReportStep::LoadProfile { run, task } => ReportStepView::LoadProfile { run: run@, task: task@ },
            ReportStep::FindDispatch { run, task, steward_conversation_id } => ReportStepView::FindDispatch {
                run: run@,
                task: task@,
                steward_conversation_id: steward_conversation_id@,
            },
            ReportStep::ReadResult { run, task, steward_conversation_id, since } => ReportStepView::ReadResult {
                run: run@,
                task: task@,
                steward_conversation_id: steward_conversation_id@,
                since,
            },
            ReportStep::Compose { run, task, steward_conversation_id, result } => ReportStepView::Compose {
                run: run@,
                task: task@,
                steward_conversation_id: steward_conversation_id@,
                result: opt_view(result),
            },
            ReportStep::Store { run, task, report } => ReportStepView::Store {
                run: run@,
                task: task@,
                report: report@,
            },
            ReportStep::Finish { task_id, event, answer } => ReportStepView::Finish {
                task_id: task_id@,
                event: opt_view(event),
                answer,
            },
            ReportStep::Stop => ReportStepView::Stop,
        }
    }
}

/// What a step brought.
#[derive(Debug, Clone)]
pub enum ReportSeen {
    Task(Option<StewardTaskRow>),
    Leader(ConversationResponse),
    Messages(Vec<MessageResponse>),
    Profile(Option<StewardProfileRow>),
    Events(Vec<StewardTaskEventRow>),
    Moment { report_id: String, now: i64 },
    /// Whether the report was put in the outbox, rather than found there.
    Stored(bool),
}

/// The model of [`ReportSeen`].
#[verifier::ext_equal]
pub enum ReportSeenView {
    Task(Option<StewardTaskRowView>),
    Leader(ConversationResponseView),
    Messages(Seq<MessageResponseView>),
    Profile(Option<StewardProfileRowView>),
    Events(Seq<StewardTaskEventRowView>),
    Moment { report_id: Seq<char>, now: i64 },
    Stored(bool),
}

impl View for ReportSeen {
    type V = ReportSeenView;

    open spec fn view(&self) -> ReportSeenView {
        match *self {
            ReportSeen::Task(task) => ReportSeenView::Task(opt_view(task)),
            ReportSeen::Leader(conversation) => ReportSeenView::Leader(conversation@),
            ReportSeen::Messages(messages) => ReportSeenView::Messages(views(messages@)),
            ReportSeen::Profile(profile) => ReportSeenView::Profile(opt_view(profile)),
            ReportSeen::Events(events) => ReportSeenView::Events(views(events@)),
            ReportSeen::Moment { report_id, now } => ReportSeenView::Moment { report_id: report_id@, now },
            ReportSeen::Stored(queued) => ReportSeenView::Stored(queued),
        }
    }
}

/// What is to be done first for an event: nothing, unless it announces the end of a run.
pub open spec fn first_step(event_name: Seq<char>, data: JsonView) -> ReportStepView {
    match run_announced(event_name, data) {
        Some(run) => ReportStepView::FindTask { run },
        None => ReportStepView::Stop,
    }
}

/// Takes in an event.
pub fn begin_report(event_name: &str, data: &Json) -> (r: ReportStep)
    ensures
        r@ == first_step(event_name@, data@),
{
    match terminal_run(event_name, data) {
        Some(run) => ReportStep::FindTask { run },
        None => ReportStep::Stop,
    }
}

/// What is to be done after a step brought what it was to bring. Nothing is reported where no
/// task was dispatched for the run, where a single turn ended whose conversation leads a team,
/// or where the steward has no conversation; an event is recorded only for a report that was
/// put in the outbox. What does not belong to a step changes nothing.
pub open spec fn report_step_of(step: ReportStepView, seen: ReportSeenView) -> ReportStepView {
    match (step, seen) {
        (ReportStepView::FindTask { run }, ReportSeenView::Task(found)) => match found {
            None => ReportStepView::Stop,
            Some(task) => if run.event is TurnCompleted {
                ReportStepView::LoadLeader { run, task }
            } else {
                ReportStepView::LoadProfile { run, task }
            },
        },
        (ReportStepView::LoadLeader { run, task }, ReportSeenView::Leader(c)) => if text_field(
            c.extra,
            "embedded_team_id"@,
        ) is Some {
            ReportStepView::Stop
        } else {
            ReportStepView::JudgeTurn { run, task }
        },
        (ReportStepView::JudgeTurn { run, task }, ReportSeenView::Messages(messages)) => ReportStepView::LoadProfile {
            run: TerminalRunView { event: turn_end(messages), ..run },
            task,
        },
        (ReportStepView::LoadProfile { run, task }, ReportSeenView::Profile(profile)) => match steward_of(profile) {
            None => ReportStepView::Stop,
            Some(steward_conversation_id) => if came_to_good_end(run.event) {
                ReportStepView::FindDispatch { run, task, steward_conversation_id }
            } else {
                ReportStepView::Compose { run, task, steward_conversation_id, result: None }
            },
        },
        (
            ReportStepView::FindDispatch { run, task, steward_conversation_id },
            ReportSeenView::Events(events),
        ) => match dispatched_at(events, run.run_id) {
            Some(since) => ReportStepView::ReadResult { run, task, steward_conversation_id, since },
            None => ReportStepView::Compose { run, task, steward_conversation_id, result: None },
        },
        (
            ReportStepView::ReadResult { run, task, steward_conversation_id, since },
            ReportSeenView::Messages(messages),
        ) => ReportStepView::Compose {
            run,
            task,
            steward_conversation_id,
            result: last_result(messages, since),
        },
        (
            ReportStepView::Compose { run, task, steward_conversation_id, result },
            ReportSeenView::Moment { report_id, now },
        ) => ReportStepView::Store {
            run,
            task: task_after_run(task, run.event, now),
            report: new_report(report_id, run, task, steward_conversation_id, result, now),
        },
        (ReportStepView::Store { run, task, report }, ReportSeenView::Stored(queued)) => ReportStepView::Finish {
            task_id: task.id,
            event: if queued {
                Some(queued_event(run, report.id))
            } else {
                None
            },
            answer: queued,
        },
        _ => step,
    }
}

/// The conversation of the steward, if it has a profile with one.
pub open spec fn steward_of(profile: Option<StewardProfileRowView>) -> Option<Seq<char>> {
    match profile {
        Some(p) => p.conversation_id,
        None => None,
    }
}

fn steward_in(profile: Option<StewardProfileRow>) -> (r: Option<String>)
    ensures
        opt_view(r) == steward_of(opt_view(profile)),
{
    match profile {
        Some(p) => p.conversation_id,
        None => None,
    }
}

/// Goes on with the end of a run.
pub fn report_step(step: ReportStep, seen: ReportSeen) -> (r: ReportStep)
    ensures
        r@ == report_step_of(step@, seen@),
{
    match (step, seen) {
        (ReportStep::FindTask { run }, ReportSeen::Task(found)) => match found {
            None => ReportStep::Stop,
            Some(task) => if run.event == TerminalEvent::TurnCompleted {
                ReportStep::LoadLeader { run, task }
            } else {
                ReportStep::LoadProfile { run, task }
            },
        },
        (ReportStep::LoadLeader { run, task }, ReportSeen::Leader(conversation)) => if leads_team(&conversation) {
            ReportStep::Stop
        } else {
            ReportStep::JudgeTurn { run, task }
        },
        (ReportStep::JudgeTurn { run, task }, ReportSeen::Messages(messages)) => {
            let event = judge_turn(&messages);
            ReportStep::LoadProfile {
                run: TerminalRun { event, user_id: run.user_id, run_id: run.run_id },
                task,
            }
        },
        (ReportStep::LoadProfile { run, task }, ReportSeen::Profile(profile)) => match steward_in(profile) {
            None => ReportStep::Stop,
            Some(steward_conversation_id) => if wants_result(run.event) {
                ReportStep::FindDispatch { run, task, steward_conversation_id }
            } else {
                ReportStep::Compose { run, task, steward_conversation_id, result: None }
            },
        },
        (
            ReportStep::FindDispatch { run, task, steward_conversation_id },
            ReportSeen::Events(events),
        ) => match find_dispatch(&events, run.run_id.as_str()) {
            Some(since) => ReportStep::ReadResult { run, task, steward_conversation_id, since },
            None => ReportStep::Compose { run, task, steward_conversation_id, result: None },
        },
        (
            ReportStep::ReadResult { run, task, steward_conversation_id, since },
            ReportSeen::Messages(messages),
        ) => {
            let result = latest_run_result(&messages, since);
            ReportStep::Compose { run, task, steward_conversation_id, result }
        },
        (
            ReportStep::Compose { run, task, steward_conversation_id, result },
            ReportSeen::Moment { report_id, now },
        ) => {
            let (task, report) = handle_terminal_event(
                &run,
                task,
                steward_conversation_id.as_str(),
                as_text(&result),
                report_id,
                now,
            );
            ReportStep::Store { run, task, report }
        },
        (ReportStep::Store { run, task, report }, ReportSeen::Stored(queued)) => {
            let event = if queued {
                Some(report_queued_event(&run, report.id.as_str()))
            } else {
                None
            };
            ReportStep::Finish { task_id: task.id, event, answer: queued }
        },
        (step, _) => step,
    }
}

// ---------------------------------------------------------------------
// A whole course
// ---------------------------------------------------------------------

/// What there is to be found in the course of a run's end.
#[verifier::ext_equal]
pub struct RunFactsView {
    pub task: Option<StewardTaskRowView>,
    pub leader: ConversationResponseView,
    pub latest: Seq<MessageResponseView>,
    pub profile: Option<StewardProfileRowView>,
    pub events: Seq<StewardTaskEventRowView>,
    pub messages: Seq<MessageResponseView>,
    pub report_id: Seq<char>,
    pub now: i64,
}

/// Whether the outbox holds a report on a run of a task.
pub open spec fn holds_report(outbox: Seq<StewardReportOutboxRowView>, task_id: Seq<char>, run_id: Seq<char>) -> bool {
    exists|i: int|
        0 <= i < outbox.len() && (#[trigger] outbox[i]).task_id == task_id && outbox[i].run_id == run_id
}

/// Whether no two reports are on one run of one task, which is the key of the outbox.
pub open spec fn is_keyed(outbox: Seq<StewardReportOutboxRowView>) -> bool {
    forall|i: int, j: int|
        0 <= i < j < outbox.len() ==> (#[trigger] outbox[i]).task_id != (#[trigger] outbox[j]).task_id
            || outbox[i].run_id != outbox[j].run_id
}

/// The outbox after a report was to be put in: one that is there already stays as it is.
pub open spec fn with_report(outbox: Seq<StewardReportOutboxRowView>, report: StewardReportOutboxRowView) -> Seq<
    StewardReportOutboxRowView,
> {
    if holds_report(outbox, report.task_id, report.run_id) {
        outbox
    } else {
        outbox.push(report)
    }
}

/// What a step brings, given what there is to be found.
pub open spec fn seen_in(
    step: ReportStepView,
    facts: RunFactsView,
    outbox: Seq<StewardReportOutboxRowView>,
) -> ReportSeenView {
    match step {
        ReportStepView::FindTask { .. } => ReportSeenView::Task(facts.task),
        ReportStepView::LoadLeader { .. } => ReportSeenView::Leader(facts.leader),
        ReportStepView::JudgeTurn { .. } => ReportSeenView::Messages(facts.latest),
        ReportStepView::LoadProfile { .. } => ReportSeenView::Profile(facts.profile),
        ReportStepView::FindDispatch { .. } => ReportSeenView::Events(facts.events),
        ReportStepView::ReadResult { .. } => ReportSeenView::Messages(facts.messages),
        ReportStepView::Compose { .. } => ReportSeenView::Moment { report_id: facts.report_id, now: facts.now },
        ReportStepView::Store { report, .. } => ReportSeenView::Stored(
            !holds_report(outbox, report.task_id, report.run_id),
        ),
        _ => ReportSeenView::Stored(false),
    }
}

/// How many steps are left at most.
pub open spec fn steps_left(step: ReportStepView) -> nat {
    match step {
        ReportStepView::FindTask { .. } => 8,
        ReportStepView::LoadLeader { .. } => 7,
        ReportStepView::JudgeTurn { .. } => 6,
        ReportStepView::LoadProfile { .. } => 5,
        ReportStepView::FindDispatch { .. } => 4,
        ReportStepView::ReadResult { .. } => 3,
        ReportStepView::Compose { .. } => 2,
        ReportStepView::Store { .. } => 1,
        _ => 0,
    }
}

/// What came of a run's end.
#[verifier::ext_equal]
pub struct RunEndView {
    pub stored_task: Option<StewardTaskRowView>,
    pub outbox: Seq<StewardReportOutboxRowView>,
    pub recorded: Seq<EventDraftView>,
    pub answer: bool,
}

/// What comes of a run's end when every step is taken.
pub open spec fn course(
    step: ReportStepView,
    facts: RunFactsView,
    stored_task: Option<StewardTaskRowView>,
    outbox: Seq<StewardReportOutboxRowView>,
) -> RunEndView
    decreases steps_left(step),
{
    match step {
        ReportStepView::Stop => RunEndView { stored_task, outbox, recorded: Seq::empty(), answer: false },
        ReportStepView::Finish { event, answer, .. } => RunEndView {
            stored_task,
            outbox,
            recorded: match event {
                Some(e) => seq![e],
                None => Seq::empty(),
            },
            answer,
        },
        ReportStepView::Store { task, report, .. } => course(
            report_step_of(step, seen_in(step, facts, outbox)),
            facts,
            Some(task),
            with_report(outbox, report),
        ),
        _ => course(report_step_of(step, seen_in(step, facts, outbox)), facts, stored_task, outbox),
    }
}

/// What comes of an event.
pub open spec fn end_of_run(
    event_name: Seq<char>,
    data: JsonView,
    facts: RunFactsView,
    outbox: Seq<StewardReportOutboxRowView>,
) -> RunEndView {
    course(first_step(event_name, data), facts, None, outbox)
}

/// The run as it is reported: a turn may turn out to have failed.
pub open spec fn judged(run: TerminalRunView, facts: RunFactsView) -> TerminalRunView {
    if run.event is TurnCompleted {
        TerminalRunView { event: turn_end(facts.latest), ..run }
    } else {
        run
    }
}

/// The result that is reported of a run.
pub open spec fn result_reported(run: TerminalRunView, facts: RunFactsView) -> Option<Seq<char>> {
    if came_to_good_end(run.event) {
        match dispatched_at(facts.events, run.run_id) {
            Some(since) => last_result(facts.messages, since),
            None => None,
        }
    } else {
        None
    }
}

/// Whether the end of a run is to be reported: a task was dispatched for it, it is not the
/// turn of a team's leader, and the steward has a conversation.
pub open spec fn is_reportable(run: TerminalRunView, facts: RunFactsView) -> bool {
    &&& facts.task is Some
    &&& run.event is TurnCompleted ==> text_field(facts.leader.extra, "embedded_team_id"@) is None
    &&& steward_of(facts.profile) is Some
}

/// The report on a run.
pub open spec fn report_on(run: TerminalRunView, facts: RunFactsView) -> StewardReportOutboxRowView {
    let j = judged(run, facts);
    new_report(
        facts.report_id,
        j,
        facts.task.unwrap(),
        steward_of(facts.profile).unwrap(),
        result_reported(j, facts),
        facts.now,
    )
}

proof fn lemma_from_composing(
    run: TerminalRunView,
    task: StewardTaskRowView,
    steward_conversation_id: Seq<char>,
    result: Option<Seq<char>>,
    facts: RunFactsView,
    outbox: Seq<StewardReportOutboxRowView>,
)
    ensures
        ({
            let report = new_report(facts.report_id, run, task, steward_conversation_id, result, facts.now);
            let queued = !holds_report(outbox, report.task_id, report.run_id);
            course(ReportStepView::Compose { run, task, steward_conversation_id, result }, facts, None, outbox) == (
            RunEndView {
                stored_task: Some(task_after_run(task, run.event, facts.now)),
                outbox: with_report(outbox, report),
                recorded: if queued {
                    seq![queued_event(run, facts.report_id)]
                } else {
                    Seq::empty()
                },
                answer: queued,
            })
        }),
{
    let report = new_report(facts.report_id, run, task, steward_conversation_id, result, facts.now);
    let stored = task_after_run(task, run.event, facts.now);
    let composing = ReportStepView::Compose { run, task, steward_conversation_id, result };
    let storing = ReportStepView::Store { run, task: stored, report };
    let done = report_step_of(storing, seen_in(storing, facts, outbox));
    assert(report_step_of(composing, seen_in(composing, facts, outbox)) == storing);
    assert(course(composing, facts, None, outbox) == course(storing, facts, None, outbox));
    assert(course(storing, facts, None, outbox) == course(done, facts, Some(stored), with_report(outbox, report)));
}

proof fn lemma_from_the_profile(
    run: TerminalRunView,
    task: StewardTaskRowView,
    steward_conversation_id: Seq<char>,
    facts: RunFactsView,
    outbox: Seq<StewardReportOutboxRowView>,
)
    requires
        steward_of(facts.profile) == Some(steward_conversation_id),
    ensures
        course(ReportStepView::LoadProfile { run, task }, facts, None, outbox) == course(
            ReportStepView::Compose { run, task, steward_conversation_id, result: result_reported(run, facts) },
            facts,
            None,
            outbox,
        ),
{
    let loading = ReportStepView::LoadProfile { run, task };
    let next = report_step_of(loading, seen_in(loading, facts, outbox));
    assert(course(loading, facts, None, outbox) == course(next, facts, None, outbox));
    if came_to_good_end(run.event) {
        let then = report_step_of(next, seen_in(next, facts, outbox));
        assert(course(next, facts, None, outbox) == course(then, facts, None, outbox));
        if then is ReadResult {
            let last = report_step_of(then, seen_in(then, facts, outbox));
            assert(course(then, facts, None, outbox) == course(last, facts, None, outbox));
        }
    }
}

/// What comes of an event, at once: nothing, unless it announces the end of a run that is to be
/// reported. Then the task is stored with the state that the end leaves it in, and the report
/// is put in the outbox, recorded and answered for, unless there is one on this run already.
pub proof fn law_end_of_run_is_reported(
    event_name: Seq<char>,
    data: JsonView,
    facts: RunFactsView,
    outbox: Seq<StewardReportOutboxRowView>,
)
    ensures
        end_of_run(event_name, data, facts, outbox) == match run_announced(event_name, data) {
            Some(run) => if is_reportable(run, facts) {
                let report = report_on(run, facts);
                let queued = !holds_report(outbox, report.task_id, report.run_id);
                RunEndView {
                    stored_task: Some(
                        task_after_run(facts.task.unwrap(), judged(run, facts).event, facts.now),
                    ),
                    outbox: with_report(outbox, report),
                    recorded: if queued {
                        seq![queued_event(judged(run, facts), facts.report_id)]
                    } else {
                        Seq::empty()
                    },
                    answer: queued,
                }
            } else {
                RunEndView { stored_task: None, outbox, recorded: Seq::empty(), answer: false }
            },
            None => RunEndView { stored_task: None, outbox, recorded: Seq::empty(), answer: false },
        },
{
    if let Some(run) = run_announced(event_name, data) {
        let first = ReportStepView::FindTask { run };
        let second = report_step_of(first, seen_in(first, facts, outbox));
        assert(course(first, facts, None, outbox) == course(second, facts, None, outbox));
        if let Some(task) = facts.task {
            let reached = ReportStepView::LoadProfile { run: judged(run, facts), task };
            if run.event is TurnCompleted {
                let third = report_step_of(second, seen_in(second, facts, outbox));
                assert(course(second, facts, None, outbox) == course(third, facts, None, outbox));
                if third is JudgeTurn {
                    assert(report_step_of(third, seen_in(third, facts, outbox)) == reached);
                    assert(course(third, facts, None, outbox) == course(reached, facts, None, outbox));
                }
            } else {
                assert(second == reached);
            }
            match steward_of(facts.profile) {
                Some(id) => {
                    lemma_from_the_profile(judged(run, facts), task, id, facts, outbox);
                    lemma_from_composing(
                        judged(run, facts),
                        task,
                        id,
                        result_reported(judged(run, facts), facts),
                        facts,
                        outbox,
                    );
                },
                None => {
                    assert(report_step_of(reached, seen_in(reached, facts, outbox)) is Stop);
                    assert(course(reached, facts, None, outbox) == course(
                        ReportStepView::Stop,
                        facts,
                        None,
                        outbox,
                    ));
                },
            }
        }
    }
}

/// A run is reported once. When an event was answered for with a report, its task and run have
/// exactly one report in the outbox, and one event was recorded. When the same event comes
/// again, whatever there is to be found then, as long as the run belongs to the same task and
/// the report has not been taken out, it leaves the outbox as it is, records nothing and is
/// answered with no.
pub proof fn law_a_run_is_reported_once(
    event_name: Seq<char>,
    data: JsonView,
    first: RunFactsView,
    second: RunFactsView,
    outbox: Seq<StewardReportOutboxRowView>,
    later: Seq<StewardReportOutboxRowView>,
)
    requires
        is_keyed(outbox),
        end_of_run(event_name, data, first, outbox).answer,
        second.task matches Some(task) ==> task.id == first.task.unwrap().id,
        forall|task_id: Seq<char>, run_id: Seq<char>|
            holds_report(end_of_run(event_name, data, first, outbox).outbox, task_id, run_id) ==> #[trigger]
            holds_report(later, task_id, run_id),
    ensures
        run_announced(event_name, data) is Some,
        first.task is Some,
        is_keyed(end_of_run(event_name, data, first, outbox).outbox),
        holds_report(
            end_of_run(event_name, data, first, outbox).outbox,
            first.task.unwrap().id,
            run_announced(event_name, data).unwrap().run_id,
        ),
        end_of_run(event_name, data, first, outbox).recorded.len() == 1,
        !end_of_run(event_name, data, second, later).answer,
        end_of_run(event_name, data, second, later).recorded.len() == 0,
        end_of_run(event_name, data, second, later).outbox == later,
{
    law_end_of_run_is_reported(event_name, data, first, outbox);
    law_end_of_run_is_reported(event_name, data, second, later);
    let run = run_announced(event_name, data).unwrap();
    let report = report_on(run, first);
    let end = end_of_run(event_name, data, first, outbox);
    assert(end.outbox == outbox.push(report));
    assert(end.outbox[outbox.len() as int] == report);
    assert(holds_report(end.outbox, report.task_id, report.run_id));
    assert forall|i: int, j: int| 0 <= i < j < end.outbox.len() implies (#[trigger] end.outbox[i]).task_id != (
    #[trigger] end.outbox[j]).task_id || end.outbox[i].run_id != end.outbox[j].run_id by {
        assert(end.outbox[i] == outbox[i]);
        if j < outbox.len() {
            assert(end.outbox[j] == outbox[j]);
        }
    }
    assert(holds_report(later, report.task_id, report.run_id));
}

/// A report that was not put in the outbox leads to no event, and to the answer no.
pub proof fn law_what_is_not_queued_is_not_recorded(
    run: TerminalRunView,
    task: StewardTaskRowView,
    report: StewardReportOutboxRowView,
)
    ensures
        report_step_of(ReportStepView::Store { run, task, report }, ReportSeenView::Stored(false)) == (
        ReportStepView::Finish { task_id: task.id, event: None, answer: false }),
{
}

/// The end of a team's run is reported once it has a task and the user a steward: the task is
/// stored in the state that the end leads to, and one report on it goes into the outbox, for
/// that steward, with the leader's words where the run came to a good end and there are any.
pub proof fn law_a_teams_end_is_reported(
    event_name: Seq<char>,
    data: JsonView,
    facts: RunFactsView,
    outbox: Seq<StewardReportOutboxRowView>,
    user_id: Seq<char>,
    run_id: Seq<char>,
    task: StewardTaskRowView,
    steward: Seq<char>,
)
    requires
        event_name == "team.runCompleted"@ || event_name == "team.runFailed"@ || event_name == "team.runCancelled"@,
        text_field(data, "user_id"@) == Some(user_id),
        text_field(data, "team_run_id"@) == Some(run_id),
        facts.task == Some(task),
        facts.profile is Some,
        facts.profile.unwrap().conversation_id == Some(steward),
        forall|i: int|
            0 <= i < outbox.len() ==> (#[trigger] outbox[i]).task_id != task.id || outbox[i].run_id != run_id,
    ensures
        ({
            let end = end_of_run(event_name, data, facts, outbox);
            &&& end.answer
            &&& end.recorded.len() == 1 && end.recorded[0].event_type == "completion_report_queued"@
            &&& end.outbox.len() == outbox.len() + 1 && end.outbox.drop_last() == outbox
            &&& end.outbox.last().id == facts.report_id
            &&& end.outbox.last().task_id == task.id
            &&& end.outbox.last().run_id == run_id
            &&& end.outbox.last().user_id == user_id
            &&& end.outbox.last().steward_conversation_id == steward
            &&& end.outbox.last().terminal_event == event_name
            &&& end.outbox.last().next_attempt_at == facts.now
            &&& end.stored_task is Some && end.stored_task.unwrap().id == task.id
            &&& event_name == "team.runFailed"@ ==> end.stored_task.unwrap().execution_state == "failed"@
            &&& event_name == "team.runCancelled"@ ==> end.stored_task.unwrap().execution_state == "interrupted"@
            &&& event_name == "team.runCompleted"@ && task.execution_state == "running"@
                ==> end.stored_task.unwrap().execution_state == "idle"@
            &&& event_name == "team.runCompleted"@ ==> (dispatched_at(facts.events, run_id) matches Some(since) ==> (
            last_result(facts.messages, since) matches Some(s) ==> has_text(
                end.outbox.last().content,
                "Leader 结果："@ + s,
            )))
        }),
{
    law_end_of_run_is_reported(event_name, data, facts, outbox);
    law_announcements_name_user_and_run(event_name, data);
    let run = run_announced(event_name, data).unwrap();
    assert(is_reportable(run, facts));
    let report = report_on(run, facts);
    assert(!holds_report(outbox, report.task_id, report.run_id));
    let j = judged(run, facts);
    assert(j == run);
    law_a_new_report_is_due(facts.report_id, j, task, steward, result_reported(j, facts), facts.now);
    law_a_report_hands_on_what_is_known(task, j.event, result_reported(j, facts));
    assert(outbox.push(report).drop_last() =~= outbox);
    lemma_team_names_differ();
}

/// The end of a single turn is reported in the same way, unless its conversation leads a
/// team; whether it failed is judged by what the turn left.
pub proof fn law_a_turns_end_is_reported(
    data: JsonView,
    facts: RunFactsView,
    outbox: Seq<StewardReportOutboxRowView>,
    user_id: Seq<char>,
    run_id: Seq<char>,
    task: StewardTaskRowView,
    steward: Seq<char>,
)
    requires
        text_field(data, "user_id"@) == Some(user_id),
        text_field(data, "turn_id"@) == Some(run_id),
        facts.task == Some(task),
        text_field(facts.leader.extra, "embedded_team_id"@) is None,
        facts.profile is Some,
        facts.profile.unwrap().conversation_id == Some(steward),
        forall|i: int|
            0 <= i < outbox.len() ==> (#[trigger] outbox[i]).task_id != task.id || outbox[i].run_id != run_id,
    ensures
        ({
            let end = end_of_run("turn.completed"@, data, facts, outbox);
            &&& end.answer
            &&& end.recorded.len() == 1
            &&& end.outbox.len() == outbox.len() + 1 && end.outbox.drop_last() == outbox
            &&& end.outbox.last().task_id == task.id
            &&& end.outbox.last().run_id == run_id
            &&& end.outbox.last().user_id == user_id
            &&& end.outbox.last().steward_conversation_id == steward
            &&& end.stored_task is Some && end.stored_task.unwrap().id == task.id
            &&& turn_end(facts.latest) is TurnFailed ==> end.outbox.last().terminal_event == "turn.failed"@
                && end.stored_task.unwrap().execution_state == "failed"@
            &&& turn_end(facts.latest) is TurnCompleted ==> end.outbox.last().terminal_event == "turn.completed"@ && (
            task.execution_state == "running"@ ==> end.stored_task.unwrap().execution_state == "idle"@)
            &&& turn_end(facts.latest) is TurnCompleted ==> (dispatched_at(facts.events, run_id) matches Some(since)
                ==> (last_result(facts.messages, since) matches Some(s) ==> has_text(
                end.outbox.last().content,
                "Leader 结果："@ + s,
            )))
        }),
{
    let event_name = "turn.completed"@;
    law_end_of_run_is_reported(event_name, data, facts, outbox);
    law_announcements_name_user_and_run(event_name, data);
    let run = run_announced(event_name, data).unwrap();
    assert(is_reportable(run, facts));
    let report = report_on(run, facts);
    assert(!holds_report(outbox, report.task_id, report.run_id));
    let j = judged(run, facts);
    law_a_new_report_is_due(facts.report_id, j, task, steward, result_reported(j, facts), facts.now);
    law_a_report_hands_on_what_is_known(task, j.event, result_reported(j, facts));
    assert(outbox.push(report).drop_last() =~= outbox);
}

/// What has no task, no steward to report to, or is the turn of a team's leader changes
/// nothing and is not reported.
pub proof fn law_other_ends_change_nothing(
    event_name: Seq<char>,
    data: JsonView,
    facts: RunFactsView,
    outbox: Seq<StewardReportOutboxRowView>,
)
    requires
        facts.task is None || facts.profile is None || facts.profile.unwrap().conversation_id is None || (event_name
            == "turn.completed"@ && text_field(facts.leader.extra, "embedded_team_id"@) is Some) || text_field(
            data,
            "user_id"@,
        ) is None || (event_name != "team.runCompleted"@ && event_name != "team.runFailed"@ && event_name
            != "team.runCancelled"@ && event_name != "turn.completed"@),
    ensures
        ({
            let end = end_of_run(event_name, data, facts, outbox);
            &&& !end.answer
            &&& end.outbox == outbox
            &&& end.recorded.len() == 0
            &&& end.stored_task is None
        }),
{
    law_end_of_run_is_reported(event_name, data, facts, outbox);
    law_announcements_name_user_and_run(event_name, data);
}

proof fn lemma_team_names_differ()
    ensures
        "team.runCompleted"@ != "team.runFailed"@,
        "team.runCompleted"@ != "team.runCancelled"@,
        "team.runFailed"@ != "team.runCancelled"@,
{
    reveal_strlit("team.runCompleted");
    reveal_strlit("team.runFailed");
    reveal_strlit("team.runCancelled");
    assert("team.runCompleted"@.len() == 17);
    assert("team.runFailed"@.len() == 14);
    assert("team.runCancelled"@.len() == 17);
    assert("team.runCompleted"@[9] == 'o');
    assert("team.runCancelled"@[9] == 'a');
}

} // verus!
