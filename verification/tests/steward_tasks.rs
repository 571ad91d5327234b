use aionui_steward::api::{
    BindStewardTaskSessionRequest, BootstrapStewardRequest, CreateStewardTaskRequest, ResolveStewardTaskRequest,
    StewardExecutionState, StewardSessionRole, StewardTaskLifecycle, UpdateStewardTaskRequest,
};
use aionui_steward::candidates::{candidate_score, is_task_candidate, lowered_score, resolve, BoundTask};
use aionui_steward::conversation::{
    map_team_error, ConversationError, ConversationResponse, ConversationRuntimeStateKind,
    ConversationRuntimeSummary, ConversationStatus, MessagePosition, MessageResponse, MessageStatus, MessageType,
    SendMessageResponse,
};
use aionui_steward::dispatch::{
    ask, dispatch, find_leader_reply, messages_show_work, next_poll, reply_timeout, start_dispatch, DispatchAction,
    DispatchObservation,
};
use aionui_steward::endings::{begin_report, report_step, ReportSeen, ReportStep};
use aionui_steward::fields::{json_object_or_empty, nonempty_option, require_json_object, required_text};
use aionui_steward::json::Json;
use aionui_steward::names::{parse_execution_state, parse_lifecycle, parse_session_role};
use aionui_steward::order::order_desc;
use aionui_steward::overview::{overview, profile_response, task_response, BoundConversation};
use aionui_steward::profile::{
    bootstrap, ensure_steward_control_snapshot, is_profile_conversation, needs_steward_name, new_profile,
    profile_assistant, reusable_conversation, steward_mcp_server, switch_assistant, switched_profile, SwitchPlan,
    STEWARD_PROMPT,
};
use aionui_steward::queries::{
    event_limit, missing_task, report_limit, task_limit, task_pattern, was_queued, wildcard_pattern,
};
use aionui_steward::reconcile::{needs_last_message, reconcile_runtime_state, RuntimeFacts};
use aionui_steward::reports::{
    defer_report, deliver_pending_report, find_dispatch, handle_terminal_event, judge_turn, latest_run_result,
    leads_team, report_queued_event, terminal_run, wants_result, DeliveryAction, DeliveryEvent, TerminalEvent,
};
use aionui_steward::rows::{
    StewardProfileRow, StewardReportOutboxRow, StewardTaskEventRow, StewardTaskFilters, StewardTaskRow,
    StewardTaskSessionRow,
};
use aionui_steward::sessions::{bind_session, primary_binding, primary_conversation};
use aionui_steward::tasks::{
    append_event, bind_existing_session, check_create_request, check_primary_replacement, create_task, make_draft,
    plan_session, read_blockers, resumed_event, session_bound_event, set_task_archived, task_after_binding,
    task_created_event, task_not_found, task_updated_event, update_task, write_blockers,
};
use aionui_steward::text::same_ignoring_ascii_case;

fn json(text: &str) -> Json {
    Json::parse(text).expect("valid JSON")
}

fn create_request(title: &str, objective: &str) -> CreateStewardTaskRequest {
    CreateStewardTaskRequest {
        title: title.to_owned(),
        objective: objective.to_owned(),
        priority: 3,
        project_id: None,
        folder_id: None,
        workspace: None,
        permission_policy: Json::Null,
        budget_policy: Json::Null,
        conversation_id: None,
    }
}

fn task(id: &str, title: &str) -> StewardTaskRow {
    let checked = check_create_request(create_request(title, "Make it work")).unwrap();
    create_task(id.to_owned(), "user-1", &checked, 100)
}

fn no_update() -> UpdateStewardTaskRequest {
    UpdateStewardTaskRequest {
        title: None,
        objective: None,
        lifecycle: None,
        execution_state: None,
        priority: None,
        progress_summary: None,
        next_action: None,
        blockers: None,
        project_id: None,
        folder_id: None,
        workspace: None,
        permission_policy: None,
        budget_policy: None,
    }
}

fn conversation(id: &str, name: &str, extra: &str) -> ConversationResponse {
    ConversationResponse {
        id: id.to_owned(),
        name: name.to_owned(),
        name_source: None,
        status: ConversationStatus::Finished,
        runtime: None,
        extra: json(extra),
        project_id: None,
        assistant: None,
        modified_at: 7,
    }
}

fn runtime(is_processing: bool) -> ConversationRuntimeSummary {
    ConversationRuntimeSummary {
        state: ConversationRuntimeStateKind::Idle,
        can_send_message: true,
        has_task: false,
        task_status: None,
        is_processing,
        pending_confirmations: 0,
        turn_id: None,
        supports_midturn_delivery: false,
    }
}

fn message(text: &str, created_at: i64, status: MessageStatus) -> MessageResponse {
    MessageResponse {
        id: format!("m{created_at}"),
        conversation_id: "c1".to_owned(),
        msg_id: None,
        message_type: MessageType::Text,
        content: Json::object1("content", Json::text(text)),
        position: Some(MessagePosition::Left),
        status: Some(status),
        hidden: false,
        created_at,
        backend_turn_id: Some("turn-1".to_owned()),
    }
}

fn binding(id: &str, conversation_id: &str, role: &str) -> StewardTaskSessionRow {
    StewardTaskSessionRow {
        id: id.to_owned(),
        task_id: "t1".to_owned(),
        conversation_id: conversation_id.to_owned(),
        role: role.to_owned(),
        created_at: 1,
        detached_at: None,
    }
}

fn bind_request(role: StewardSessionRole) -> BindStewardTaskSessionRequest {
    BindStewardTaskSessionRequest {
        conversation_id: None,
        assistant_id: None,
        conversation_name: None,
        workspace: None,
        role,
        replace_primary: false,
    }
}

#[test]
fn new_tasks_are_open_and_checked() {
    let checked = check_create_request(create_request("  Fix login ", " Make it work\n")).unwrap();
    let row = create_task("t1".to_owned(), "user-1", &checked, 100);
    assert_eq!(row.title, "Fix login");
    assert_eq!(row.objective, "Make it work");
    assert_eq!(row.lifecycle, "open");
    assert_eq!(row.execution_state, "unassigned");
    assert_eq!(row.blockers, "[]");
    assert_eq!(row.permission_policy, "{}");
    let mut bound = create_request("Fix login", "Make it work");
    bound.conversation_id = Some("c1".to_owned());
    bound.budget_policy = json(r#"{"max": 5}"#);
    let row = create_task("t2".to_owned(), "user-1", &check_create_request(bound).unwrap(), 100);
    assert_eq!(row.execution_state, "idle");
    assert_eq!(row.budget_policy, r#"{"max":5}"#);
    assert_eq!(
        check_create_request(create_request("  ", "x")).err(),
        Some(ConversationError::BadRequest { reason: "title must not be empty".to_owned() })
    );
    let mut odd = create_request("a", "b");
    odd.permission_policy = Json::Bool(true);
    assert_eq!(
        check_create_request(odd).err(),
        Some(ConversationError::BadRequest { reason: "permission_policy must be a JSON object".to_owned() })
    );
}

#[test]
fn updates_touch_only_what_they_name() {
    let mut request = no_update();
    request.progress_summary = Some("  half way ".to_owned());
    request.next_action = Some("  ".to_owned());
    request.blockers = Some(vec!["review".to_owned(), "引号\"".to_owned()]);
    request.lifecycle = Some(StewardTaskLifecycle::Completed);
    let row = update_task(task("t1", "Fix login"), request, 200).unwrap();
    assert_eq!(row.title, "Fix login");
    assert_eq!(row.lifecycle, "completed");
    assert_eq!(row.execution_state, "unassigned");
    assert_eq!(row.progress_summary.as_deref(), Some("half way"));
    assert_eq!(row.next_action, None);
    assert_eq!(row.updated_at, 200);
    assert_eq!(read_blockers(&row.blockers), vec!["review".to_owned(), "引号\"".to_owned()]);
    let event = task_updated_event(&row);
    assert_eq!(event.payload.text_at("lifecycle"), Some("completed"));
    let mut bad = no_update();
    bad.title = Some(" ".to_owned());
    assert!(update_task(task("t1", "Fix login"), bad, 200).is_err());
    let mut bad = no_update();
    bad.budget_policy = Some(json("[]"));
    assert_eq!(
        update_task(task("t1", "Fix login"), bad, 200).err(),
        Some(ConversationError::BadRequest { reason: "budget_policy must be a JSON object".to_owned() })
    );
    assert!(read_blockers("nonsense").is_empty());
    assert_eq!(write_blockers(&vec!["a".to_owned()]), r#"["a"]"#);
}

#[test]
fn names_are_read_back() {
    for value in [
        StewardTaskLifecycle::Open,
        StewardTaskLifecycle::Completed,
        StewardTaskLifecycle::Cancelled,
        StewardTaskLifecycle::Archived,
    ] {
        assert_eq!(parse_lifecycle(value.as_str()), Ok(value));
    }
    for value in [
        StewardExecutionState::Unassigned,
        StewardExecutionState::Running,
        StewardExecutionState::WaitingUser,
        StewardExecutionState::WaitingExternal,
        StewardExecutionState::Paused,
        StewardExecutionState::Interrupted,
        StewardExecutionState::Failed,
        StewardExecutionState::Idle,
    ] {
        assert_eq!(parse_execution_state(value.as_str()), Ok(value));
    }
    for value in [
        StewardSessionRole::Primary,
        StewardSessionRole::Worker,
        StewardSessionRole::Replacement,
        StewardSessionRole::Observer,
    ] {
        assert_eq!(parse_session_role(value.as_str()), Ok(value));
    }
    assert_eq!(
        parse_lifecycle("closed").err(),
        Some(ConversationError::Internal { reason: "invalid steward lifecycle: closed".to_owned() })
    );
}

#[test]
fn primary_replacement_requires_explicit_override() {
    let bindings = vec![binding("b1", "c0", "worker"), binding("b2", "c1", "primary")];
    let mut request = bind_request(StewardSessionRole::Primary);
    request.conversation_id = Some("c2".to_owned());
    assert_eq!(
        check_primary_replacement(&request, &bindings).err(),
        Some(ConversationError::Busy {
            reason: "task already has primary conversation c1; explicit replace_primary=true is required".to_owned()
        })
    );
    request.replace_primary = true;
    assert!(check_primary_replacement(&request, &bindings).is_ok());
    request.replace_primary = false;
    request.conversation_id = Some("c1".to_owned());
    assert!(check_primary_replacement(&request, &bindings).is_ok());
    let worker = bind_request(StewardSessionRole::Worker);
    assert!(check_primary_replacement(&worker, &bindings).is_ok());
    assert_eq!(primary_binding(&bindings).unwrap().id, "b2");
    assert_eq!(primary_conversation(&bindings), Ok("c1".to_owned()));
    assert_eq!(
        primary_conversation(&vec![]).err(),
        Some(ConversationError::BadRequest { reason: "task has no primary session".to_owned() })
    );
}

#[test]
fn a_task_has_one_primary_that_counts() {
    let at = |mut row: StewardTaskSessionRow, now: i64| {
        row.created_at = now;
        row
    };
    let rows = bind_session(vec![], at(binding("b1", "c1", "primary"), 1));
    let rows = bind_session(rows, at(binding("b2", "c2", "worker"), 2));
    let rows = bind_session(rows, at(binding("b3", "c3", "primary"), 3));
    let counts: Vec<_> = rows.iter().map(|row| (row.conversation_id.as_str(), row.detached_at)).collect();
    assert_eq!(counts, vec![("c1", Some(3)), ("c2", None), ("c3", None)]);
    let rows = bind_session(rows, at(binding("b4", "c1", "primary"), 4));
    let active: Vec<_> = rows.iter().filter(|row| row.detached_at.is_none()).cloned().collect();
    assert_eq!(active.len(), 2);
    assert_eq!(primary_conversation(&active).unwrap(), "c1");
    assert_eq!((rows[0].id.as_str(), rows[0].created_at, rows[2].detached_at), ("b1", 1, Some(4)));
    let mut other = at(binding("b5", "c5", "primary"), 5);
    other.task_id = "another".to_owned();
    let rows = bind_session(rows, other);
    assert_eq!((rows[0].detached_at, rows.len()), (None, 4));
}

#[test]
fn worker_bindings_do_not_fake_a_primary_runtime() {
    let row = task("t1", "Fix login");
    assert!(task_after_binding(&row, StewardSessionRole::Worker, 5).is_none());
    assert_eq!(task_after_binding(&row, StewardSessionRole::Primary, 5).unwrap().execution_state, "idle");
    let bound = bind_existing_session("b9".to_owned(), "t1", "c1", StewardSessionRole::Worker, 5);
    assert_eq!(bound.role, "worker");
}

#[test]
fn new_sessions_are_planned_from_the_task() {
    let mut row = task("t1", "Fix login");
    row.workspace = Some("/repo".to_owned());
    let mut request = bind_request(StewardSessionRole::Primary);
    assert_eq!(
        plan_session(&request, &row).err(),
        Some(ConversationError::BadRequest {
            reason: "assistant_id is required when creating a session".to_owned()
        })
    );
    request.assistant_id = Some("coder".to_owned());
    let plan = plan_session(&request, &row).unwrap();
    assert_eq!(plan.name, "Fix login");
    assert_eq!(plan.locale, "zh-CN");
    assert_eq!(plan.extra.text_at("workspace"), Some("/repo"));
    assert_eq!(plan.extra.text_at("steward_task_id"), Some("t1"));
    request.workspace = Some("  ".to_owned());
    request.conversation_name = Some("Leader".to_owned());
    let plan = plan_session(&request, &row).unwrap();
    assert_eq!(plan.extra.text_at("workspace"), None);
    assert_eq!(plan.name, "Leader");
}

#[test]
fn archiving_pauses_and_restoring_reopens() {
    let mut row = task("t1", "Fix login");
    row.execution_state = "idle".to_owned();
    let archived = set_task_archived(row, true, 9);
    assert_eq!((archived.lifecycle.as_str(), archived.execution_state.as_str()), ("archived", "paused"));
    let restored = set_task_archived(archived, false, 10);
    assert_eq!((restored.lifecycle.as_str(), restored.execution_state.as_str()), ("open", "paused"));
    assert_eq!(
        task_not_found("t9"),
        ConversationError::NotFound { reason: "Steward task 't9' not found".to_owned() }
    );
}

#[test]
fn events_are_stored_as_text() {
    let draft = make_draft("runtime", "dispatch_started", json(r#"{"conversation_id": "c1"}"#));
    let row = append_event("e1".to_owned(), "t1", draft, 11);
    assert_eq!(row.payload, r#"{"conversation_id":"c1"}"#);
    assert_eq!(resumed_event("c1", true).event_type, "runtime_restarted");
    assert_eq!(resumed_event("c1", false).event_type, "runtime_ensured");
    assert_eq!(task_created_event().payload, json("{}"));
    let bound = session_bound_event("c1", StewardSessionRole::Worker);
    assert_eq!(bound.payload, json(r#"{"conversation_id": "c1", "role": "worker"}"#));
    assert_eq!((bound.source.as_str(), bound.event_type.as_str()), ("steward", "session_bound"));
}

#[test]
fn scores_are_explained() {
    let (score, evidence) = candidate_score("Login", "Fix LOGIN page", "", None, None, None, None);
    assert_eq!((score, evidence), (60, vec!["text_substring".to_owned()]));
    let (score, evidence) = candidate_score("fix slow page", "Page is slow", "", Some("p"), Some("q"), None, None);
    assert_eq!((score, evidence), (24, vec!["token_overlap:2".to_owned()]));
    let (score, evidence) = candidate_score("a bb ccc", "nothing", "else", None, None, None, None);
    assert_eq!((score, evidence.len()), (0, 0));
    let (score, _) = candidate_score("aa bb cc dd ee ff", "aa-bb-cc-dd-ee-ff", "", None, None, None, None);
    assert_eq!(score, 48);
    assert_eq!(lowered_score("login", "fix login", "", None, None, None, None).0, 60);
    assert_eq!(lowered_score("login", "fix LOGIN", "", None, None, None, None).0, 0);
    assert_eq!(lowered_score("x", "y", "x", None, None, Some("/w"), Some("/w")).0, 130);
}

#[test]
fn proposals_are_ranked_and_distinct() {
    let request = ResolveStewardTaskRequest {
        objective: " Fix login ".to_owned(),
        project_id: None,
        workspace: None,
        limit: Some(0),
    };
    let tasks = vec![BoundTask { row: task("t1", "Fix login"), sessions: vec![binding("b1", "c1", "primary")] }];
    let conversations = vec![
        conversation("c1", "Fix login", "{}"),
        conversation("c2", "Fix login today", "{}"),
        conversation("s", "Fix login", r#"{"steward": true}"#),
        conversation("w", "Fix login", r#"{"role": "teammate"}"#),
    ];
    let found = vec![conversation("c3", "Chat", "{}"), conversation("c2", "Fix login today", "{}")];
    assert!(is_task_candidate("Fix login", &request, &tasks[0].row));
    let one = resolve(&request, &tasks, &conversations, &found).unwrap();
    assert_eq!(one.len(), 1);
    assert_eq!(one[0].task_id.as_deref(), Some("t1"));
    assert_eq!(one[0].conversation_id.as_deref(), Some("c1"));
    let all = ResolveStewardTaskRequest { limit: None, ..request };
    let all = resolve(&all, &tasks, &conversations, &found).unwrap();
    let ids: Vec<_> = all.iter().map(|c| c.conversation_id.as_deref().unwrap()).collect();
    assert_eq!(ids, vec!["c1", "c2", "c3"]);
    assert_eq!(all[2].score, 45);
    assert_eq!(order_desc(&vec![1, 5, 5, 2]), vec![1, 2, 3, 0]);
}

#[test]
fn dispatches_recover_once_and_then_fail() {
    let receipt = SendMessageResponse { msg_id: "m1".to_owned(), turn_id: "turn-1".to_owned() };
    let first = start_dispatch(task("t1", "Fix login"), "c1", &receipt, 10);
    assert_eq!(first.dispatch.task.execution_state, "running");
    assert_eq!(first.event.as_ref().unwrap().event_type, "task_dispatched");
    assert_eq!(first.event.as_ref().unwrap().payload.text_at("turn_id"), Some("turn-1"));
    let stored = append_event("e1".to_owned(), "t1", first.event.clone().unwrap(), 11);
    assert_eq!(find_dispatch(&vec![stored.clone()], "turn-1"), Some(11));
    assert_eq!(find_dispatch(&vec![stored], "turn-2"), None);
    let second = dispatch(first.dispatch, DispatchObservation::Activity(false), 20);
    assert_eq!(second.action, DispatchAction::EnsureRuntime);
    let lost = dispatch(second.dispatch.clone(), DispatchObservation::Recovery(false), 30);
    assert_eq!(
        read_blockers(&lost.dispatch.task.blockers),
        vec!["Primary conversation could not be recovered after accepting the message".to_owned()]
    );
    let third = dispatch(second.dispatch, DispatchObservation::Recovery(true), 30);
    assert_eq!(third.event.as_ref().unwrap().event_type, "dispatch_recovery_requested");
    let last = dispatch(third.dispatch, DispatchObservation::Activity(false), 40);
    assert_eq!(last.dispatch.task.execution_state, "failed");
    assert_eq!(
        read_blockers(&last.dispatch.task.blockers),
        vec!["Primary conversation accepted the message but did not start after one recovery attempt".to_owned()]
    );
    assert_eq!(
        last.action,
        DispatchAction::Fail(ConversationError::Timeout {
            reason: "primary conversation c1 did not start after one recovery attempt; no replacement session was created".to_owned()
        })
    );
}

#[test]
fn dispatches_are_accepted_once_work_shows() {
    let receipt = SendMessageResponse { msg_id: "m1".to_owned(), turn_id: "turn-1".to_owned() };
    let first = start_dispatch(task("t1", "Fix login"), "c1", &receipt, 10);
    let seen = dispatch(first.dispatch.clone(), DispatchObservation::Activity(true), 20);
    assert_eq!(seen.action, DispatchAction::Accept);
    assert_eq!(seen.event.unwrap().event_type, "dispatch_started");
    let lost = dispatch(first.dispatch, DispatchObservation::Activity(false), 20);
    let broken = dispatch(lost.dispatch, DispatchObservation::Recovery(false), 30);
    assert_eq!(broken.action, DispatchAction::ReturnRuntimeError);
    assert_eq!(broken.event.unwrap().event_type, "dispatch_recovery_failed");
    let messages = vec![message("done", 15, MessageStatus::Work)];
    assert!(messages_show_work(&messages, 15));
    assert!(!messages_show_work(&messages, 16));
    assert_eq!(next_poll(0, 7_000, 500), Some(500));
    assert_eq!(next_poll(6_800, 7_000, 500), Some(200));
    assert_eq!(next_poll(7_000, 7_000, 500), None);
}

#[test]
fn the_newest_answer_is_the_reply() {
    let messages = vec![
        message("old", 5, MessageStatus::Finish),
        message("first", 20, MessageStatus::Finish),
        message(" second ", 30, MessageStatus::Finish),
        message("unfinished", 40, MessageStatus::Work),
    ];
    assert_eq!(find_leader_reply(&messages, 10), Some(("second".to_owned(), 30)));
    assert_eq!(find_leader_reply(&messages, 35), None);
    let (event, response) = ask("c1", "m1", "second".to_owned(), 30);
    assert_eq!(event.event_type, "leader_reply_received");
    assert_eq!(event.payload.get("replied_at").and_then(Json::as_i64), Some(30));
    assert_eq!(response.reply, "second");
    assert!(matches!(reply_timeout("c1"), ConversationError::Timeout { .. }));
}

#[test]
fn terminal_events_name_their_run() {
    let run = terminal_run("team.runCompleted", &json(r#"{"user_id": "u", "team_run_id": "r"}"#)).unwrap();
    assert_eq!((run.user_id.as_str(), run.run_id.as_str()), ("u", "r"));
    assert!(terminal_run("turn.completed", &json(r#"{"user_id": "u", "team_run_id": "r"}"#)).is_none());
    assert!(terminal_run("turn.started", &json(r#"{"user_id": "u", "turn_id": "r"}"#)).is_none());
    assert!(leads_team(&conversation("c", "C", r#"{"embedded_team_id": "t"}"#)));
    assert_eq!(judge_turn(&vec![message("x", 1, MessageStatus::Error)]), TerminalEvent::TurnFailed);
    assert_eq!(judge_turn(&vec![]), TerminalEvent::TurnCompleted);
    assert!(wants_result(TerminalEvent::TurnCompleted) && !wants_result(TerminalEvent::TeamCancelled));
}

#[test]
fn reports_say_what_came_of_the_run() {
    let run = terminal_run("team.runCompleted", &json(r#"{"user_id": "u", "team_run_id": "r"}"#)).unwrap();
    let mut row = task("t1", "Fix login");
    row.execution_state = "running".to_owned();
    row.next_action = Some("release".to_owned());
    row.blockers = r#"["a","b"]"#.to_owned();
    let (after, report) = handle_terminal_event(&run, row, "steward", Some("all green"), "rep".to_owned(), 50);
    assert_eq!(after.execution_state, "idle");
    assert_eq!(after.lifecycle, "open");
    assert_eq!(
        report.content,
        "任务「Fix login」本轮执行已完成。\nLeader 结果：all green\n下一步：release\n阻塞：a；b"
    );
    assert_eq!(report.terminal_event, "team.runCompleted");
    assert_eq!(report_queued_event(&run, "rep").payload.text_at("report_id"), Some("rep"));
    let run = terminal_run("team.runFailed", &json(r#"{"user_id": "u", "team_run_id": "r"}"#)).unwrap();
    let (after, report) = handle_terminal_event(&run, task("t1", "Fix login"), "steward", None, "rep".to_owned(), 50);
    assert_eq!(after.execution_state, "failed");
    assert_eq!(
        report.content,
        "任务「Fix login」本轮执行失败。\n进展：执行会话已结束，请打开原会话查看结果。"
    );
}

#[test]
fn old_answers_are_not_reported() {
    let event = StewardTaskEventRow {
        id: "e".to_owned(),
        task_id: "t1".to_owned(),
        source: "steward".to_owned(),
        event_type: "task_dispatched".to_owned(),
        payload: r#"{"turn_id": "r"}"#.to_owned(),
        created_at: 25,
    };
    assert_eq!(find_dispatch(&vec![event.clone()], "r"), Some(25));
    assert_eq!(find_dispatch(&vec![event], "other"), None);
    let messages = vec![message("old", 20, MessageStatus::Finish), message(" new ", 30, MessageStatus::Finish)];
    assert_eq!(latest_run_result(&messages, 25).as_deref(), Some("new"));
    assert_eq!(latest_run_result(&messages, 31), None);
}

fn profile(conversation_id: Option<&str>) -> StewardProfileRow {
    StewardProfileRow {
        user_id: "u".to_owned(),
        conversation_id: conversation_id.map(str::to_owned),
        assistant_id: None,
        created_at: 0,
        updated_at: 0,
    }
}

fn stored_report(found: &str, leader: &str, latest: MessageStatus) -> ReportStep {
    let step = begin_report("turn.completed", &json(r#"{"user_id": "u", "turn_id": "r"}"#));
    let step = report_step(step, ReportSeen::Task(Some(task(found, "Fix login"))));
    let step = report_step(step, ReportSeen::Leader(conversation("c1", "Leader", leader)));
    let step = report_step(step, ReportSeen::Messages(vec![message("late", 40, latest)]));
    let step = report_step(step, ReportSeen::Profile(Some(profile(Some("steward")))));
    let event = StewardTaskEventRow {
        id: "e".to_owned(),
        task_id: found.to_owned(),
        source: "steward".to_owned(),
        event_type: "task_dispatched".to_owned(),
        payload: r#"{"turn_id": "r"}"#.to_owned(),
        created_at: 25,
    };
    let step = report_step(step, ReportSeen::Events(vec![event]));
    let step = report_step(step, ReportSeen::Messages(vec![message("all green", 30, MessageStatus::Finish)]));
    report_step(step, ReportSeen::Moment { report_id: "rep".to_owned(), now: 50 })
}

#[test]
fn a_run_is_reported_once() {
    let first = stored_report("t1", "{}", MessageStatus::Finish);
    let ReportStep::Store { task, report, .. } = &first else {
        panic!("nothing to store");
    };
    assert_eq!((task.id.as_str(), task.updated_at), ("t1", 50));
    assert_eq!((report.task_id.as_str(), report.run_id.as_str()), ("t1", "r"));
    assert_eq!(report.terminal_event, "turn.completed");
    assert!(report.content.ends_with("all green"));
    let ReportStep::Finish { task_id, event, answer } = report_step(first, ReportSeen::Stored(true)) else {
        panic!("not finished");
    };
    assert_eq!((task_id.as_str(), answer), ("t1", true));
    assert_eq!(event.unwrap().event_type, "completion_report_queued");
    let again = stored_report("t1", "{}", MessageStatus::Finish);
    let ReportStep::Finish { event, answer, .. } = report_step(again, ReportSeen::Stored(false)) else {
        panic!("not finished");
    };
    assert!(event.is_none() && !answer);
}

#[test]
fn ends_that_are_not_the_stewards_stop() {
    assert!(matches!(begin_report("turn.started", &json("{}")), ReportStep::Stop));
    let found = || begin_report("team.runFailed", &json(r#"{"user_id": "u", "team_run_id": "r"}"#));
    assert!(matches!(report_step(found(), ReportSeen::Task(None)), ReportStep::Stop));
    let loading = || report_step(found(), ReportSeen::Task(Some(task("t1", "Fix login"))));
    assert!(matches!(report_step(loading(), ReportSeen::Profile(None)), ReportStep::Stop));
    assert!(matches!(report_step(loading(), ReportSeen::Profile(Some(profile(None)))), ReportStep::Stop));
    assert!(matches!(
        report_step(loading(), ReportSeen::Profile(Some(profile(Some("steward"))))),
        ReportStep::Compose { result: None, .. }
    ));
    assert!(matches!(report_step(loading(), ReportSeen::Stored(true)), ReportStep::LoadProfile { .. }));
    assert!(matches!(
        stored_report("t1", r#"{"embedded_team_id": "team"}"#, MessageStatus::Finish),
        ReportStep::Stop
    ));
    assert!(matches!(
        stored_report("t1", "{}", MessageStatus::Error),
        ReportStep::Store { report, task, .. }
            if report.terminal_event == "turn.failed" && task.execution_state == "failed"
    ));
}

fn report() -> StewardReportOutboxRow {
    StewardReportOutboxRow {
        id: "rep".to_owned(),
        user_id: "u".to_owned(),
        task_id: "t1".to_owned(),
        steward_conversation_id: "steward".to_owned(),
        run_id: "r".to_owned(),
        terminal_event: "turn.completed".to_owned(),
        content: "done".to_owned(),
        inbox_delivered_at: None,
        im_delivered_at: None,
        attempts: 0,
        next_attempt_at: 0,
        last_error: None,
        created_at: 5,
        updated_at: 5,
    }
}

#[test]
fn reports_are_retried_with_growing_delays() {
    assert_eq!(defer_report(0, "down", 1_000).next_attempt_at, 11_000);
    assert_eq!(defer_report(1, "down", 1_000).next_attempt_at, 21_000);
    assert_eq!(defer_report(5, "down", 0).next_attempt_at, 300_000);
    assert_eq!(defer_report(50, "down", 0).next_attempt_at, 300_000);
    assert_eq!(defer_report(i64::MAX, "down", i64::MAX).attempts, i64::MAX);
    let first = deliver_pending_report(&report(), DeliveryEvent::Begin, 9);
    match first {
        DeliveryAction::DeliverInbox(row) => {
            assert_eq!(row.id, "steward-report-rep");
            assert_eq!(row.backend_turn_id.as_deref(), Some("steward-report:r"));
            let content = Json::parse(&row.content).unwrap();
            assert_eq!(content.get("_meta").unwrap().bool_at("steward_report"), Some(true));
        }
        other => panic!("unexpected {other:?}"),
    }
    assert!(matches!(
        deliver_pending_report(&report(), DeliveryEvent::InboxDelivered, 9),
        DeliveryAction::DeliverIm
    ));
    assert!(matches!(
        deliver_pending_report(&report(), DeliveryEvent::ImUnavailable, 9),
        DeliveryAction::Defer(f) if f.error == "IM report delivery port is not ready" && f.attempts == 1
    ));
    assert!(matches!(
        deliver_pending_report(&report(), DeliveryEvent::ImDelivered(2), 9),
        DeliveryAction::Complete(e) if e.event_type == "completion_report_delivered"
    ));
    let mut done = report();
    done.inbox_delivered_at = Some(1);
    assert!(matches!(deliver_pending_report(&done, DeliveryEvent::Begin, 9), DeliveryAction::DeliverIm));
    done.im_delivered_at = Some(2);
    assert!(matches!(deliver_pending_report(&done, DeliveryEvent::Begin, 9), DeliveryAction::Leave));
}

#[test]
fn states_follow_the_runtime_but_tasks_stay_open() {
    let mut row = task("t1", "Fix login");
    assert!(reconcile_runtime_state(&row, RuntimeFacts::NoPrimary, 9).is_none());
    row.execution_state = "running".to_owned();
    let lost = reconcile_runtime_state(&row, RuntimeFacts::NoPrimary, 9).unwrap();
    assert_eq!(lost.task.execution_state, "interrupted");
    assert_eq!(lost.event.event_type, "primary_binding_missing");
    let gone = reconcile_runtime_state(&row, RuntimeFacts::NoConversation("c1"), 9).unwrap();
    assert_eq!(gone.event.event_type, "primary_session_missing");
    let quiet = conversation("c1", "C", "{}");
    assert!(needs_last_message(&row, &quiet));
    let idle = reconcile_runtime_state(&row, RuntimeFacts::Conversation("c1", &quiet, None), 9).unwrap();
    assert_eq!(idle.task.execution_state, "idle");
    assert_eq!(idle.task.lifecycle, "open");
    let failed = RuntimeFacts::Conversation("c1", &quiet, Some(MessageStatus::Error));
    assert_eq!(reconcile_runtime_state(&row, failed, 9).unwrap().task.execution_state, "interrupted");
    let mut busy = conversation("c1", "C", "{}");
    busy.runtime = Some(runtime(true));
    let again = reconcile_runtime_state(&idle.task, RuntimeFacts::Conversation("c1", &busy, None), 9).unwrap();
    assert_eq!(again.task.execution_state, "running");
    assert!(reconcile_runtime_state(&row, RuntimeFacts::Conversation("c1", &busy, None), 9).is_none());
}

#[test]
fn overviews_separate_tasks_from_other_conversations() {
    let mut row = task("t1", "Fix login");
    row.execution_state = "running".to_owned();
    let bound = vec![
        BoundConversation {
            binding: binding("b1", "c1", "primary"),
            conversation: Some(conversation("c1", "Leader", r#"{"workspace": "/repo"}"#)),
        },
        BoundConversation { binding: binding("b2", "gone", "worker"), conversation: None },
    ];
    let response = task_response(row, &bound, &vec![]).unwrap();
    assert_eq!(response.sessions.len(), 1);
    assert_eq!(response.sessions[0].workspace.as_deref(), Some("/repo"));
    assert_eq!(response.sessions[0].status, Some(ConversationStatus::Finished));
    assert_eq!(response.permission_policy, Json::empty_object());
    let steward = conversation("s", "大管家", r#"{"steward": true}"#);
    let seen = overview(
        Some(profile_response(&steward, "butler".to_owned())),
        vec![response],
        vec![
            steward,
            conversation("c1", "Leader", "{}"),
            conversation("w", "Worker", r#"{"teamId": "t"}"#),
            conversation("c2", "Loose", r#"{"backend": "codex"}"#),
        ],
    );
    assert_eq!((seen.open_tasks, seen.running_tasks, seen.waiting_tasks, seen.interrupted_tasks), (1, 1, 0, 0));
    assert_eq!(seen.unregistered_conversations.len(), 1);
    assert_eq!(seen.unregistered_conversations[0].conversation_id, "c2");
    assert_eq!(seen.unregistered_conversations[0].backend.as_deref(), Some("codex"));
}

#[test]
fn bootstrapping_twice_reuses_the_profile() {
    let request = BootstrapStewardRequest { assistant_id: None, workspace: Some("/home/me".to_owned()) };
    assert_eq!(reusable_conversation(None, &request), None);
    let plan = bootstrap(&request, json("{}"));
    assert_eq!(plan.name, "大管家");
    assert_eq!(plan.extra.bool_at("steward"), Some(true));
    assert_eq!(plan.extra.text_at("preset_context"), Some(STEWARD_PROMPT));
    assert_eq!(plan.extra.text_at("workspace"), Some("/home/me"));
    let profile = new_profile("u", "c1", &plan.assistant_id, 5);
    assert_eq!(reusable_conversation(Some(&profile), &request).as_deref(), Some("c1"));
    let other = BootstrapStewardRequest { assistant_id: Some("other".to_owned()), workspace: None };
    assert_eq!(reusable_conversation(Some(&profile), &other), None);
    assert!(needs_steward_name(&conversation("c1", "x", "{}")));
    assert_eq!(profile_assistant(&profile), plan.assistant_id);
    let server = steward_mcp_server("/opt/helper");
    assert_eq!(server.command, "/opt/helper");
    assert_eq!(server.args, vec!["mcp-steward-stdio"]);
    let snapshot = ensure_steward_control_snapshot(json("{}"));
    assert_eq!(snapshot.bool_at("embedded_team"), Some(false));
    assert_eq!(snapshot.get("teamId"), Some(&Json::Null));
    assert_eq!(snapshot.get("mcp_servers"), Some(&json(r#"["aionui-steward"]"#)));
}

#[test]
fn switching_needs_a_profile_and_a_name() {
    let profile = new_profile("u", "c1", "butler", 5);
    assert_eq!(
        switch_assistant(Some(&profile), "  ").err(),
        Some(ConversationError::BadRequest { reason: "assistant_id must not be empty".to_owned() })
    );
    assert_eq!(
        switch_assistant(None, "x").err(),
        Some(ConversationError::NotFound { reason: "Steward profile not found".to_owned() })
    );
    assert_eq!(switch_assistant(Some(&profile), " butler "), Ok(SwitchPlan::Keep));
    assert_eq!(
        switch_assistant(Some(&profile), "other"),
        Ok(SwitchPlan::Switch { conversation_id: "c1".to_owned(), assistant_id: "other".to_owned() })
    );
    let empty = StewardProfileRow { conversation_id: None, ..profile.clone() };
    assert_eq!(
        switch_assistant(Some(&empty), "x").err(),
        Some(ConversationError::NotFound { reason: "Steward conversation not found".to_owned() })
    );
    let after = switched_profile(&profile, "other", 9);
    assert_eq!((after.created_at, after.updated_at), (5, 9));
    let seen = profile_response(&conversation("c1", "x", "{}"), "butler".to_owned());
    assert!(is_profile_conversation(Some(&seen), "c1") && !is_profile_conversation(None, "c1"));
}

#[test]
fn queries_are_bounded_and_escaped() {
    assert_eq!(wildcard_pattern("login"), "%login%");
    assert_eq!((task_limit(0), task_limit(50), task_limit(5_000)), (1, 50, 200));
    assert_eq!((event_limit(0), event_limit(5_000)), (1, 200));
    assert!(report_limit(5_000) >= report_limit(1));
    let filters = StewardTaskFilters { query: Some("  login ".to_owned()), lifecycle: None, limit: 5 };
    assert_eq!(task_pattern(&filters).as_deref(), Some("%login%"));
    let filters = StewardTaskFilters { query: Some("  ".to_owned()), lifecycle: None, limit: 5 };
    assert_eq!(task_pattern(&filters), None);
    assert!(missing_task(0, "t1").is_some() && missing_task(1, "t1").is_none());
    assert!(was_queued(1) && !was_queued(0));
}

#[test]
fn fields_are_trimmed_and_checked() {
    assert_eq!(required_text("content", " a ".to_owned()), Ok("a".to_owned()));
    assert!(required_text("content", "\u{3000}\t".to_owned()).is_err());
    assert_eq!(nonempty_option("  ".to_owned()), None);
    assert!(require_json_object("x", &Json::Null).is_ok());
    assert!(require_json_object("x", &json("[]")).is_err());
    assert_eq!(json_object_or_empty(Json::Null), Json::empty_object());
    assert!(same_ignoring_ascii_case("Leader", "LEADER"));
    assert_eq!(
        map_team_error("gone"),
        ConversationError::BadGateway { reason: "Embedded team operation failed: gone".to_owned() }
    );
}
