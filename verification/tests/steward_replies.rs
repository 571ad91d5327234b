use aionui_steward::api::{
    StewardExecutionState, StewardOverviewResponse, StewardSessionRole, StewardTaskLifecycle, StewardTaskResponse,
    StewardTaskSessionResponse, StewardUnregisteredConversationResponse,
};
use aionui_steward::command::{
    fixed_command_help, fixed_slash_commands, parse_ask_arguments, parse_steward_command, unhandled_command_response,
    ParsedStewardCommand,
};
use aionui_steward::conversation::{
    ConversationResponse, ConversationRuntimeStateKind, ConversationRuntimeSummary, ConversationStatus,
};
use aionui_steward::display::{
    archived_text, format_overview, format_task_status, format_task_status_list, format_task_workers, no_leader_text,
    reply_text, resumed_text,
};
use aionui_steward::json::Json;
use aionui_steward::labels::{conversation_runtime_label, execution_state_label, lifecycle_label};
use aionui_steward::lookup::{
    execute_parsed_command, find_named_task, handled_command_response, needs_tasks, persist_command_exchange,
    resolve_command_task, sort_by_name, team_member_conversations, CommandPlan, CommandTaskLookup,
};
use aionui_steward::sessions::primary_session;

fn task(id: &str, title: &str, lifecycle: StewardTaskLifecycle) -> StewardTaskResponse {
    StewardTaskResponse {
        id: id.to_owned(),
        title: title.to_owned(),
        objective: String::new(),
        lifecycle,
        execution_state: StewardExecutionState::Idle,
        priority: 0,
        progress_summary: None,
        next_action: None,
        blockers: vec![],
        project_id: None,
        folder_id: None,
        workspace: None,
        permission_policy: Json::Null,
        budget_policy: Json::Null,
        sessions: vec![],
        events: vec![],
        created_at: 0,
        updated_at: 0,
    }
}

fn session(conversation_id: &str, name: &str, role: StewardSessionRole) -> StewardTaskSessionResponse {
    StewardTaskSessionResponse {
        id: "s".to_owned(),
        conversation_id: conversation_id.to_owned(),
        conversation_name: name.to_owned(),
        role,
        status: None,
        workspace: None,
        project_id: None,
        created_at: 0,
    }
}

fn conversation(id: &str, name: &str, extra: &str) -> ConversationResponse {
    ConversationResponse {
        id: id.to_owned(),
        name: name.to_owned(),
        name_source: None,
        status: ConversationStatus::Pending,
        runtime: None,
        extra: Json::parse(extra).unwrap(),
        project_id: None,
        assistant: None,
        modified_at: 0,
    }
}

#[test]
fn commands_have_two_spellings_and_need_their_arguments() {
    assert_eq!(parse_steward_command("  /HELP now"), Some(ParsedStewardCommand::Help));
    assert_eq!(parse_steward_command("/成员"), Some(ParsedStewardCommand::Workers(None)));
    assert_eq!(parse_steward_command("/归档  登录 "), Some(ParsedStewardCommand::Archive("登录".to_owned())));
    assert_eq!(parse_steward_command("/unknown"), None);
    assert_eq!(parse_steward_command("   "), None);
    assert_eq!(parse_steward_command("恢复任务 登录。"), Some(ParsedStewardCommand::Restore("登录".to_owned())));
    assert_eq!(parse_steward_command("继续 登录"), Some(ParsedStewardCommand::Resume(Some("登录".to_owned()))));
    assert_eq!(parse_steward_command("登录的成员"), Some(ParsedStewardCommand::Workers(Some("登录".to_owned()))));
    assert_eq!(
        parse_ask_arguments("LEADER how far"),
        Some(ParsedStewardCommand::Ask { target: None, question: "how far".to_owned() })
    );
    assert_eq!(parse_ask_arguments("登录"), None);
    assert_eq!(fixed_slash_commands().len(), 8);
    assert!(fixed_command_help().starts_with("大管家快速指令：\n/tasks"));
    assert!(!unhandled_command_response(5).handled);
}

#[test]
fn tasks_are_found_by_name_or_by_their_conversations() {
    let mut first = task("t1", "Fix Login", StewardTaskLifecycle::Open);
    first.sessions.push(session("c1", "Leader One", StewardSessionRole::Primary));
    let second = task("t2", "Fix logout", StewardTaskLifecycle::Open);
    let tasks = vec![first, second];
    assert!(matches!(resolve_command_task(&tasks, Some(" fix login ")), CommandTaskLookup::Found(t) if t.id == "t1"));
    assert!(matches!(resolve_command_task(&tasks, Some("C1")), CommandTaskLookup::Found(t) if t.id == "t1"));
    let names: Vec<Vec<String>> = tasks.iter().map(|task| vec![task.title.to_lowercase()]).collect();
    assert!(matches!(find_named_task(&tasks, &names, "OUT", "out"), CommandTaskLookup::Found(t) if t.id == "t2"));
    assert!(matches!(find_named_task(&tasks, &names, "OUT", "OUT"), CommandTaskLookup::Message(_)));
    assert!(matches!(resolve_command_task(&tasks, Some("OUT")), CommandTaskLookup::Found(t) if t.id == "t2"));
    assert!(matches!(
        resolve_command_task(&tasks, Some("Fix")),
        CommandTaskLookup::Message(m) if m == "任务名「Fix」不唯一，请指定：\n- Fix Login\n- Fix logout"
    ));
    assert!(matches!(
        resolve_command_task(&tasks, Some("ghost")),
        CommandTaskLookup::Message(m) if m == "没有找到任务「ghost」。可使用 /tasks 查看任务列表。"
    ));
    assert!(matches!(
        resolve_command_task(&tasks, None),
        CommandTaskLookup::Message(m) if m == "当前有多个进行中任务，请指定任务名：\n- Fix Login [空闲]\n- Fix logout [空闲]"
    ));
    let done = vec![task("t3", "Done", StewardTaskLifecycle::Completed)];
    assert!(matches!(
        resolve_command_task(&done, None),
        CommandTaskLookup::Message(m) if m == "当前没有进行中的已登记任务。可使用 /tasks 查看全部任务和未纳管会话。"
    ));
}

#[test]
fn commands_become_plans() {
    let tasks = vec![task("t1", "Fix Login", StewardTaskLifecycle::Open)];
    assert!(!needs_tasks(&ParsedStewardCommand::Help));
    assert!(matches!(execute_parsed_command(ParsedStewardCommand::Help, &tasks), CommandPlan::Reply(_)));
    assert!(matches!(execute_parsed_command(ParsedStewardCommand::Tasks, &tasks), CommandPlan::ShowOverview));
    assert!(matches!(
        execute_parsed_command(ParsedStewardCommand::Status(None), &tasks),
        CommandPlan::ShowStatus(t) if t.id == "t1"
    ));
    assert!(matches!(
        execute_parsed_command(ParsedStewardCommand::Status(None), &vec![]),
        CommandPlan::Reply(_)
    ));
    assert!(matches!(
        execute_parsed_command(ParsedStewardCommand::Archive("fix login".to_owned()), &tasks),
        CommandPlan::SetArchived(t, true) if t.id == "t1"
    ));
    assert!(matches!(
        execute_parsed_command(
            ParsedStewardCommand::Ask { target: None, question: "how far".to_owned() },
            &tasks
        ),
        CommandPlan::Ask(_, q) if q == "how far"
    ));
}

#[test]
fn exchanges_are_kept_as_two_messages() {
    let (asked, answered) = persist_command_exchange("steward", "/tasks", "无", "cmd", "u1", "r1", i64::MAX);
    assert_eq!(asked.content, r#"{"content":"/tasks"}"#);
    assert_eq!(asked.position.as_deref(), Some("right"));
    assert_eq!(answered.position.as_deref(), Some("left"));
    assert_eq!(answered.created_at, i64::MAX);
    assert_eq!(answered.backend_turn_id.as_deref(), Some("cmd"));
    let response = handled_command_response("tasks", "无".to_owned(), None, None, "u1".to_owned(), "r1".to_owned(), 5);
    assert!(response.handled);
    assert_eq!(response.command.as_deref(), Some("tasks"));
}

#[test]
fn members_of_a_team_are_listed_by_name() {
    let all = vec![
        conversation("w1", "Zoe", r#"{"teamId": "t", "role": "teammate"}"#),
        conversation("w2", "Adam", r#"{"teamId": "t", "role": "teammate"}"#),
        conversation("l", "Lead", r#"{"teamId": "t", "role": "lead"}"#),
        conversation("x", "Other", r#"{"teamId": "u", "role": "teammate"}"#),
    ];
    assert_eq!(team_member_conversations("t", &all), vec!["w1", "w2"]);
    let sorted = sort_by_name(all);
    assert_eq!(sorted.iter().map(|c| c.name.as_str()).collect::<Vec<_>>(), vec!["Adam", "Lead", "Other", "Zoe"]);
}

#[test]
fn overviews_are_written_out() {
    let mut waiting = task("t1", "Fix Login", StewardTaskLifecycle::Open);
    waiting.execution_state = StewardExecutionState::WaitingUser;
    let seen = StewardOverviewResponse {
        profile: None,
        open_tasks: 1,
        running_tasks: 0,
        waiting_tasks: 1,
        interrupted_tasks: 0,
        tasks: vec![waiting],
        unregistered_conversations: vec![StewardUnregisteredConversationResponse {
            conversation_id: "c".to_owned(),
            conversation_name: "Loose".to_owned(),
            status: ConversationStatus::Finished,
            assistant_name: None,
            backend: None,
            workspace: None,
            project_id: None,
            modified_at: 0,
        }],
    };
    assert_eq!(
        format_overview(&seen),
        "任务概览：进行中 1，执行中 0，等待 1，中断 0。\n已登记任务：\n- Fix Login [进行中 / 等待用户]\n未纳管会话：\n- Loose [空闲]"
    );
    assert_eq!(
        format_task_status_list(&vec![]),
        "当前没有进行中的已登记任务。可使用 /tasks 查看全部任务和未纳管会话。"
    );
}

#[test]
fn statuses_are_written_out() {
    let mut t = task("t1", "Fix Login", StewardTaskLifecycle::Open);
    t.progress_summary = Some("half way".to_owned());
    t.next_action = Some(" ".to_owned());
    t.blockers = vec!["a".to_owned(), "b".to_owned()];
    t.sessions.push(session("w", "W", StewardSessionRole::Worker));
    t.sessions.push(session("c1", "Leader", StewardSessionRole::Primary));
    let leader = conversation("c1", "Leader", "{}");
    assert_eq!(
        format_task_status(&t, Some(&leader), 2),
        "任务：Fix Login\n任务状态：进行中\n执行状态：空闲\nLeader：Leader（等待中）\n专家团 Worker：2 个\n最近进展：half way\n阻塞：a；b"
    );
    assert!(format_task_status(&t, None, 0).contains("Leader：未绑定\n专家团 Worker：0 个"));
    let mut busy = conversation("w", "Worker", "{}");
    busy.runtime = Some(ConversationRuntimeSummary {
        state: ConversationRuntimeStateKind::Restarting,
        can_send_message: false,
        has_task: false,
        task_status: None,
        is_processing: false,
        pending_confirmations: 0,
        turn_id: None,
        supports_midturn_delivery: false,
    });
    assert_eq!(format_task_workers(&leader, &vec![]), "Leader：Leader（等待中）\nWorker：无");
    assert_eq!(
        format_task_workers(&leader, &vec![busy.clone()]),
        "Leader：Leader（等待中）\nWorker：1 个\n- Worker（重启中）"
    );
    assert_eq!(conversation_runtime_label(busy.runtime.as_ref(), busy.status), "重启中");
    assert_eq!(primary_session(&t).unwrap().conversation_id, "c1");
    assert_eq!(no_leader_text("Fix"), "任务「Fix」尚未绑定 Leader。");
    assert_eq!(resumed_text(&t), "已恢复任务「Fix Login」的原主会话。当前执行状态：空闲。");
    assert_eq!(archived_text("Fix", true, true), "已归档任务「Fix」及其团队会话。");
    assert_eq!(archived_text("Fix", false, false), "已恢复任务「Fix」及其主会话。");
    assert_eq!(reply_text("ok"), "Leader 回复：\nok");
    assert_eq!(lifecycle_label(&StewardTaskLifecycle::Archived), "已归档");
    assert_eq!(execution_state_label(&StewardExecutionState::WaitingExternal), "等待外部");
}
