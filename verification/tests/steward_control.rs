use aionui_steward::control::{
    archive_target_for_conversation, is_steward_conversation, is_team_worker_conversation,
    runtime_has_execution_activity, StewardArchiveTarget,
};
use aionui_steward::conversation::{
    ConversationError, ConversationResponse, ConversationRuntimeStateKind, ConversationRuntimeSummary,
    ConversationStatus, MessagePosition, MessageResponse, MessageStatus, MessageType,
};
use aionui_steward::dispatch::leader_reply_after;
use aionui_steward::json::Json;
use aionui_steward::lookup::led_team;
use aionui_steward::stdio::{
    ask_task, bind_session, conversation_control_target, conversation_request, create_session, create_task,
    dispatch_task, header_error, inspect_task, list_archived, list_assistants, list_tasks, overview, request_data,
    resume_task, search_tasks, set_conversation_archived, tool_error, tool_names, update_task, ApiMethod,
    BindSessionParams, ConversationControlTarget, CreateSessionParams, CreateTaskParams, ListTasksParams, RuntimeEnv,
    SearchTasksParams, UpdateTaskParams,
};

fn json(text: &str) -> Json {
    Json::parse(text).expect("valid JSON")
}

fn conversation(id: &str, name: &str, extra: &str) -> ConversationResponse {
    ConversationResponse {
        id: id.to_owned(),
        name: name.to_owned(),
        name_source: None,
        status: ConversationStatus::Pending,
        runtime: None,
        extra: json(extra),
        project_id: None,
        assistant: None,
        modified_at: 0,
    }
}

#[test]
fn tool_names_fit_common_provider_limit() {
    for name in [
        "steward_overview",
        "steward_search_tasks",
        "steward_list_tasks",
        "steward_inspect_task",
        "steward_create_task",
        "steward_update_task",
        "steward_list_assistants",
        "steward_create_session",
        "steward_bind_session",
        "steward_dispatch_task",
        "steward_ask_task",
        "steward_resume_task",
        "steward_list_archived",
        "steward_archive_conversation",
        "steward_restore_conversation",
    ] {
        assert!(tool_names().contains(&name), "{name}");
        assert!(format!("mcp__aionui-steward__{name}").len() <= 64, "{name}");
    }
    assert_eq!(tool_names().len(), 15);
}

#[test]
fn conversation_control_protects_steward_and_team_workers() {
    for text in [
        r#"{"id": "steward-1", "name": "大管家", "extra": {}}"#,
        r#"{"id": "steward-2", "name": "旧管家", "extra": {"steward": true}}"#,
        r#"{"id": "worker-1", "name": "Worker", "extra": {"role": "teammate", "teamId": "team-1"}}"#,
        r#"{"id": "legacy-worker-1", "name": "Legacy Worker", "extra": {"teamId": "team-1"}}"#,
    ] {
        assert!(conversation_control_target("steward-1", &json(text)).is_err());
    }
}

#[test]
fn conversation_control_maps_team_leader_to_whole_team() {
    let conversation = json(r#"{"id": "leader-1", "name": "Leader", "extra": {"role": "lead", "teamId": "team-1"}}"#);
    assert_eq!(
        conversation_control_target("steward-1", &conversation).unwrap(),
        ConversationControlTarget::Team {
            conversation_id: "leader-1".to_owned(),
            conversation_name: "Leader".to_owned(),
            team_id: "team-1".to_owned(),
        }
    );
}

#[test]
fn conversation_control_keeps_independent_conversation_scope() {
    let conversation = json(r#"{"id": "conv-1", "name": "Standalone", "extra": {}}"#);
    assert_eq!(
        conversation_control_target("steward-1", &conversation).unwrap(),
        ConversationControlTarget::Conversation {
            conversation_id: "conv-1".to_owned(),
            conversation_name: "Standalone".to_owned(),
        }
    );
}

#[test]
fn archiving_addresses_the_conversation_or_its_team() {
    let alone = ConversationControlTarget::Conversation {
        conversation_id: "conv-1".to_owned(),
        conversation_name: "Standalone".to_owned(),
    };
    let (path, said) = set_conversation_archived(&alone, true);
    assert_eq!(path, "/api/sidebar/conversation/conv-1/archive");
    assert_eq!(said.text_at("conversation_id"), Some("conv-1"));
    let team = ConversationControlTarget::Team {
        conversation_id: "leader-1".to_owned(),
        conversation_name: "Leader".to_owned(),
        team_id: "team-1".to_owned(),
    };
    let (path, _) = set_conversation_archived(&team, false);
    assert_eq!(path, "/api/sidebar/team/team-1/unarchive");
    assert_eq!(conversation_request("conv-1").path, "/api/conversations/conv-1");
}

#[test]
fn requests_say_only_what_was_asked_for() {
    assert_eq!(overview().method, ApiMethod::Get);
    assert_eq!(overview().path, "/api/steward/overview");
    let listed = list_tasks(&ListTasksParams { query: Some("login".to_owned()), lifecycle: None, limit: Some(5) });
    assert_eq!(listed.path, "/api/steward/tasks");
    assert_eq!(
        listed.query,
        vec![("query".to_owned(), "login".to_owned()), ("limit".to_owned(), "5".to_owned())]
    );
    let created = create_task(&CreateTaskParams {
        title: "Fix login".to_owned(),
        objective: "Make it work".to_owned(),
        priority: None,
        project_id: None,
        workspace: None,
        conversation_id: None,
    });
    assert_eq!(created.method, ApiMethod::Post);
    assert_eq!(created.body.as_ref().unwrap().text_at("title"), Some("Fix login"));
    assert_eq!(resume_task("task-1", Some(true)).path, "/api/steward/tasks/task-1/resume");
    assert_eq!(list_archived(None).method, ApiMethod::Get);
}

#[test]
fn requests_carry_what_the_tool_was_given() {
    let body = |text: &str| Some(json(text));
    let search = search_tasks(&SearchTasksParams {
        objective: "Fix login".to_owned(),
        project_id: Some("p1".to_owned()),
        workspace: None,
        limit: Some(3),
    });
    assert_eq!(search.method, ApiMethod::Post);
    assert_eq!(search.path, "/api/steward/tasks/resolve");
    assert_eq!(
        search.body,
        body(r#"{"objective": "Fix login", "project_id": "p1", "workspace": null, "limit": 3}"#)
    );
    assert_eq!(inspect_task("t1").method, ApiMethod::Get);
    assert_eq!(inspect_task("t1").path, "/api/steward/tasks/t1");
    assert_eq!(inspect_task("t1").body, None);
    assert_eq!(list_assistants().path, "/api/assistants");
    let updated = update_task(&UpdateTaskParams {
        task_id: "t1".to_owned(),
        lifecycle: Some("completed".to_owned()),
        execution_state: None,
        progress_summary: None,
        next_action: None,
        blockers: Some(vec!["no key".to_owned()]),
    });
    assert_eq!(updated.method, ApiMethod::Patch);
    assert_eq!(updated.path, "/api/steward/tasks/t1");
    assert_eq!(
        updated.body,
        body(
            r#"{"lifecycle": "completed", "execution_state": null, "progress_summary": null,
                "next_action": null, "blockers": ["no key"]}"#
        )
    );
    let created = create_session(&CreateSessionParams {
        task_id: "t1".to_owned(),
        assistant_id: "coder".to_owned(),
        conversation_name: None,
        workspace: Some("/work".to_owned()),
        replace_primary: None,
    });
    assert_eq!(created.path, "/api/steward/tasks/t1/sessions");
    assert_eq!(
        created.body,
        body(
            r#"{"assistant_id": "coder", "conversation_name": null, "workspace": "/work",
                "role": "primary", "replace_primary": false}"#
        )
    );
    let bound = bind_session(&BindSessionParams {
        task_id: "t1".to_owned(),
        conversation_id: "c1".to_owned(),
        role: None,
        replace_primary: Some(true),
    });
    assert_eq!(bound.path, "/api/steward/tasks/t1/sessions");
    assert_eq!(bound.body, body(r#"{"conversation_id": "c1", "role": "primary", "replace_primary": true}"#));
    assert_eq!(dispatch_task("t1", "go").path, "/api/steward/tasks/t1/dispatch");
    assert_eq!(dispatch_task("t1", "go").body, body(r#"{"content": "go"}"#));
    assert_eq!(ask_task("t1", "how far?").path, "/api/steward/tasks/t1/ask");
    assert_eq!(ask_task("t1", "how far?").body, body(r#"{"content": "how far?"}"#));
}

#[test]
fn leaders_name_their_team() {
    assert_eq!(led_team(&conversation("l", "L", r#"{"embedded_team_id": "t"}"#)).as_deref(), Some("t"));
    assert_eq!(led_team(&conversation("s", "S", r#"{"embedded_team_id": 7}"#)), None);
    assert_eq!(led_team(&conversation("s", "S", "{}")), None);
}

#[test]
fn replies_are_unwrapped_or_reported() {
    assert_eq!(
        request_data(true, "200 OK", json(r#"{"success": true, "data": {"a": 1}}"#)),
        Ok(json(r#"{"a": 1}"#))
    );
    assert!(request_data(false, "404 Not Found", json(r#"{"message": "no such task"}"#)).is_err());
    assert_eq!(tool_error("no such task").text_at("message"), Some("no such task"));
    assert_eq!(tool_error("no such task").text_at("code"), Some("STEWARD_TOOL_FAILED"));
}

#[test]
fn environment_must_be_complete() {
    let env = RuntimeEnv::from_env(
        Some("http://127.0.0.1:8080/".to_owned()),
        Some("user-1".to_owned()),
        Some("steward-1".to_owned()),
        Some("token-1".to_owned()),
    )
    .unwrap();
    assert_eq!(env.url("/api/steward/overview"), "http://127.0.0.1:8080/api/steward/overview");
    assert!(env.headers().iter().any(|(_, value)| value.as_str() == "user-1"));
    assert!(RuntimeEnv::from_env(None, Some("u".to_owned()), Some("c".to_owned()), Some("t".to_owned())).is_err());
    assert!(header_error("x-user-id").contains("x-user-id"));
}

#[test]
fn steward_and_workers_are_recognised() {
    assert!(is_steward_conversation(&conversation("a", "A", r#"{"steward": true}"#)));
    assert!(!is_steward_conversation(&conversation("a", "A", r#"{"steward": "yes"}"#)));
    assert!(is_team_worker_conversation(&conversation("w", "W", r#"{"teamId": "t", "role": "teammate"}"#)));
    assert!(!is_team_worker_conversation(&conversation("l", "L", r#"{"teamId": "t", "role": "lead"}"#)));
    assert!(matches!(
        archive_target_for_conversation(&conversation("l", "L", r#"{"embedded_team_id": "t"}"#)),
        Ok(StewardArchiveTarget::Team(team)) if team == "t"
    ));
    assert!(matches!(
        archive_target_for_conversation(&conversation("s", "S", "{}")),
        Ok(StewardArchiveTarget::Conversation(id)) if id == "s"
    ));
    assert!(matches!(
        archive_target_for_conversation(&conversation("a", "A", r#"{"steward": true}"#)),
        Err(ConversationError::BadRequest { .. })
    ));
}

#[test]
fn dispatch_activity_requires_real_execution_evidence() {
    let mut runtime = ConversationRuntimeSummary {
        state: ConversationRuntimeStateKind::Idle,
        can_send_message: true,
        has_task: true,
        task_status: None,
        is_processing: false,
        pending_confirmations: 0,
        turn_id: None,
        supports_midturn_delivery: true,
    };
    assert!(!runtime_has_execution_activity(Some(&runtime)));

    runtime.is_processing = true;
    assert!(runtime_has_execution_activity(Some(&runtime)));

    runtime.is_processing = false;
    runtime.task_status = Some(ConversationStatus::Running);
    assert!(runtime_has_execution_activity(Some(&runtime)));

    runtime.task_status = None;
    runtime.pending_confirmations = 1;
    assert!(runtime_has_execution_activity(Some(&runtime)));
}

#[test]
fn inquiry_reply_requires_new_completed_leader_text() {
    let asked_at = 200;
    let mut message = MessageResponse {
        id: "message-1".to_owned(),
        conversation_id: "conversation-1".to_owned(),
        msg_id: Some("message-1".to_owned()),
        message_type: MessageType::Text,
        content: json(r#"{"content": "正在处理登录问题"}"#),
        position: Some(MessagePosition::Left),
        status: Some(MessageStatus::Finish),
        hidden: false,
        created_at: 201,
        backend_turn_id: Some("turn-1".to_owned()),
    };
    assert_eq!(
        leader_reply_after(&message, asked_at),
        Some(("正在处理登录问题".to_owned(), 201))
    );

    message.created_at = 199;
    assert_eq!(leader_reply_after(&message, asked_at), None);
    message.created_at = 201;
    message.backend_turn_id = None;
    assert_eq!(leader_reply_after(&message, asked_at), None);
    message.backend_turn_id = Some("turn-1".to_owned());
    message.message_type = MessageType::ToolCall;
    assert_eq!(leader_reply_after(&message, asked_at), None);
}
