use aionui_steward::codex::{
    initialize_failure, initialize_request, initialized_notice, page_request_id, read_codex_file_metadata,
    read_codex_first_user_prompt, read_codex_meta, read_rpc_result, thread_is_eligible, thread_list_failure,
    thread_page, CodexFileScan, CodexScan, CodexThread, PromptStep,
};
use aionui_steward::history::{
    is_native_worktree_path, merge_orphaned_worktrees, newest, scan_codex, session_limit, wants_provider, AnchorRow,
    BindingRow, NativeProvider, NativeSession, SyncRequest,
};
use aionui_steward::json::Json;
use aionui_steward::paths::{extension, file_name, file_stem, join_path, parent_dir, same_path};
use aionui_steward::projects::{main_root_candidate, path_key, project_identity, project_root, RepositoryFacts};
use aionui_steward::qoder::{
    scan_qoder, scan_qoder_project, session_file, QoderProjectCandidate, QoderSessionFile, SearchAction,
    WorkspaceSearch,
};
use aionui_steward::sync::{
    archived_at, begin_sync, bind_conversation_project, finish_sync, import_message, import_session, next_action,
    record, works_in_project_root, workspace_unavailable, SyncAction, SyncOutcome,
};
use aionui_steward::titles::QoderTitles;

fn make_session(cwd: &str, project_key: &str, project_root: &str) -> NativeSession {
    NativeSession {
        provider: NativeProvider::Codex,
        native_id: cwd.to_owned(),
        title: String::new(),
        preview: None,
        cwd: cwd.to_owned(),
        source_path: None,
        updated_at: 0,
        created_at: 0,
        archived: false,
        project_key: project_key.to_owned(),
        project_root: project_root.to_owned(),
    }
}

fn session(provider: NativeProvider, id: &str, updated_at: i64) -> NativeSession {
    let mut s = make_session("/repo", "git:repo", "/repo");
    s.provider = provider;
    s.native_id = id.to_owned();
    s.title = format!("Task {id}");
    s.updated_at = updated_at;
    s
}

fn thread(id: &str, cwd: &str) -> CodexThread {
    CodexThread {
        id: id.to_owned(),
        name: None,
        preview: None,
        cwd: cwd.to_owned(),
        path: None,
        created_at: 1,
        updated_at: 2,
        ephemeral: false,
        parent_thread_id: None,
    }
}

#[test]
fn orphaned_native_worktree_joins_the_unambiguous_repository() {
    let mut sessions = vec![
        make_session(
            "/Users/test/codes/example",
            "git:git@example.com:team/example",
            "/Users/test/codes/example",
        ),
        make_session(
            "/Users/test/.codex/worktrees/1234/example",
            "path:/Users/test/.codex/worktrees/1234/example",
            "/Users/test/.codex/worktrees/1234/example",
        ),
    ];

    merge_orphaned_worktrees(&mut sessions);

    assert_eq!(sessions[1].project_key, "git:git@example.com:team/example");
    assert_eq!(sessions[1].project_root, "/Users/test/codes/example");
    assert_eq!(sessions[1].cwd, "/Users/test/.codex/worktrees/1234/example");
}

#[test]
fn ambiguous_repositories_take_in_no_orphan() {
    let mut sessions = vec![
        make_session("/a/example", "git:one", "/a/example"),
        make_session("/b/example", "git:two", "/b/example"),
        make_session("/u/.qoder/worktrees/1/example", "path:/u/.qoder/worktrees/1/example", "/x"),
        make_session("/u/plain/example", "path:/u/plain/example", "/u/plain/example"),
    ];
    merge_orphaned_worktrees(&mut sessions);
    assert_eq!(sessions[2].project_key, "path:/u/.qoder/worktrees/1/example");
    assert_eq!(sessions[3].project_key, "path:/u/plain/example");
    assert!(is_native_worktree_path("/u/.qoder/worktrees/1/example"));
    assert!(!is_native_worktree_path("/u/plain/example"));
}

#[test]
fn requests_choose_providers_and_limits() {
    let all = SyncRequest { providers: vec![], max_sessions_per_provider: None };
    assert!(wants_provider(&all, NativeProvider::Codex) && wants_provider(&all, NativeProvider::Qoder));
    assert_eq!(session_limit(&all), 2_000);
    let one = SyncRequest { providers: vec!["QODER".to_owned()], max_sessions_per_provider: Some(0) };
    assert!(!wants_provider(&one, NativeProvider::Codex) && wants_provider(&one, NativeProvider::Qoder));
    assert_eq!(session_limit(&one), 1);
    let many = SyncRequest { providers: vec!["other".to_owned()], max_sessions_per_provider: Some(50_000) };
    assert!(!wants_provider(&many, NativeProvider::Codex));
    assert_eq!(session_limit(&many), 10_000);
}

#[test]
fn scans_are_merged_by_identifier_newest_first() {
    let mut listed = session(NativeProvider::Codex, "a", 10);
    listed.title = "Listed".to_owned();
    let files = Ok(vec![session(NativeProvider::Codex, "a", 5), session(NativeProvider::Codex, "b", 7)]);
    let app = Ok(vec![listed]);
    let merged = scan_codex(&files, &app, 10).unwrap();
    assert_eq!(merged.len(), 2);
    assert_eq!(merged[0].title, "Listed");
    assert_eq!(merged[1].native_id, "b");
    assert_eq!(scan_codex(&files, &Err("down".to_owned()), 1).unwrap().len(), 1);
    assert_eq!(
        scan_codex(&Err("no files".to_owned()), &Err("down".to_owned()), 1).err().as_deref(),
        Some("no files; down")
    );
    assert!(scan_codex(&Ok(vec![]), &Err("down".to_owned()), 1).is_err());
}

#[test]
fn every_session_is_counted_once() {
    let codex = Ok(vec![
        session(NativeProvider::Codex, "bound", 5),
        session(NativeProvider::Codex, "deleted", 4),
        session(NativeProvider::Codex, "anchored", 3),
        session(NativeProvider::Codex, "fresh", 2),
        session(NativeProvider::Codex, "broken", 1),
    ]);
    let bindings = vec![
        BindingRow {
            provider: "codex".to_owned(),
            native_session_id: "bound".to_owned(),
            conversation_id: "c1".to_owned(),
            conversation_exists: true,
        },
        BindingRow {
            provider: "codex".to_owned(),
            native_session_id: "deleted".to_owned(),
            conversation_id: "c2".to_owned(),
            conversation_exists: false,
        },
    ];
    let anchors = vec![
        AnchorRow {
            session_id: "anchored".to_owned(),
            conversation_id: "c3".to_owned(),
            extra: r#"{"backend": "codex"}"#.to_owned(),
        },
        AnchorRow { session_id: "fresh".to_owned(), conversation_id: "c4".to_owned(), extra: "{}".to_owned() },
    ];
    let (mut ledger, agenda) = begin_sync(codex, Err("cannot scan".to_owned()), bindings, &anchors);
    assert_eq!(agenda.iter().map(|s| s.native_id.as_str()).collect::<Vec<_>>(), vec![
        "bound", "deleted", "anchored", "fresh", "broken"
    ]);
    for s in &agenda {
        let outcome = match next_action(&ledger, s) {
            SyncAction::Tombstone => SyncOutcome::Tombstoned,
            SyncAction::Refresh { conversation_id } => {
                assert_eq!(conversation_id, "c1");
                SyncOutcome::Refreshed { grouped: true }
            }
            SyncAction::Link { conversation_id } => {
                assert_eq!(conversation_id, "c3");
                SyncOutcome::Linked
            }
            SyncAction::Import if s.native_id == "fresh" => {
                SyncOutcome::Imported { conversation_id: "c9".to_owned() }
            }
            SyncAction::Import => SyncOutcome::Failed { error: "no workspace".to_owned() },
        };
        ledger = record(ledger, s, &outcome);
    }
    assert_eq!(
        next_action(&ledger, &agenda[3]),
        SyncAction::Refresh { conversation_id: "c9".to_owned() }
    );
    let response = finish_sync(ledger, 77);
    assert_eq!(response.codex.discovered, 5);
    assert_eq!(response.codex.already_synced, 1);
    assert_eq!(response.codex.tombstoned, 1);
    assert_eq!(response.codex.linked_existing, 1);
    assert_eq!(response.codex.imported, 1);
    assert_eq!(response.codex.skipped, 1);
    assert_eq!(response.codex.errors, vec!["broken: no workspace"]);
    assert_eq!(response.qoder.errors, vec!["cannot scan"]);
    assert_eq!(response.projects_grouped, 1);
    assert_eq!(response.synced_at, 77);
}

#[test]
fn errors_of_a_provider_are_bounded() {
    let many: Vec<NativeSession> =
        (0i64..15).map(|i| session(NativeProvider::Qoder, &format!("0123456789-{i}"), i)).collect();
    let (mut ledger, agenda) = begin_sync(Ok(vec![]), Ok(many), vec![], &vec![]);
    for s in &agenda {
        ledger = record(ledger, s, &SyncOutcome::TimedOut);
    }
    let response = finish_sync(ledger, 0);
    assert_eq!(response.qoder.skipped, 15);
    assert_eq!(response.qoder.errors.len(), 10);
    assert_eq!(response.qoder.errors[0], "01234567: adoption timed out");
}

#[test]
fn imported_sessions_point_back_to_their_provider() {
    let mut s = session(NativeProvider::Qoder, "native-1", 42);
    s.source_path = Some("/q/native-1.jsonl".to_owned());
    let extra = import_session(&s);
    assert_eq!(extra.text_at("backend"), Some("qoder"));
    assert_eq!(extra.text_at("workspace"), Some("/repo"));
    let native = extra.get("native_history").unwrap();
    assert_eq!(native.text_at("session_id"), Some("native-1"));
    assert_eq!(native.text_at("source_path"), Some("/q/native-1.jsonl"));
    assert_eq!(native.bool_at("imported"), Some(true));
    assert_eq!(archived_at(&s), None);
    s.archived = true;
    assert_eq!(archived_at(&s), Some(42));
    s.preview = Some("写一个登录页".to_owned());
    let row = import_message("m1".to_owned(), "c1", &s);
    assert_eq!(row.message_type, "tips");
    assert_eq!(row.created_at, 42);
    let content = Json::parse(&row.content).unwrap();
    assert_eq!(
        content.text_at("content"),
        Some("已从 Qoder 同步原生任务。历史仍由 Qoder 保存；下一条消息会直接续接原会话。\n\n最近请求：写一个登录页")
    );
    assert_eq!(content.text_at("code"), Some("NATIVE_HISTORY_IMPORTED"));
    assert_eq!(workspace_unavailable("/gone"), "workspace is unavailable: /gone");
    assert!(works_in_project_root(&s));
    s.cwd = "/repo/sub".to_owned();
    assert!(!works_in_project_root(&s));
    s.cwd = "/repo/./".to_owned();
    assert!(works_in_project_root(&s));
}

#[test]
fn folders_that_are_attached_twice_are_shared() {
    assert_eq!(bind_conversation_project(Ok("f2".to_owned()), "f1"), Ok("f2".to_owned()));
    assert_eq!(
        bind_conversation_project(Err(("project_explorer_duplicate".to_owned(), "dup".to_owned())), "f1"),
        Ok("f1".to_owned())
    );
    assert_eq!(
        bind_conversation_project(Err(("other".to_owned(), "broken".to_owned())), "f1"),
        Err("broken".to_owned())
    );
}

#[test]
fn thread_pages_are_read_until_enough_was_found() {
    let mut scan = CodexScan::begin(3);
    let (id, request) = scan.request();
    assert_eq!(id, 10);
    assert_eq!(request.get("params").unwrap().bool_at("archived"), Some(false));
    assert!(request.get("params").unwrap().get("cursor").is_none());
    let mut passing = thread("t2", "/repo");
    passing.ephemeral = true;
    let page = vec![thread("t1", "/repo"), passing, thread("t3", "/gone"), thread("t4", "  ")];
    let place = Some(("git:repo".to_owned(), "/repo".to_owned()));
    let more = scan.scan_codex_app_server(
        &page,
        &vec![place.clone(), place.clone(), None, place.clone()],
        Some("next".to_owned()),
    );
    assert!(more);
    assert_eq!(scan.found.len(), 1);
    let (id, request) = scan.request();
    assert_eq!(id, 11);
    assert_eq!(request.get("params").unwrap().text_at("cursor"), Some("next"));
    assert!(scan.scan_codex_app_server(&vec![], &vec![], None));
    assert!(scan.archived);
    assert!(!scan.scan_codex_app_server(&vec![thread("t5", "/repo")], &vec![place], None));
    let found = scan.finish();
    assert_eq!(found.len(), 2);
    assert_eq!(found[0].updated_at, 2_000);
    assert_eq!(found[0].title, "Codex t1");
    assert!(found[1].archived);
    assert!(thread_is_eligible(&thread("t1", "/repo")));
    assert_eq!(page_request_id(5), 15);
}

#[test]
fn replies_are_matched_by_their_number() {
    assert!(read_rpc_result("nonsense", 1).is_none());
    assert!(read_rpc_result(r#"{"id": 2, "result": {}}"#, 1).is_none());
    let reply = read_rpc_result(r#"{"id": 1, "error": {"code": -1}}"#, 1).unwrap();
    assert_eq!(initialize_failure(&reply).as_deref(), Some(r#"codex initialize failed: {"code":-1}"#));
    assert_eq!(thread_list_failure(&reply).as_deref(), Some(r#"codex thread/list failed: {"code":-1}"#));
    let reply = read_rpc_result(r#"{"id": 1, "result": {"data": [1], "nextCursor": "n"}}"#, 1).unwrap();
    assert!(initialize_failure(&reply).is_none());
    let (data, next) = thread_page(&reply);
    assert_eq!(data.to_text(), "[1]");
    assert_eq!(next.as_deref(), Some("n"));
    let (data, next) = thread_page(&Json::parse(r#"{"id": 1}"#).unwrap());
    assert_eq!(data.to_text(), "[]");
    assert!(next.is_none());
    assert_eq!(initialize_request().text_at("method"), Some("initialize"));
    assert_eq!(initialized_notice().to_text(), r#"{"jsonrpc":"2.0","method":"initialized"}"#);
}

#[test]
fn rollout_files_are_read_line_by_line() {
    assert_eq!(
        read_codex_meta(r#"{"type": "session_meta", "payload": {"id": "3f63c98d-2888-41d7-9e21-9facf2c5ebd3", "cwd": "/repo"}}"#),
        Some(("3f63c98d-2888-41d7-9e21-9facf2c5ebd3".to_owned(), "/repo".to_owned()))
    );
    assert_eq!(read_codex_meta(r#"{"type": "other", "payload": {"id": "x", "cwd": "/repo"}}"#), None);
    let line = r#"{"type": "response_item", "payload": {"type": "message", "role": "user", "content": [{"type": "input_text", "text": "同步旧任务并按项目分组"}]}}"#;
    assert_eq!(
        read_codex_first_user_prompt(0, line, line.len()),
        PromptStep::Found("同步旧任务并按项目分组".to_owned())
    );
    assert_eq!(read_codex_first_user_prompt(10, "noise", 5), PromptStep::Continue(15));
    assert_eq!(read_codex_first_user_prompt(10, "", 0), PromptStep::Stop);
    assert_eq!(read_codex_first_user_prompt(1024 * 1024 - 1, "noise", 5), PromptStep::Stop);
    let read = read_codex_file_metadata(
        "3f63c98d-2888-41d7-9e21-9facf2c5ebd3".to_owned(),
        "/repo".to_owned(),
        Some("同步旧任务并按项目分组".to_owned()),
        Some("rollout-2026-09-03T10-20-30-session"),
        "/s/rollout-2026-09-03T10-20-30-session.jsonl",
        5,
        false,
        "git:repo",
        "/repo",
    );
    assert_eq!(read.provider, NativeProvider::Codex);
    assert_eq!(read.title, "同步旧任务并按项目分组");
    assert_eq!(read.cwd, "/repo");
    assert_eq!(read.source_path.as_deref(), Some("/s/rollout-2026-09-03T10-20-30-session.jsonl"));
    let untitled = read_codex_file_metadata(
        "id".to_owned(),
        "/repo".to_owned(),
        None,
        Some("rollout-2026-09-03T10-20-30-session"),
        "/s/x.jsonl",
        5,
        true,
        "git:repo",
        "/repo",
    );
    assert_eq!(untitled.title, "Codex 2026-09-03 10-20");
}

#[test]
fn newest_files_are_read_first() {
    let mut scan = CodexFileScan::begin(&vec![5, 9, 7], 2);
    assert_eq!(scan.next(), Some(1));
    scan.scan_codex_files_blocking(None);
    assert_eq!(scan.next(), Some(2));
    scan.scan_codex_files_blocking(Some(session(NativeProvider::Codex, "a", 7)));
    assert_eq!(scan.next(), Some(0));
    scan.scan_codex_files_blocking(Some(session(NativeProvider::Codex, "b", 5)));
    assert_eq!(scan.next(), None);
    assert_eq!(scan.found.len(), 2);
}

#[test]
fn projects_are_filled_up_to_the_limit() {
    let file = |id: &str, at: i64| QoderSessionFile { id: id.to_owned(), path: format!("/q/{id}"), updated_at: at };
    let candidates = vec![
        QoderProjectCandidate { workspace: "/old".to_owned(), sessions: vec![file("o1", 1), file("o2", 2)] },
        QoderProjectCandidate { workspace: "/new".to_owned(), sessions: vec![file("n1", 3), file("n2", 9)] },
    ];
    let picked = scan_qoder(&candidates, 3);
    assert_eq!(picked.len(), 2);
    assert_eq!(picked[0].workspace, "/new");
    assert_eq!(picked[0].sessions[0].id, "n2");
    assert_eq!(picked[1].sessions.len(), 1);
    assert_eq!(picked[1].sessions[0].id, "o2");
    assert_eq!(scan_qoder(&candidates, 0).len(), 0);
    let mut titles = QoderTitles::new();
    titles.insert("n2".to_owned(), "Fix login".to_owned());
    let found = scan_qoder_project(&picked[0], &titles, "git:new", "/new");
    assert_eq!(found[0].title, "Fix login");
    assert_eq!(found[1].title, "Qoder n1");
    assert_eq!(found[1].preview.as_deref(), Some("Qoder n1"));
    assert_eq!(newest(&found, 1).len(), 1);
}

#[test]
fn only_named_session_files_count() {
    assert!(session_file("/q/3f63c98d-2888-41d7-9e21-9facf2c5ebd3.jsonl", 4).is_some());
    assert!(session_file("/q/3f63c98d-2888-41d7-9e21-9facf2c5ebd3.json", 4).is_none());
    assert!(session_file("/q/notes.jsonl", 4).is_none());
}

#[test]
fn encoded_workspaces_are_found_without_guessing_hyphens() {
    // /home/my-app exists beside /home/my, which has no app below it.
    let mut search = WorkspaceSearch::begin("-home-my-app");
    let mut found = None;
    let mut steps = 0;
    loop {
        steps += 1;
        assert!(steps < 20);
        match search.resolve_qoder_workspace() {
            SearchAction::Check(path) => {
                found = Some(path);
                break;
            }
            SearchAction::List(frame) => {
                let names: Vec<String> = match frame.path.as_str() {
                    "/" => vec!["etc".to_owned(), "home".to_owned()],
                    "/home" => vec!["my".to_owned(), "my-app".to_owned(), "my-ap".to_owned()],
                    _ => vec!["other".to_owned()],
                };
                search.listed(&frame, &names);
            }
            SearchAction::NotFound => break,
        }
    }
    assert_eq!(found.as_deref(), Some("/home/my-app"));
    let mut search = WorkspaceSearch::begin("home");
    assert!(matches!(search.resolve_qoder_workspace(), SearchAction::NotFound));
}

#[test]
fn projects_are_told_apart_by_their_origin() {
    let facts = |origin: Option<&str>| RepositoryFacts {
        workdir: Some("/work/tree".to_owned()),
        common_dir: "/main/repo/.git/".to_owned(),
        origin: origin.map(str::to_owned),
    };
    assert_eq!(project_identity(&facts(Some("git@example.com:team/app.git/"))), "git:git@example.com:team/app");
    assert_eq!(project_identity(&facts(Some("https://example.com/team/app"))), "git:https://example.com/team/app");
    for url in ["https://x.org/app", "https://x.org/app/", "https://x.org/app.git", "https://x.org/app.git/"] {
        assert_eq!(project_identity(&facts(Some(url))), "git:https://x.org/app");
    }
    assert_eq!(project_identity(&facts(Some(".git"))), "gitdir:/main/repo/.git/");
    assert_eq!(project_identity(&facts(None)), "gitdir:/main/repo/.git/");
    assert_eq!(main_root_candidate(&facts(None)).as_deref(), Some("/main/repo"));
    assert_eq!(project_root("/work/tree/sub", &facts(None), true), "/main/repo");
    assert_eq!(project_root("/work/tree/sub", &facts(None), false), "/work/tree");
    let bare = RepositoryFacts { workdir: None, common_dir: "/srv/app.git".to_owned(), origin: None };
    assert_eq!(main_root_candidate(&bare), None);
    assert_eq!(project_root("/srv/app.git", &bare, true), "/srv/app.git");
    assert_eq!(path_key("/plain"), "path:/plain");
}

#[test]
fn paths_are_taken_apart() {
    assert_eq!(file_name("/a/b/").as_deref(), Some("b"));
    assert_eq!(file_name("/a/..").as_deref(), None);
    assert_eq!(parent_dir("/a/b/c"), "/a/b");
    assert_eq!(parent_dir("/a"), "/");
    assert!(same_path("/a//b/./c", "/a/b/c/"));
    assert!(!same_path("/a/b", "a/b"));
    assert_eq!(join_path("/a/", "b"), "/a/b");
    assert_eq!(file_stem("/a/x.tar.gz").as_deref(), Some("x.tar"));
    assert_eq!(extension("/a/x.tar.gz").as_deref(), Some("gz"));
    assert_eq!(file_stem("/a/.hidden").as_deref(), Some(".hidden"));
    assert_eq!(extension("/a/.hidden"), None);
}
