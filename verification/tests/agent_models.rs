use aionui_steward::acp::TryConnectCustomAgentResponse;
use aionui_steward::json::Json;
use aionui_steward::models::{
    attach_model_context_windows, attach_model_reasoning_efforts, catalog_failure, catalog_request_line,
    parse_qoder_native_model_catalog, probe_qoder_native_model_catalog, AgentHandshake, CatalogFailure, CatalogStep,
    ContextCatalog, EffortCatalog, QoderModelContextConfig,
};
use aionui_steward::probe::{
    first_token, native_catalog_command, run_handshake, spawn_probe_process, step_timeout, try_connect_custom_agent,
    try_connect_custom_agent_with_catalog, try_connect_custom_agent_with_model_reasoning_catalog,
    wants_native_catalog, HandshakeEvent, ProbeEvent, ProbeOutcome,
};
use aionui_steward::reasoning::{
    current_model_from_config_options, model_ids_in_probe_order, reasoning_efforts_from_config_options,
    LegacyModelEntry, LegacySessionModelState, ReasoningAction, ReasoningEvent, ReasoningProbe, SessionConfigOption,
    SessionConfigOptionCategory, SessionConfigSelect, SessionConfigSelectGroup, SessionConfigSelectOption,
    SessionConfigSelectOptions,
};

fn json(text: &str) -> Json {
    Json::parse(text).expect("valid JSON")
}

fn choice(value: &str, name: &str) -> SessionConfigSelectOption {
    SessionConfigSelectOption { value: value.to_owned(), name: name.to_owned() }
}

fn select(
    id: &str,
    name: &str,
    current: &str,
    options: SessionConfigSelectOptions,
    category: SessionConfigOptionCategory,
) -> SessionConfigOption {
    SessionConfigOption {
        id: id.to_owned(),
        name: name.to_owned(),
        category: Some(category),
        select: Some(SessionConfigSelect { current_value: current.to_owned(), options }),
    }
}

fn model(id: &str, name: &str) -> LegacyModelEntry {
    LegacyModelEntry { model_id: id.to_owned(), name: name.to_owned() }
}

fn listed(handshake: &AgentHandshake) -> &Vec<Json> {
    handshake
        .available_models
        .as_ref()
        .expect("models")
        .get("available_models")
        .and_then(Json::as_array)
        .expect("a list")
}

const CATALOG: &str = r#"{
    "type": "control_response",
    "response": {
        "subtype": "success",
        "request_id": "aionui-model-catalog",
        "response": {
            "models": [
                {
                    "modelId": "ultimate",
                    "availableContextWindows": [200000, 400000, 1000000, 400000],
                    "defaultContextWindow": 200000
                },
                {
                    "modelId": "kmodel",
                    "availableContextWindows": [256000],
                    "defaultContextWindow": 256000
                },
                {
                    "modelId": "missing-metadata"
                }
            ]
        }
    }
}"#;

#[test]
fn parses_qoder_native_context_windows_per_model() {
    let response = json(CATALOG);

    let catalog = parse_qoder_native_model_catalog(&response).expect("native catalog");

    assert_eq!(catalog.get("ultimate").unwrap().windows, vec![200_000, 400_000, 1_000_000]);
    assert_eq!(catalog.get("ultimate").unwrap().default_window, Some(200_000));
    assert_eq!(catalog.get("kmodel").unwrap().windows, vec![256_000]);
    assert!(catalog.get("missing-metadata").is_none());
}

#[test]
fn attaches_qoder_context_windows_without_inventing_missing_models() {
    let mut handshake = AgentHandshake {
        available_models: Some(json(
            r#"{"available_models": [{"id": "ultimate", "label": "Ultimate"}, {"id": "unknown", "label": "Unknown"}]}"#,
        )),
    };
    let mut catalog = ContextCatalog::new();
    catalog.insert(
        "ultimate".to_owned(),
        QoderModelContextConfig { windows: vec![200_000, 400_000, 1_000_000], default_window: Some(200_000) },
    );

    attach_model_context_windows(&mut handshake, &catalog);

    let models = listed(&handshake);
    assert_eq!(models[0].get("available_context_windows"), Some(&json("[200000, 400000, 1000000]")));
    assert_eq!(models[0].get("default_context_window"), Some(&json("200000")));
    assert!(models[1].get("available_context_windows").is_none());
    assert_eq!(models.len(), 2);
}

#[test]
fn extracts_reasoning_efforts_from_the_current_model_config() {
    let options = vec![
        select(
            "model",
            "Model",
            "qmodel_38max",
            SessionConfigSelectOptions::Ungrouped(vec![choice("qmodel_38max", "Qwen3.8-Max")]),
            SessionConfigOptionCategory::Model,
        ),
        select(
            "reasoning_effort",
            "Reasoning",
            "medium",
            SessionConfigSelectOptions::Ungrouped(vec![
                choice("xhigh", "Extra High"),
                choice("medium", "Medium"),
                choice("low", "Low"),
                choice("none", "None"),
            ]),
            SessionConfigOptionCategory::ThoughtLevel,
        ),
    ];

    assert_eq!(
        current_model_from_config_options(&options).as_deref(),
        Some("qmodel_38max")
    );
    assert_eq!(
        reasoning_efforts_from_config_options(&options),
        vec!["xhigh", "medium", "low", "none"]
    );
}

#[test]
fn extracts_grouped_reasoning_efforts_and_preserves_known_empty_models() {
    let grouped = vec![select(
        "reasoning_effort",
        "Reasoning",
        "high",
        SessionConfigSelectOptions::Grouped(vec![SessionConfigSelectGroup {
            group: "levels".to_owned(),
            name: "Levels".to_owned(),
            options: vec![choice("max", "Max"), choice("high", "High")],
        }]),
        SessionConfigOptionCategory::ThoughtLevel,
    )];
    assert_eq!(reasoning_efforts_from_config_options(&grouped), vec!["max", "high"]);

    let mut handshake = AgentHandshake {
        available_models: Some(json(
            r#"{"available_models": [{"id": "gmodel", "label": "GLM-5.3"}, {"id": "lite", "label": "Lite"}]}"#,
        )),
    };
    let mut catalog = EffortCatalog::new();
    catalog.insert("gmodel".to_owned(), vec!["max".to_owned(), "high".to_owned()]);
    catalog.insert("lite".to_owned(), Vec::new());
    attach_model_reasoning_efforts(&mut handshake, &catalog);

    let models = listed(&handshake);
    assert_eq!(models[0].get("reasoning_efforts"), Some(&json(r#"["max", "high"]"#)));
    assert_eq!(models[1].get("reasoning_efforts"), Some(&json("[]")));
}

#[test]
fn probes_the_current_model_last() {
    let models = LegacySessionModelState {
        current_model_id: "auto".to_owned(),
        available_models: vec![model("auto", "Auto"), model("fast", "Fast"), model("deep", "Deep")],
    };

    assert_eq!(model_ids_in_probe_order(&models), vec!["fast", "deep", "auto"]);
}

#[test]
fn catalog_lines_are_skipped_until_the_answer() {
    assert!(matches!(probe_qoder_native_model_catalog("not json"), CatalogStep::Skip));
    assert!(matches!(
        probe_qoder_native_model_catalog(r#"{"type": "control_response", "response": {"request_id": "other"}}"#),
        CatalogStep::Skip
    ));
    let failed = r#"{"type": "control_response", "response": {"request_id": "aionui-model-catalog", "subtype": "error", "error": "no account"}}"#;
    assert!(matches!(probe_qoder_native_model_catalog(failed), CatalogStep::Done(Err(e)) if e == "no account"));
    let silent = r#"{"type": "control_response", "response": {"request_id": "aionui-model-catalog", "subtype": "error"}}"#;
    assert!(matches!(
        probe_qoder_native_model_catalog(silent),
        CatalogStep::Done(Err(e)) if e == "Qoder native catalog request failed"
    ));
    assert!(matches!(probe_qoder_native_model_catalog(CATALOG), CatalogStep::Done(Ok(_))));
}

#[test]
fn catalog_without_sizes_is_an_error() {
    let none = json(r#"{"response": {"response": {}}}"#);
    assert_eq!(
        parse_qoder_native_model_catalog(&none).err().as_deref(),
        Some("Qoder native catalog response did not contain models")
    );
    let bare = json(
        r#"{"response": {"response": {"models": [{"modelId": "a", "availableContextWindows": [0, -5, "x"]}, {"modelId": "", "availableContextWindows": [5]}]}}}"#,
    );
    assert_eq!(
        parse_qoder_native_model_catalog(&bare).err().as_deref(),
        Some("Qoder native catalog contained no context-window metadata")
    );
    let odd = json(r#"{"response": {"response": {"models": [{"value": "a", "available_context_windows": [5], "default_context_window": 6}]}}}"#);
    let catalog = parse_qoder_native_model_catalog(&odd).unwrap();
    assert_eq!(catalog.get("a").unwrap().default_window, None);
}

#[test]
fn catalog_request_is_one_line() {
    let line = catalog_request_line();
    assert!(line.ends_with('\n'));
    let request = Json::parse(&line).unwrap();
    assert_eq!(request.text_at("request_id"), Some("aionui-model-catalog"));
    assert_eq!(request.get("request").unwrap().bool_at("supportsCatalogReadyInitialize"), Some(true));
    assert_eq!(
        catalog_failure(&CatalogFailure::TimedOut),
        "Qoder native catalog did not complete within 60s"
    );
    assert_eq!(catalog_failure(&CatalogFailure::WriteFailed("broken pipe".to_owned())), "write initialize request failed: broken pipe");
    assert_eq!(catalog_failure(&CatalogFailure::Ended), "Qoder native catalog response ended before initialize completed");
}

#[test]
fn commands_are_put_together_in_order() {
    assert_eq!(first_token("  npx  some-agent --acp"), "npx");
    assert_eq!(first_token("   "), "   ");
    let prefix = vec!["exec".to_owned()];
    let args = vec!["--acp".to_owned(), "-v".to_owned()];
    let env = vec![("A".to_owned(), "1".to_owned())];
    let runtime = vec![("PATH".to_owned(), "/bin".to_owned())];
    let command = spawn_probe_process("/usr/bin/npm", &prefix, &args, &env, &runtime, "/tmp");
    assert_eq!(command.args, vec!["exec", "--acp", "-v"]);
    assert_eq!(command.env[0].name, "A");
    assert_eq!(command.env[1].value, "/bin");
    assert_eq!(command.cwd.as_deref(), Some("/tmp"));
    let native = native_catalog_command("/usr/bin/npm", &prefix, &args, &env, &runtime, "/tmp");
    assert_eq!(&native.args[..3], &["exec", "-v", "-p"]);
    assert!(!native.args.contains(&"--acp".to_owned()));
    assert_eq!(native.args.len(), 13);
    assert_eq!(native.args[12], "");
}

#[test]
fn attempts_are_answered_by_how_far_they_came() {
    assert_eq!(
        try_connect_custom_agent(ProbeEvent::CommandMissing("nope was not found".to_owned())),
        TryConnectCustomAgentResponse::FailCli { error: "nope was not found".to_owned() }
    );
    assert_eq!(
        try_connect_custom_agent(ProbeEvent::SpawnFailed("denied".to_owned())),
        TryConnectCustomAgentResponse::FailAcp { error: "spawn failed: denied".to_owned() }
    );
    assert_eq!(
        try_connect_custom_agent_with_catalog(ProbeEvent::TimedOut, true).0,
        TryConnectCustomAgentResponse::FailAcp { error: "ACP handshake did not complete within 120s".to_owned() }
    );
    assert_eq!(
        try_connect_custom_agent(ProbeEvent::TimedOut),
        TryConnectCustomAgentResponse::FailAcp { error: "ACP handshake did not complete within 35s".to_owned() }
    );
    assert_eq!(step_timeout(true), 120);
    assert_eq!(
        try_connect_custom_agent(ProbeEvent::Concluded(run_handshake(HandshakeEvent::AuthRequired))),
        TryConnectCustomAgentResponse::FailAuth {
            error: "Agent reachable but requires login/authorization".to_owned()
        }
    );
    assert!(wants_native_catalog(true, &TryConnectCustomAgentResponse::Success));
    assert!(!wants_native_catalog(false, &TryConnectCustomAgentResponse::Success));
}

#[test]
fn programs_that_end_early_are_quoted() {
    let quiet = run_handshake(HandshakeEvent::Exited { status: None, stderr: "  \n".to_owned() });
    assert!(matches!(quiet, ProbeOutcome::Fail(e) if e == "CLI exited before ACP initialize completed (status=unknown)"));
    let loud = run_handshake(HandshakeEvent::Exited {
        status: Some("exit status: 1".to_owned()),
        stderr: " no such option\n".to_owned(),
    });
    assert!(matches!(
        loud,
        ProbeOutcome::Fail(e) if e == "CLI exited before ACP initialize completed (status=exit status: 1): no such option"
    ));
    assert!(matches!(
        run_handshake(HandshakeEvent::InitializeFailed("bad frame".to_owned())),
        ProbeOutcome::Fail(e) if e == "ACP initialize failed: bad frame"
    ));
    assert!(matches!(
        run_handshake(HandshakeEvent::SessionFailed("closed".to_owned())),
        ProbeOutcome::Fail(e) if e == "ACP session/new failed: closed"
    ));
    assert!(matches!(
        run_handshake(HandshakeEvent::NoStdio),
        ProbeOutcome::Fail(e) if e == "stdio not available after spawn_for_sdk"
    ));
}

#[test]
fn what_is_known_is_added_and_a_failed_question_changes_nothing() {
    let told = AgentHandshake { available_models: Some(json(r#"{"available_models": [{"id": "a"}]}"#)) };
    let mut efforts = EffortCatalog::new();
    efforts.insert("a".to_owned(), vec!["low".to_owned()]);
    let outcome = run_handshake(HandshakeEvent::SessionOpened { partial: Some(told), efforts });
    let (response, handshake) = outcome.into_response();
    assert_eq!(response, TryConnectCustomAgentResponse::Success);
    let handshake = try_connect_custom_agent_with_model_reasoning_catalog(handshake, &Err("timed out".to_owned()));
    let handshake = handshake.unwrap();
    assert_eq!(listed(&handshake)[0].get("reasoning_efforts"), Some(&json(r#"["low"]"#)));
    assert!(listed(&handshake)[0].get("available_context_windows").is_none());
}

#[test]
fn only_what_speaks_of_the_model_counts() {
    let models = LegacySessionModelState {
        current_model_id: "auto".to_owned(),
        available_models: vec![model("auto", "Auto"), model("fast", "Fast")],
    };
    let mut probe = ReasoningProbe::begin(Some(&models));
    assert!(matches!(probe.first(), ReasoningAction::SetModel(m) if m == "fast"));
    assert!(matches!(probe.probe_model_reasoning_efforts(&ReasoningEvent::ModelSet), ReasoningAction::Wait));
    let about_auto = vec![select(
        "models",
        "Model",
        "auto",
        SessionConfigSelectOptions::Ungrouped(vec![]),
        SessionConfigOptionCategory::Other,
    )];
    assert!(matches!(
        probe.probe_model_reasoning_efforts(&ReasoningEvent::Options(about_auto.clone())),
        ReasoningAction::Wait
    ));
    assert!(matches!(
        probe.probe_model_reasoning_efforts(&ReasoningEvent::TimedOut),
        ReasoningAction::SetModel(m) if m == "auto"
    ));
    assert!(matches!(
        probe.probe_model_reasoning_efforts(&ReasoningEvent::Options(about_auto)),
        ReasoningAction::Done
    ));
    assert_eq!(probe.catalog.get("auto"), Some(&Vec::new()));
    assert!(probe.catalog.get("fast").is_none());
    assert!(matches!(ReasoningProbe::begin(None).first(), ReasoningAction::Done));
}
