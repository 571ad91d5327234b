use std::collections::BTreeMap;

use aionui_steward::isolation::{
    default_keychain_command, digest_scope, ensure_link, isolation_io_error, keychain_failure, login_keychain,
    plan_layout, preferences_dir, prepare, prepare_with_home, stable_user_scope, supports_isolation, AgentError,
    AuthKind, LinkAction, LinkState, StewardIsolation,
};
use aionui_steward::setup::{setup_step, SetupSeen, SetupStep};
use aionui_steward::launch::{upsert_pair, CommandSpec, EnvVar};

fn var(name: &str, value: &str) -> EnvVar {
    EnvVar { name: name.to_owned(), value: value.to_owned() }
}

#[test]
fn scopes_are_the_first_digits_of_the_digest() {
    // The digest of "abc" begins with ba7816bf 8f01cfea 414140de.
    assert_eq!(stable_user_scope("abc"), "ba7816bf8f01cfea414140de");
    assert_eq!(stable_user_scope("user/../one").len(), 24);
    assert!(stable_user_scope("user/../one").chars().all(|c| c.is_ascii_hexdigit()));
    assert_ne!(stable_user_scope("user-1"), stable_user_scope("user-2"));
    let digest: Vec<u8> = (0u8..32).collect();
    assert_eq!(digest_scope(&digest), "000102030405060708090a0b");
}

#[test]
fn planning_twice_gives_the_same_private_home() {
    let first = prepare_with_home("/data", "user/../one", "codex", "/home/operator").unwrap();
    let second = prepare_with_home("/data", "user/../one", "codex", "/home/operator").unwrap();
    assert_eq!(first.finish(AuthKind::File), second.finish(AuthKind::File));
    let isolation = first.finish(AuthKind::File);
    assert!(isolation.auth_linked());
    assert!(isolation.workspace_dir.starts_with("/data/steward-runtime/"));
    assert!(!isolation.workspace_dir.contains("user/../one"));
    let link = first.auth_link(AuthKind::File).unwrap();
    assert_eq!(link.source, "/home/operator/.codex/auth.json");
    assert_eq!(link.destination, format!("{}/auth.json", isolation.config_dir));
    assert!(!link.is_dir);
    assert_eq!(first.skills_link.source, isolation.skills_dir);
    assert_eq!(first.skills_link.destination, format!("{}/skills", isolation.config_dir));
    assert_eq!(first.directories.len(), 4);
}

#[test]
fn private_commands_use_their_own_home_and_configuration() {
    let plan = prepare_with_home("/data", "user-1", "qoder", "/home/operator").unwrap();
    let isolation = plan.finish(AuthKind::Directory);
    let mut command = CommandSpec { command: String::new(), args: Vec::new(), env: Vec::new(), cwd: None };

    isolation.apply_to_acp_command(&mut command);

    assert_eq!(command.cwd.as_deref(), Some(isolation.workspace().as_str()));
    assert_eq!(command.args, vec!["--config-dir", isolation.config_dir.as_str()]);
    assert!(command.env.iter().any(|entry| entry.name == "HOME" && entry.value == isolation.home_dir));
    assert!(command.env.iter().all(|entry| entry.name != "CODEX_HOME"));
    assert!(plan.auth_link(AuthKind::Directory).unwrap().is_dir);
    assert_eq!(plan.source_auth, "/home/operator/.qoder/.auth");
}

#[test]
fn nothing_that_stands_in_the_way_is_overwritten() {
    let plan = prepare_with_home("/data", "user-1", "qoder", "/home/operator").unwrap();
    let link = plan.auth_link(AuthKind::Directory).unwrap();
    assert_eq!(ensure_link(&link, &LinkState::Absent), Ok(LinkAction::Create));
    assert_eq!(ensure_link(&link, &LinkState::LinkTo(link.source.clone())), Ok(LinkAction::Keep));
    assert_eq!(
        ensure_link(&link, &LinkState::NotALink),
        Err(AgentError::Conflict(format!(
            "steward isolation path already exists and is not a link: {}",
            link.destination
        )))
    );
    assert_eq!(
        ensure_link(&link, &LinkState::LinkTo("/elsewhere".to_owned())),
        Err(AgentError::Conflict(format!(
            "steward isolation link points to an unexpected target: {}",
            link.destination
        )))
    );
}

#[derive(Debug, Clone, PartialEq)]
enum Entry {
    File,
    Directory,
    Link(String),
}

fn set_up(paths: &mut BTreeMap<String, Entry>, backend: &str) -> Result<StewardIsolation, AgentError> {
    let plan = prepare_with_home("/data", "user-1", backend, "/home/operator")?;
    let mut step = SetupStep::MakeDirectories { plan };
    loop {
        let state = |paths: &BTreeMap<String, Entry>, path: &str| match paths.get(path) {
            None => LinkState::Absent,
            Some(Entry::Link(target)) => LinkState::LinkTo(target.clone()),
            Some(_) => LinkState::NotALink,
        };
        let seen = match &step {
            SetupStep::MakeDirectories { plan } => {
                for directory in &plan.directories {
                    paths.entry(directory.clone()).or_insert(Entry::Directory);
                }
                SetupSeen::Done
            }
            SetupStep::SetKeychain { .. } => SetupSeen::Done,
            SetupStep::LookAtSkills { plan } => SetupSeen::Link(state(paths, &plan.skills_link.destination)),
            SetupStep::LookAtAuthLink { link, .. } => SetupSeen::Link(state(paths, &link.destination)),
            SetupStep::LinkSkills { plan } => {
                let link = &plan.skills_link;
                paths.insert(link.destination.clone(), Entry::Link(link.source.clone()));
                SetupSeen::Done
            }
            SetupStep::LinkAuth { link, .. } => {
                paths.insert(link.destination.clone(), Entry::Link(link.source.clone()));
                SetupSeen::Done
            }
            SetupStep::LookAtAuth { plan } => SetupSeen::Auth(match paths.get(&plan.source_auth) {
                Some(Entry::File) => AuthKind::File,
                Some(Entry::Directory) => AuthKind::Directory,
                _ => AuthKind::Missing,
            }),
            SetupStep::Finish { isolation } => return Ok(isolation.copy()),
            SetupStep::Fail { error } => return Err(error.clone()),
        };
        step = setup_step(step, seen);
    }
}

#[test]
fn setting_up_twice_is_setting_up_once() {
    let mut paths = BTreeMap::new();
    paths.insert("/home/operator/.codex/auth.json".to_owned(), Entry::File);
    let first = set_up(&mut paths, "codex").unwrap();
    let after = paths.clone();
    let second = set_up(&mut paths, "codex").unwrap();
    assert_eq!(first, second);
    assert_eq!(paths, after);
    assert!(first.auth_linked);
    let at = |name: &str| paths.get(&format!("{}/{name}", first.config_dir)).cloned();
    assert_eq!(at("auth.json"), Some(Entry::Link("/home/operator/.codex/auth.json".to_owned())));
    assert_eq!(at("skills"), Some(Entry::Link(first.skills_dir.clone())));
    assert_eq!(at("config.toml"), None);
    assert!(first.workspace_dir.starts_with("/data/steward-runtime/"));
}

#[test]
fn setting_up_stops_before_what_stands_in_the_way() {
    let mut paths = BTreeMap::new();
    paths.insert("/home/operator/.qoder/.auth".to_owned(), Entry::Directory);
    let plan = prepare_with_home("/data", "user-1", "qoder", "/home/operator").unwrap();
    paths.insert(plan.isolated_auth.clone(), Entry::File);
    assert!(matches!(set_up(&mut paths, "qoder"), Err(AgentError::Conflict(_))));
    assert_eq!(paths.get(&plan.isolated_auth), Some(&Entry::File));
    let mut empty = BTreeMap::new();
    assert!(!set_up(&mut empty, "qoder").unwrap().auth_linked);
    assert!(!empty.contains_key(&plan.isolated_auth));
}

#[test]
fn missing_authentication_keeps_the_isolation_unlinked() {
    let plan = prepare_with_home("/data", "user-1", "codex", "/home/operator").unwrap();
    assert!(plan.auth_link(AuthKind::Missing).is_none());
    let isolation = plan.finish(AuthKind::Missing);
    assert!(!isolation.auth_linked());
    assert!(isolation.skills_dir.ends_with("/workspace/skills"));
}

#[test]
fn only_two_kinds_of_agents_are_isolated() {
    assert!(supports_isolation("codex") && supports_isolation("qoder"));
    assert!(matches!(prepare("/data", "user-1", "gemini", Some("/home/operator")), Ok(None)));
    assert_eq!(
        prepare("/data", "user-1", "codex", None).err(),
        Some(AgentError::Internal(
            "cannot resolve the user home needed for steward authentication".to_owned()
        ))
    );
    assert_eq!(
        prepare_with_home("/data", "user-1", "gemini", "/home/operator").err(),
        Some(AgentError::BadRequest("unsupported steward isolation backend".to_owned()))
    );
    assert_eq!(plan_layout("/r", "codex", "/h").isolation.config_dir, "/r/home/.codex");
    assert_eq!(plan_layout("/r", "qoder", "/h").isolated_auth, "/r/home/.qoder/.auth");
}

#[test]
fn variables_are_replaced_and_others_kept() {
    let mut env = vec![var("HOME", "/old"), var("LANG", "C"), var("HOME", "/older")];
    upsert_pair(&mut env, "HOME", "/new".to_owned());
    let pairs: Vec<(String, String)> = env.iter().map(|v| (v.name.clone(), v.value.clone())).collect();
    assert_eq!(
        pairs,
        vec![("LANG".to_owned(), "C".to_owned()), ("HOME".to_owned(), "/new".to_owned())]
    );
    let isolation = plan_layout("/r", "codex", "/h").finish(AuthKind::File);
    isolation.append_spawn_env(&mut env);
    assert_eq!(env.iter().filter(|v| v.name == "HOME").count(), 1);
    assert!(env.iter().any(|v| v.name == "CODEX_HOME" && v.value == "/r/home/.codex"));
    assert_eq!(env.last().unwrap().name, "AIONUI_STEWARD_SKILLS_DIR");
}

#[test]
fn the_steward_is_told_where_its_skills_are() {
    let isolation = plan_layout("/r", "codex", "/h").finish(AuthKind::File);
    let text = isolation.extend_preset_context(Some("Be brief.".to_owned()));
    assert!(text.starts_with("Be brief.\n\n[Steward Isolated Runtime]\n"));
    assert!(text.contains("live under `/r/workspace/skills`. When"));
    assert!(isolation.extend_preset_context(None).starts_with("\n\n[Steward"));
}

#[test]
fn errors_say_what_was_attempted() {
    assert_eq!(
        isolation_io_error("create link", "/r/x", "denied"),
        AgentError::Internal("failed to create link for steward isolation at /r/x: denied".to_owned())
    );
    assert_eq!(login_keychain("/Users/a"), "/Users/a/Library/Keychains/login.keychain-db");
    assert_eq!(preferences_dir("/r/home"), "/r/home/Library/Preferences");
    let command = default_keychain_command("/r/home", "/k");
    assert_eq!(command.args, vec!["default-keychain", "-d", "user", "-s", "/k"]);
    assert_eq!(
        keychain_failure(" \n", "exit status: 1"),
        AgentError::Internal("failed to configure the steward macOS default keychain: exit status: 1".to_owned())
    );
    assert_eq!(
        keychain_failure(" locked \n", "exit status: 1"),
        AgentError::Internal("failed to configure the steward macOS default keychain: locked".to_owned())
    );
}
