use std::collections::HashMap;

use aionui_steward::prompts::{
    build_lead_prompt, build_teammate_prompt, AvailableAssistant, LeadPromptParams, TeamPromptAgent, TeamPromptRole,
    TeammatePromptParams,
};

const GOVERNANCE: &str = "## Team Governance\n\nWork within the rules of the team.\n\n";
const TOOL_USAGE: &str = "You MUST use the `team_*` MCP tools for ALL team coordination.";

fn prompt_agent(slot_id: &str, name: &str, role: TeamPromptRole) -> TeamPromptAgent {
    TeamPromptAgent {
        slot_id: slot_id.to_owned(),
        name: name.to_owned(),
        role,
        backend: "codex".to_owned(),
        model: "sonnet".to_owned(),
        status: None,
    }
}

#[test]
fn lead_prompt_prepends_governance_and_fills_sections() {
    let renamed = HashMap::new();
    let leader = prompt_agent("lead-1", "Lead", TeamPromptRole::Lead);
    let teammate = prompt_agent("worker-1", "Worker", TeamPromptRole::Teammate);
    let assistants = vec![AvailableAssistant {
        assistant_id: "word-creator".to_owned(),
        name: "Word Creator".to_owned(),
        backend: "codex".to_owned(),
        description: "Drafts documents".to_owned(),
        skills: vec!["docx".to_owned()],
        worker_profiles: vec![],
    }];
    let prompt = build_lead_prompt(&LeadPromptParams {
        agent: &leader,
        team_name: "Alpha",
        teammates: &[teammate],
        available_agent_types: &[],
        available_assistants: &assistants,
        renamed_agents: &renamed,
        team_workspace: None,
        tool_usage: TOOL_USAGE,
        governance: GOVERNANCE,
    });

    assert!(prompt.starts_with("## Team Governance"));
    assert!(prompt.contains("Name: Lead"));
    assert!(prompt.contains("Slot ID: lead-1"));
    assert!(prompt.contains("Role: lead"));
    assert!(!prompt.contains("## Your Teammates"));
    assert!(!prompt.contains("## Available Assistants for Spawning"));
    assert!(!prompt.contains("- Worker (codex, status: unknown)"));
    assert!(prompt.to_lowercase().contains("first team-capable turn"));
    assert!(prompt.contains("team_members"));
    assert!(prompt.contains("team_list_assistants"));
    assert!(prompt.contains("Once workers exist, call `team_read_messages`"));
    assert!(prompt.contains("`next_since_message_id`"));
    assert!(prompt.contains("Solve requests directly by default"));
    assert!(prompt.contains("Do not ask for a separate team-mode confirmation"));
    assert!(!prompt.contains("${"));
}

#[test]
fn teammate_prompt_contains_canonical_coordination_rules() {
    let leader = prompt_agent("lead-1", "Lead", TeamPromptRole::Lead);
    let worker = prompt_agent("worker-1", "Worker", TeamPromptRole::Teammate);
    let prompt = build_teammate_prompt(&TeammatePromptParams {
        agent: &worker,
        team_name: "Alpha",
        leader: &leader,
        teammates: &[],
        renamed_agents: &HashMap::new(),
        team_workspace: None,
        tool_usage: TOOL_USAGE,
        governance: GOVERNANCE,
    });

    assert!(prompt.contains("## Team Governance"));
    assert!(prompt.contains("Name: Worker"));
    assert!(prompt.contains("Slot ID: worker-1"));
    assert!(prompt.contains("Role: teammate"));
    assert!(!prompt.contains("Role: general-purpose AI assistant"));
    assert!(prompt.contains("You MUST use the `team_*` MCP tools for ALL team coordination."));
    assert!(prompt.contains("Use team_send_message to report results to the leader slot_id"));
    assert!(prompt.contains("Leader: Lead (slot_id: lead-1)"));
    assert!(prompt.contains("Display names are only for user-facing text"));
    assert!(prompt.contains("Never pass display names as agent targets"));
    assert!(prompt.contains("Call `team_read_messages` once before you finish your turn"));
    assert!(prompt.contains("`content_truncated: true`"));
    assert!(prompt.contains("STOP GENERATING"));
    assert!(!prompt.contains("Teammates: Worker"));
}

#[test]
fn workspace_is_named_only_where_the_team_has_one() {
    let renamed = HashMap::new();
    let leader = prompt_agent("lead-1", "Lead", TeamPromptRole::Lead);
    let prompt = build_lead_prompt(&LeadPromptParams {
        agent: &leader,
        team_name: "Alpha",
        teammates: &[],
        available_agent_types: &[],
        available_assistants: &[],
        renamed_agents: &renamed,
        team_workspace: Some("/repo/alpha"),
        tool_usage: TOOL_USAGE,
        governance: GOVERNANCE,
    });
    assert!(prompt.contains("## Team Workspace\nYour working directory `/repo/alpha`"));
    assert!(!prompt.contains("{{"));
}
