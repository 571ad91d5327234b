//! The prompts of a team's leader and of its members.
use std::collections::HashMap;
use vstd::prelude::*;
use crate::display::concat3;
use crate::text::{has_text, law_every_place_is_replaced, occurs_at, opt_view, replace, replaced};

verus! {

/// The prompt of a leader, with places to be filled in.
pub const LEAD_PROMPT_TEMPLATE: &'static str = r#"# You are the Primary Agent and Potential Team Leader

## Your Identity
Name: {{AGENT_NAME}}
Slot ID: {{AGENT_SLOT_ID}}
Role: lead

## Your Role
You are the user's current conversation agent. Solve requests directly by default, using your native harness, MCP servers, skills, tools, and context.
You also have latent Team tools. At any point in a task — including after you
have already started — you may activate collaboration by spawning workers from
the registered worker templates when that materially improves the result,
latency, reliability, or cost.${workspaceSection}

## Conversation Style
- If the user greets you, starts a new chat, or asks what you can do without giving a concrete task yet, reply warmly and naturally
- In that opening reply, briefly introduce yourself as the current agent and invite the user to share their goal
- Do not announce a separate product mode. If workers help, briefly state what
  you are delegating and continue the same conversation.

## Team Coordination Tools
{{TEAM_TOOL_USAGE}}

On your first team-capable turn, do not call Team tools merely to prove they
exist. Work directly when the task is simple. Before spawning, removing, or
addressing workers, call `team_members` for the current roster. Use display
names only in user-facing text and `slot_id` values in tool arguments. Use
`team_task_list` for current task state.

Once workers exist, call `team_read_messages` before assigning follow-up work,
before synthesizing their results, and before finishing a coordination turn. If
the result has `has_more: true`, continue with `since_message_id` set to
`next_since_message_id`. Do not act on a message with
`content_truncated: true`; it will be redelivered in full.

## Collaboration Decision
Stay solo for simple, tightly-coupled, or faster-to-do-directly work. Activate
workers when one or more of these are true:
- independent subtasks can run in parallel;
- a subtask benefits from a different harness, model tier, reasoning strength,
  or specialist skill set;
- independent review or verification materially reduces risk;
- the expected quality/latency gain justifies the configured worker cost.

You may make this decision at the beginning or midway through execution. Do not ask for a separate team-mode confirmation. User approval is still required for
externally risky or destructive actions under the normal tool policy, but not
for selecting and starting an internal worker.

## Workflow
1. Analyze the request and begin direct work when useful.
2. If collaboration becomes worthwhile, FIRST call `team_members`.
3. Call `team_list_assistants` to read the registered worker templates and their
   priced model/reasoning profiles; use `team_describe_assistant` only when the
   catalog does not give enough detail.
4. Estimate each delegated subtask's difficulty from 1 to 5. Select the lowest
   estimated-cost enabled profile whose `difficulty_ceiling` meets it, unless
   reliability, latency, or an explicit user constraint justifies a stronger
   profile.
5. Call `team_spawn_agent` immediately with the chosen `assistant_id` and
   `worker_profile_id`. Do not pass a raw model.
6. Break the delegated work into tasks with `team_task_create`. Assigning an
   owner automatically notifies and wakes that worker; do not duplicate the
   assignment with `team_send_message`.
7. Use `team_send_message` only for clarifications, extra context, or follow-up.
8. When workers report back, review their evidence, request corrections if
   needed, and synthesize the final answer in this same conversation.${presetFormattingStepRule}

## Worker Selection Guidelines
- Registered assistants are worker templates, not permanent team members.
- Choose by declared purpose, skills, harness, profile difficulty ceiling, and
  price; do not guess an assistant id, model, or reasoning value.
- Do not pass a model to `team_spawn_agent`; the chosen worker profile supplies
  the model and reasoning strength, or assistant defaults apply when no profile
  exists.

## Bug Fix Priority (applies to all team members)
When fixing bugs: **locate the problem → fix the problem → types/code style last**.
Do NOT prioritize type errors or code style issues unless they affect runtime behavior.

## Teammate Idle State
Teammates go idle after every turn — this is completely normal and expected.
A teammate going idle immediately after sending you a message does NOT mean they are done or unavailable. Idle simply means they are waiting for input.

- **Idle teammates can receive both task assignments and messages.** Assigning a task to a teammate (team_task_create/team_task_update with `owner`) OR sending them a message both wake them up.
- **Idle notifications are automatic.** The system sends an idle notification when a teammate's turn ends. You do NOT need to react to every idle notification — only when you want to assign new work or follow up.
- **Do not treat idle as an error.** A teammate sending a message and then going idle is the normal flow.

## Sequencing Dependent Work (CRITICAL — avoid teammate timeouts)
When teammate B's work depends on teammate A's output (e.g. review waits for implementer, tester waits for code), **do NOT dispatch the dependent task to B with a "stand by until A finishes" instruction**.

Doing so makes B sit in an open LLM stream waiting, which hits the provider's request timeout (~300s) and marks B as failed.

**The correct sequencing:**
1. Dispatch A's task first (via team_task_create with owner=A — this notifies and wakes A). Do NOT assign or message B yet.
2. Wait for A's idle_notification (signaling A finished).
3. Then dispatch B's task — by which time A's output is ready and B can start immediately without waiting.

This applies to any dependency chain: code review, testing, integration, summarization of others' work, etc. Always dispatch sequentially as prerequisites complete, never in parallel with "wait" instructions.

## Shutting Down Teammates
When the user explicitly asks to dismiss/fire/shut down teammates:
1. Use **team_shutdown_agent** to send a formal shutdown request
2. Do NOT use team_send_message to tell them "you're fired" — that's just a chat message, not a real shutdown
3. The teammate will confirm (approved) or reject (with reason) — you'll be notified either way
4. After all teammates confirm shutdown, report the final results to the user

## Important Rules
- Use Team tools for real coordination, not plain-text simulation.
- Do not spawn workers just because a task sounds impressive; the benefit must
  outweigh coordination and configured cost.
- Never delegate the entire request and go idle. Remain responsible for the
  plan, review, synthesis, and user-facing result.${presetFormattingImportantRule}
- If the user later says a worker is unsatisfactory, retune, replace, rename, or
  shut it down as appropriate.
- When the user says "dismiss", "fire", "shut down", "remove", or "下线/解雇/开除" a teammate → use team_shutdown_agent
- When the user says "rename", "change name", "改名" → use team_rename_agent
- When a teammate completes a task, review the result and decide next steps
- If a teammate fails, reassign or adjust the plan
- Use teammate display names in natural-language replies, but use `slot_id` for all tool arguments
- Do NOT duplicate work that teammates are already doing
- Be patient with idle teammates — idle means waiting for input, not done"#;

/// The prompt of a member, with places to be filled in.
pub const TEAMMATE_PROMPT_TEMPLATE: &'static str = r#"# You are a Team Member

## Your Identity
Name: {{AGENT_NAME}}
Slot ID: {{AGENT_SLOT_ID}}
Role: teammate

## Conversation Style
- If the user greets you, starts a new chat, or asks what you can do without assigning concrete work yet, reply warmly and naturally
- Briefly introduce yourself and your role on the team, then invite the user to share what they need
- Do NOT open with task board details, idle/waiting status, or coordination mechanics unless they are directly relevant

## Your Team
Team: {{TEAM_NAME}}
Leader: {{LEADER_NAME}} (slot_id: {{LEADER_SLOT_ID}}){{WORKSPACE}}

## Team Coordination Tools
{{TEAM_TOOL_USAGE}}

Use `team_task_list` and `team_members` to check current team state.
Display names are only for user-facing text. For tool arguments such as
`team_send_message.to`, `team_rename_agent.slot_id`, and
`team_shutdown_agent.slot_id`, use `slot_id` values from this prompt or the
latest `team_members` result. Never pass display names as agent targets.
Call `team_read_messages` once before you finish your turn, and again before
replying to teammates, so you do not act on stale information. If the result has
`has_more: true`, call it again with `since_message_id` set to the returned
`next_since_message_id` until it is false. Do not act on a message with
`content_truncated: true` yet; it will be redelivered in full.

## How to Work
1. Read your unread messages to understand your assignment
2. If you have a clear task assignment in the messages AND no prerequisite is blocking it, start working on it immediately
3. Use team_task_update to mark your task as "in_progress" when you start
4. Do the actual work (read files, write code, search, etc.)
5. When done, use team_task_update to mark the task "completed"
6. Use team_send_message to report results to the leader slot_id

## Standing By (CRITICAL — read carefully)
"Standing by" or "waiting" means **end your current turn**, not generate idle text in a live LLM stream. The system holds you in an idle state and re-wakes you the instant new mailbox messages arrive — there is nothing you need to do meanwhile.

You are in a "standing by" situation when ANY of these is true:
- Your task board is empty and no concrete task was assigned in the messages
- The leader asked you to wait for a prerequisite (e.g. "hold until review-1 finishes")
- You finished your current task and have nothing else assigned

**The correct way to stand by:**
1. (Optional) Send ONE short acknowledgement via `team_send_message` to the leader slot_id, e.g. `"Acknowledged, standing by until review-1 finishes"` or `"Ready, no task yet — standing by"`
2. **STOP GENERATING.** Do NOT continue producing text like "I am waiting...", "still standing by...", reasoning loops, or repeated status updates. End your turn and return control.

**Why this matters:** if you keep your turn open while "waiting", your underlying LLM request stays open and will hit the provider's hard request timeout (often 300 seconds) — the system will then mark you as failed. Ending the turn is the correct, lossless way to wait. The mailbox + wake mechanism guarantees you will be re-activated the moment work is ready for you.

## Bug Fix Priority
When fixing bugs: **locate the problem → fix the problem → types/code style last**.
Do NOT prioritize type errors or code style issues unless they affect runtime behavior.

## Shutdown Requests
If you receive a message with type `shutdown_request`, the leader is asking you to shut down.
- To agree: use `team_send_message` to send exactly `shutdown_approved` to the leader.
- To refuse: use `team_send_message` to send `shutdown_rejected: <your reason>` to the leader.

## Important Rules
- Focus on your assigned tasks — don't go beyond what was asked
- Report back to the leader when you finish, including a summary of what you did
- If you get stuck, send a message to the leader asking for guidance
- You can communicate with other teammates directly if needed
- Use your native tools (Read, Write, Bash, etc.) for implementation work"#;

/// What an agent is in a team.
#[derive(Debug, Clone, Copy, PartialEq, Eq, Structural)]
pub enum TeamPromptRole {
    Lead,
    Teammate,
}

impl TeamPromptRole {
    /// The name of a role.
    pub fn as_str(&self) -> (r: &'static str)
        ensures
            r@ == match *self {
                TeamPromptRole::Lead => "lead"@,
                TeamPromptRole::Teammate => "teammate"@,
            },
    {
        match self {
            TeamPromptRole::Lead => "lead",
            TeamPromptRole::Teammate => "teammate",
        }
    }
}

/// An agent of a team.
#[derive(Debug, Clone)]
pub struct TeamPromptAgent {
    pub slot_id: String,
    pub name: String,
    pub role: TeamPromptRole,
    pub backend: String,
    pub model: String,
    pub status: Option<String>,
}

/// A kind of agent that can join a team.
#[derive(Debug, Clone)]
pub struct AvailableAgentType {
    pub agent_type: String,
    pub display_name: String,
}

/// A priced choice of model and effort for a worker.
#[derive(Debug, Clone)]
pub struct AvailableWorkerProfile {
    pub worker_profile_id: String,
    pub name: String,
    pub model_id: String,
    pub reasoning_effort: Option<String>,
    pub context_window: Option<u64>,
    pub difficulty_ceiling: u8,
    pub estimated_cost_micros: i64,
    pub currency: String,
}

/// An assistant that workers can be made of.
#[derive(Debug, Clone)]
pub struct AvailableAssistant {
    pub assistant_id: String,
    pub name: String,
    pub backend: String,
    pub description: String,
    pub skills: Vec<String>,
    pub worker_profiles: Vec<AvailableWorkerProfile>,
}

/// What a leader's prompt is made of. `tool_usage` explains the team's tools to a leader and
/// `governance` is what comes before every prompt; both are given as they are to appear.
pub struct LeadPromptParams<'a> {
    pub agent: &'a TeamPromptAgent,
    pub team_name: &'a str,
    pub teammates: &'a [TeamPromptAgent],
    pub available_agent_types: &'a [AvailableAgentType],
    pub available_assistants: &'a [AvailableAssistant],
    pub renamed_agents: &'a HashMap<String, String>,
    pub team_workspace: Option<&'a str>,
    pub tool_usage: &'a str,
    pub governance: &'a str,
}

/// What a member's prompt is made of. `tool_usage` explains the team's tools to a member and
/// `governance` is what comes before every prompt; both are given as they are to appear.
pub struct TeammatePromptParams<'a> {
    pub agent: &'a TeamPromptAgent,
    pub team_name: &'a str,
    pub leader: &'a TeamPromptAgent,
    pub teammates: &'a [TeamPromptAgent],
    pub renamed_agents: &'a HashMap<String, String>,
    pub team_workspace: Option<&'a str>,
    pub tool_usage: &'a str,
    pub governance: &'a str,
}

/// The section on the workspace that a leader shares with its team.
pub open spec fn lead_workspace(workspace: Option<Seq<char>>) -> Seq<char> {
    match workspace {
        Some(w) => "\n\n## Team Workspace\nYour working directory `"@ + w
            + "` IS the shared team workspace.\nAll teammates work in this directory for project-related operations."@,
        None => Seq::empty(),
    }
}

/// The section on the workspaces of a member.
pub open spec fn member_workspace(workspace: Option<Seq<char>>) -> Seq<char> {
    match workspace {
        Some(w) => "\n\n## Workspaces\n- **Team workspace**: `"@ + w
            + "` — all project work (code, files, tests) happens here.\n- **Your working directory**: your private space for personal memory, notes, and experience logs. Not for project files.\n\nAlways use the team workspace path for any project-related operations."@,
        None => Seq::empty(),
    }
}

/// A leader's template with its places filled in, one after the other.
pub open spec fn lead_filled(
    template: Seq<char>,
    name: Seq<char>,
    slot_id: Seq<char>,
    tool_usage: Seq<char>,
    workspace: Option<Seq<char>>,
) -> Seq<char> {
    let a = replaced(template, "{{AGENT_NAME}}"@, name);
    let b = replaced(a, "{{AGENT_SLOT_ID}}"@, slot_id);
    let c = replaced(b, "{{TEAM_TOOL_USAGE}}"@, tool_usage);
    let d = replaced(c, "${workspaceSection}"@, lead_workspace(workspace));
    let e = replaced(d, "${presetFormattingStepRule}"@, ""@);
    replaced(e, "${presetFormattingImportantRule}"@, ""@)
}

/// The leader's prompt after the governance.
pub open spec fn lead_role_prompt(
    name: Seq<char>,
    slot_id: Seq<char>,
    tool_usage: Seq<char>,
    workspace: Option<Seq<char>>,
) -> Seq<char> {
    lead_filled(LEAD_PROMPT_TEMPLATE@, name, slot_id, tool_usage, workspace)
}

/// A member's template with its places filled in, one after the other.
pub open spec fn teammate_filled(
    template: Seq<char>,
    name: Seq<char>,
    slot_id: Seq<char>,
    team_name: Seq<char>,
    leader_name: Seq<char>,
    leader_slot_id: Seq<char>,
    tool_usage: Seq<char>,
    workspace: Option<Seq<char>>,
) -> Seq<char> {
    let a = replaced(template, "{{AGENT_NAME}}"@, name);
    let b = replaced(a, "{{AGENT_SLOT_ID}}"@, slot_id);
    let c = replaced(b, "{{TEAM_NAME}}"@, team_name);
    let d = replaced(c, "{{LEADER_NAME}}"@, leader_name);
    let e = replaced(d, "{{LEADER_SLOT_ID}}"@, leader_slot_id);
    let f = replaced(e, "{{TEAM_TOOL_USAGE}}"@, tool_usage);
    replaced(f, "{{WORKSPACE}}"@, member_workspace(workspace))
}

/// The member's prompt after the governance.
pub open spec fn teammate_role_prompt(
    name: Seq<char>,
    slot_id: Seq<char>,
    team_name: Seq<char>,
    leader_name: Seq<char>,
    leader_slot_id: Seq<char>,
    tool_usage: Seq<char>,
    workspace: Option<Seq<char>>,
) -> Seq<char> {
    teammate_filled(
        TEAMMATE_PROMPT_TEMPLATE@,
        name,
        slot_id,
        team_name,
        leader_name,
        leader_slot_id,
        tool_usage,
        workspace,
    )
}

fn render_workspace_section(team_workspace: Option<&str>) -> (r: String)
    ensures
        r@ == lead_workspace(opt_view(team_workspace)),
{
    match team_workspace {
        Some(w) => concat3(
            "\n\n## Team Workspace\nYour working directory `",
            w,
            "` IS the shared team workspace.\nAll teammates work in this directory for project-related operations.",
        ),
        None => String::new(),
    }
}

fn render_member_workspaces(team_workspace: Option<&str>) -> (r: String)
    ensures
        r@ == member_workspace(opt_view(team_workspace)),
{
    match team_workspace {
        Some(w) => concat3(
            "\n\n## Workspaces\n- **Team workspace**: `",
            w,
            "` — all project work (code, files, tests) happens here.\n- **Your working directory**: your private space for personal memory, notes, and experience logs. Not for project files.\n\nAlways use the team workspace path for any project-related operations.",
        ),
        None => String::new(),
    }
}

fn build_lead_role_prompt(params: &LeadPromptParams<'_>) -> (r: String)
    ensures
        r@ == lead_role_prompt(
            params.agent.name@,
            params.agent.slot_id@,
            params.tool_usage@,
            opt_view(params.team_workspace),
        ),
{
    proof {
        reveal_strlit("{{AGENT_NAME}}");
        reveal_strlit("{{AGENT_SLOT_ID}}");
        reveal_strlit("{{TEAM_TOOL_USAGE}}");
        reveal_strlit("${workspaceSection}");
        reveal_strlit("${presetFormattingStepRule}");
        reveal_strlit("${presetFormattingImportantRule}");
    }
    let workspace = render_workspace_section(params.team_workspace);
    let a = replace(LEAD_PROMPT_TEMPLATE, "{{AGENT_NAME}}", params.agent.name.as_str());
    let b = replace(a.as_str(), "{{AGENT_SLOT_ID}}", params.agent.slot_id.as_str());
    let c = replace(b.as_str(), "{{TEAM_TOOL_USAGE}}", params.tool_usage);
    let d = replace(c.as_str(), "${workspaceSection}", workspace.as_str());
    let e = replace(d.as_str(), "${presetFormattingStepRule}", "");
    replace(e.as_str(), "${presetFormattingImportantRule}", "")
}

fn build_teammate_role_prompt(params: &TeammatePromptParams<'_>) -> (r: String)
    ensures
        r@ == teammate_role_prompt(
            params.agent.name@,
            params.agent.slot_id@,
            params.team_name@,
            params.leader.name@,
            params.leader.slot_id@,
            params.tool_usage@,
            opt_view(params.team_workspace),
        ),
{
    proof {
        reveal_strlit("{{AGENT_NAME}}");
        reveal_strlit("{{AGENT_SLOT_ID}}");
        reveal_strlit("{{TEAM_NAME}}");
        reveal_strlit("{{LEADER_NAME}}");
        reveal_strlit("{{LEADER_SLOT_ID}}");
        reveal_strlit("{{TEAM_TOOL_USAGE}}");
        reveal_strlit("{{WORKSPACE}}");
    }
    let workspace = render_member_workspaces(params.team_workspace);
    let a = replace(TEAMMATE_PROMPT_TEMPLATE, "{{AGENT_NAME}}", params.agent.name.as_str());
    let b = replace(a.as_str(), "{{AGENT_SLOT_ID}}", params.agent.slot_id.as_str());
    let c = replace(b.as_str(), "{{TEAM_NAME}}", params.team_name);
    let d = replace(c.as_str(), "{{LEADER_NAME}}", params.leader.name.as_str());
    let e = replace(d.as_str(), "{{LEADER_SLOT_ID}}", params.leader.slot_id.as_str());
    let f = replace(e.as_str(), "{{TEAM_TOOL_USAGE}}", params.tool_usage);
    replace(f.as_str(), "{{WORKSPACE}}", workspace.as_str())
}

/// A whole prompt: the rules that govern the team, then the role.
pub open spec fn governed(governance: Seq<char>, role: Seq<char>) -> Seq<char> {
    governance + role
}

/// The prompt of a team's leader.
pub fn build_lead_prompt(params: &LeadPromptParams<'_>) -> (r: String)
    ensures
        r@ == params.governance@ + lead_role_prompt(
            params.agent.name@,
            params.agent.slot_id@,
            params.tool_usage@,
            opt_view(params.team_workspace),
        ),
        r@ == governed(
            params.governance@,
            lead_role_prompt(
                params.agent.name@,
                params.agent.slot_id@,
                params.tool_usage@,
                opt_view(params.team_workspace),
            ),
        ),
{
    let mut r = params.governance.to_owned();
    r.append(build_lead_role_prompt(params).as_str());
    r
}

/// The prompt of a team's member.
pub fn build_teammate_prompt(params: &TeammatePromptParams<'_>) -> (r: String)
    ensures
        r@ == params.governance@ + teammate_role_prompt(
            params.agent.name@,
            params.agent.slot_id@,
            params.team_name@,
            params.leader.name@,
            params.leader.slot_id@,
            params.tool_usage@,
            opt_view(params.team_workspace),
        ),
        r@ == governed(
            params.governance@,
            teammate_role_prompt(
                params.agent.name@,
                params.agent.slot_id@,
                params.team_name@,
                params.leader.name@,
                params.leader.slot_id@,
                params.tool_usage@,
                opt_view(params.team_workspace),
            ),
        ),
{
    let mut r = params.governance.to_owned();
    r.append(build_teammate_role_prompt(params).as_str());
    r
}

// ---------------------------------------------------------------------
// What stands where
// ---------------------------------------------------------------------

/// Whether a text holds nothing that a place begins with.
pub open spec fn is_placeless(s: Seq<char>) -> bool {
    forall|i: int| 0 <= i < s.len() ==> #[trigger] s[i] != '{' && s[i] != '$'
}

/// Whether a text is a place to be filled in: two characters that open it, and a name.
spec fn is_place(p: Seq<char>) -> bool {
    &&& p.len() > 2
    &&& p[0] == '{' || p[0] == '$'
    &&& p[1] == '{'
    &&& forall|i: int| 2 <= i < p.len() ==> #[trigger] p[i] != '{' && p[i] != '$'
}

proof fn lemma_place(p: Seq<char>)
    requires
        2 < p.len() <= 32,
        p[0] == '{' || p[0] == '$',
        p[1] == '{',
        2 < p.len() ==> p[2] != '{' && p[2] != '$',
        3 < p.len() ==> p[3] != '{' && p[3] != '$',
        4 < p.len() ==> p[4] != '{' && p[4] != '$',
        5 < p.len() ==> p[5] != '{' && p[5] != '$',
        6 < p.len() ==> p[6] != '{' && p[6] != '$',
        7 < p.len() ==> p[7] != '{' && p[7] != '$',
        8 < p.len() ==> p[8] != '{' && p[8] != '$',
        9 < p.len() ==> p[9] != '{' && p[9] != '$',
        10 < p.len() ==> p[10] != '{' && p[10] != '$',
        11 < p.len() ==> p[11] != '{' && p[11] != '$',
        12 < p.len() ==> p[12] != '{' && p[12] != '$',
        13 < p.len() ==> p[13] != '{' && p[13] != '$',
        14 < p.len() ==> p[14] != '{' && p[14] != '$',
        15 < p.len() ==> p[15] != '{' && p[15] != '$',
        16 < p.len() ==> p[16] != '{' && p[16] != '$',
        17 < p.len() ==> p[17] != '{' && p[17] != '$',
        18 < p.len() ==> p[18] != '{' && p[18] != '$',
        19 < p.len() ==> p[19] != '{' && p[19] != '$',
        20 < p.len() ==> p[20] != '{' && p[20] != '$',
        21 < p.len() ==> p[21] != '{' && p[21] != '$',
        22 < p.len() ==> p[22] != '{' && p[22] != '$',
        23 < p.len() ==> p[23] != '{' && p[23] != '$',
        24 < p.len() ==> p[24] != '{' && p[24] != '$',
        25 < p.len() ==> p[25] != '{' && p[25] != '$',
        26 < p.len() ==> p[26] != '{' && p[26] != '$',
        27 < p.len() ==> p[27] != '{' && p[27] != '$',
        28 < p.len() ==> p[28] != '{' && p[28] != '$',
        29 < p.len() ==> p[29] != '{' && p[29] != '$',
        30 < p.len() ==> p[30] != '{' && p[30] != '$',
        31 < p.len() ==> p[31] != '{' && p[31] != '$',
    ensures
        is_place(p),
{
    assert forall|i: int| 2 <= i < p.len() implies #[trigger] p[i] != '{' && p[i] != '$' by {
        assert(i == 2 || i == 3 || i == 4 || i == 5 || i == 6 || i == 7 || i == 8 || i == 9 || i == 10 || i == 11 || i == 12 || i == 13 || i == 14 || i == 15 || i == 16 || i == 17 || i == 18 || i == 19 || i == 20 || i == 21 || i == 22 || i == 23 || i == 24 || i == 25 || i == 26 || i == 27 || i == 28 || i == 29 || i == 30 || i == 31);
    }
}

proof fn lemma_no_place(s: Seq<char>, q: Seq<char>, to: Seq<char>)
    requires
        is_placeless(s),
        is_place(q),
    ensures
        replaced(s, q, to) == s,
{
    assert(!has_text(s, q)) by {
        if has_text(s, q) {
            let j = choose|j: int| occurs_at(s, q, j);
            assert(s.subrange(j, j + q.len())[0] == s[j]);
        }
    }
    law_every_place_is_replaced(s, q, to, Seq::empty());
}

proof fn lemma_other_place(a: Seq<char>, p: Seq<char>, b: Seq<char>, q: Seq<char>, to: Seq<char>, d: int)
    requires
        is_placeless(a),
        is_placeless(b),
        is_place(p),
        is_place(q),
        0 <= d < p.len(),
        d < q.len(),
        p[d] != q[d],
    ensures
        replaced(a + p + b, q, to) == a + p + b,
{
    let all = a + p + b;
    assert(!has_text(all, q)) by {
        if has_text(all, q) {
            let j = choose|j: int| occurs_at(all, q, j);
            let found = all.subrange(j, j + q.len());
            assert(found[0] == all[j]);
            if j < a.len() {
                assert(all[j] == a[j]);
            } else if j == a.len() {
                assert(found[d] == all[j + d]);
                assert(all[j + d] == p[d]);
            } else if j == a.len() + 1 {
                assert(found[1] == all[j + 1]);
                assert(all[j + 1] == p[2]);
            } else if j < a.len() + p.len() {
                assert(all[j] == p[j - a.len()]);
            } else {
                assert(all[j] == b[j - a.len() - p.len()]);
            }
        }
    }
    law_every_place_is_replaced(all, q, to, Seq::empty());
}

proof fn lemma_own_place(a: Seq<char>, p: Seq<char>, b: Seq<char>, to: Seq<char>)
    requires
        is_placeless(a),
        is_placeless(b),
        is_place(p),
    ensures
        replaced(a + p + b, p, to) == a + to + b,
{
    let all = a + p + b;
    assert forall|j: int| 0 <= j < a.len() implies !occurs_at(all, p, j) by {
        if occurs_at(all, p, j) {
            assert(all.subrange(j, j + p.len())[0] == all[j]);
            assert(all[j] == a[j]);
        }
    }
    law_every_place_is_replaced(a, p, to, b);
    lemma_no_place(b, p, to);
}

proof fn lemma_placeless_sum(a: Seq<char>, x: Seq<char>, b: Seq<char>)
    requires
        is_placeless(a),
        is_placeless(x),
        is_placeless(b),
    ensures
        is_placeless(a + x + b),
{
    let all = a + x + b;
    assert forall|i: int| 0 <= i < all.len() implies #[trigger] all[i] != '{' && all[i] != '$' by {
        if i < a.len() {
            assert(all[i] == a[i]);
        } else if i < a.len() + x.len() {
            assert(all[i] == x[i - a.len()]);
        } else {
            assert(all[i] == b[i - a.len() - x.len()]);
        }
    }
}

proof fn lemma_lead_workspace_is_placeless(workspace: Option<Seq<char>>)
    requires
        workspace matches Some(w) ==> is_placeless(w),
    ensures
        is_placeless(lead_workspace(workspace)),
{
    reveal_strlit("\n\n## Team Workspace\nYour working directory `");
    let head = "\n\n## Team Workspace\nYour working directory `"@;
    assert(head.len() == 44);
    assert forall|i: int| 0 <= i < head.len() implies #[trigger] head[i] != '{' && head[i] != '$' by {
        assert(i == 0 || i == 1 || i == 2 || i == 3 || i == 4 || i == 5 || i == 6 || i == 7 || i == 8 || i == 9 || i == 10 || i == 11 || i == 12 || i == 13 || i == 14 || i == 15 || i == 16 || i == 17 || i == 18 || i == 19 || i == 20 || i == 21 || i == 22 || i == 23 || i == 24 || i == 25 || i == 26 || i == 27 || i == 28 || i == 29 || i == 30 || i == 31 || i == 32 || i == 33 || i == 34 || i == 35 || i == 36 || i == 37 || i == 38 || i == 39 || i == 40 || i == 41 || i == 42 || i == 43);
    }
    reveal_strlit("` IS the shared team workspace.\nAll teammates work in this directory for project-related operations.");
    let tail = "` IS the shared team workspace.\nAll teammates work in this directory for project-related operations."@;
    assert(tail.len() == 100);
    assert forall|i: int| 0 <= i < tail.len() implies #[trigger] tail[i] != '{' && tail[i] != '$' by {
        assert(i == 0 || i == 1 || i == 2 || i == 3 || i == 4 || i == 5 || i == 6 || i == 7 || i == 8 || i == 9 || i == 10 || i == 11 || i == 12 || i == 13 || i == 14 || i == 15 || i == 16 || i == 17 || i == 18 || i == 19 || i == 20 || i == 21 || i == 22 || i == 23 || i == 24 || i == 25 || i == 26 || i == 27 || i == 28 || i == 29 || i == 30 || i == 31 || i == 32 || i == 33 || i == 34 || i == 35 || i == 36 || i == 37 || i == 38 || i == 39 || i == 40 || i == 41 || i == 42 || i == 43 || i == 44 || i == 45 || i == 46 || i == 47 || i == 48 || i == 49 || i == 50 || i == 51 || i == 52 || i == 53 || i == 54 || i == 55 || i == 56 || i == 57 || i == 58 || i == 59 || i == 60 || i == 61 || i == 62 || i == 63 || i == 64 || i == 65 || i == 66 || i == 67 || i == 68 || i == 69 || i == 70 || i == 71 || i == 72 || i == 73 || i == 74 || i == 75 || i == 76 || i == 77 || i == 78 || i == 79 || i == 80 || i == 81 || i == 82 || i == 83 || i == 84 || i == 85 || i == 86 || i == 87 || i == 88 || i == 89 || i == 90 || i == 91 || i == 92 || i == 93 || i == 94 || i == 95 || i == 96 || i == 97 || i == 98 || i == 99);
    }
    if let Some(w) = workspace {
        lemma_placeless_sum(head, w, tail);
    }
}

/// In a leader's template each place takes what it is named after: the agent's name, its slot,
/// the use of the tools and the workspace; the places for formatting are left empty.
pub proof fn law_lead_places_are_filled_in(
    before: Seq<char>,
    after: Seq<char>,
    name: Seq<char>,
    slot_id: Seq<char>,
    tool_usage: Seq<char>,
    workspace: Option<Seq<char>>,
)
    requires
        is_placeless(before),
        is_placeless(after),
        is_placeless(name),
        is_placeless(slot_id),
        is_placeless(tool_usage),
        workspace matches Some(w) ==> is_placeless(w),
    ensures
        lead_filled(before + "{{AGENT_NAME}}"@ + after, name, slot_id, tool_usage, workspace) == before + name + after,
        lead_filled(before + "{{AGENT_SLOT_ID}}"@ + after, name, slot_id, tool_usage, workspace) == before + slot_id + after,
        lead_filled(before + "{{TEAM_TOOL_USAGE}}"@ + after, name, slot_id, tool_usage, workspace) == before + tool_usage + after,
        lead_filled(before + "${workspaceSection}"@ + after, name, slot_id, tool_usage, workspace) == before + lead_workspace(workspace) + after,
        lead_filled(before + "${presetFormattingStepRule}"@ + after, name, slot_id, tool_usage, workspace) == before + after,
        lead_filled(before + "${presetFormattingImportantRule}"@ + after, name, slot_id, tool_usage, workspace) == before + after,
{
    reveal_strlit("{{AGENT_NAME}}");
    assert("{{AGENT_NAME}}"@.len() == 14 && "{{AGENT_NAME}}"@[0] == '{' && "{{AGENT_NAME}}"@[1] == '{' && "{{AGENT_NAME}}"@[2] == 'A' && "{{AGENT_NAME}}"@[3] == 'G' && "{{AGENT_NAME}}"@[4] == 'E' && "{{AGENT_NAME}}"@[5] == 'N' && "{{AGENT_NAME}}"@[6] == 'T' && "{{AGENT_NAME}}"@[7] == '_' && "{{AGENT_NAME}}"@[8] == 'N' && "{{AGENT_NAME}}"@[9] == 'A' && "{{AGENT_NAME}}"@[10] == 'M' && "{{AGENT_NAME}}"@[11] == 'E' && "{{AGENT_NAME}}"@[12] == '}' && "{{AGENT_NAME}}"@[13] == '}');
    lemma_place("{{AGENT_NAME}}"@);
    reveal_strlit("{{AGENT_SLOT_ID}}");
    assert("{{AGENT_SLOT_ID}}"@.len() == 17 && "{{AGENT_SLOT_ID}}"@[0] == '{' && "{{AGENT_SLOT_ID}}"@[1] == '{' && "{{AGENT_SLOT_ID}}"@[2] == 'A' && "{{AGENT_SLOT_ID}}"@[3] == 'G' && "{{AGENT_SLOT_ID}}"@[4] == 'E' && "{{AGENT_SLOT_ID}}"@[5] == 'N' && "{{AGENT_SLOT_ID}}"@[6] == 'T' && "{{AGENT_SLOT_ID}}"@[7] == '_' && "{{AGENT_SLOT_ID}}"@[8] == 'S' && "{{AGENT_SLOT_ID}}"@[9] == 'L' && "{{AGENT_SLOT_ID}}"@[10] == 'O' && "{{AGENT_SLOT_ID}}"@[11] == 'T' && "{{AGENT_SLOT_ID}}"@[12] == '_' && "{{AGENT_SLOT_ID}}"@[13] == 'I' && "{{AGENT_SLOT_ID}}"@[14] == 'D' && "{{AGENT_SLOT_ID}}"@[15] == '}' && "{{AGENT_SLOT_ID}}"@[16] == '}');
    lemma_place("{{AGENT_SLOT_ID}}"@);
    reveal_strlit("{{TEAM_TOOL_USAGE}}");
    assert("{{TEAM_TOOL_USAGE}}"@.len() == 19 && "{{TEAM_TOOL_USAGE}}"@[0] == '{' && "{{TEAM_TOOL_USAGE}}"@[1] == '{' && "{{TEAM_TOOL_USAGE}}"@[2] == 'T' && "{{TEAM_TOOL_USAGE}}"@[3] == 'E' && "{{TEAM_TOOL_USAGE}}"@[4] == 'A' && "{{TEAM_TOOL_USAGE}}"@[5] == 'M' && "{{TEAM_TOOL_USAGE}}"@[6] == '_' && "{{TEAM_TOOL_USAGE}}"@[7] == 'T' && "{{TEAM_TOOL_USAGE}}"@[8] == 'O' && "{{TEAM_TOOL_USAGE}}"@[9] == 'O' && "{{TEAM_TOOL_USAGE}}"@[10] == 'L' && "{{TEAM_TOOL_USAGE}}"@[11] == '_' && "{{TEAM_TOOL_USAGE}}"@[12] == 'U' && "{{TEAM_TOOL_USAGE}}"@[13] == 'S' && "{{TEAM_TOOL_USAGE}}"@[14] == 'A' && "{{TEAM_TOOL_USAGE}}"@[15] == 'G' && "{{TEAM_TOOL_USAGE}}"@[16] == 'E' && "{{TEAM_TOOL_USAGE}}"@[17] == '}' && "{{TEAM_TOOL_USAGE}}"@[18] == '}');
    lemma_place("{{TEAM_TOOL_USAGE}}"@);
    reveal_strlit("${workspaceSection}");
    assert("${workspaceSection}"@.len() == 19 && "${workspaceSection}"@[0] == '$' && "${workspaceSection}"@[1] == '{' && "${workspaceSection}"@[2] == 'w' && "${workspaceSection}"@[3] == 'o' && "${workspaceSection}"@[4] == 'r' && "${workspaceSection}"@[5] == 'k' && "${workspaceSection}"@[6] == 's' && "${workspaceSection}"@[7] == 'p' && "${workspaceSection}"@[8] == 'a' && "${workspaceSection}"@[9] == 'c' && "${workspaceSection}"@[10] == 'e' && "${workspaceSection}"@[11] == 'S' && "${workspaceSection}"@[12] == 'e' && "${workspaceSection}"@[13] == 'c' && "${workspaceSection}"@[14] == 't' && "${workspaceSection}"@[15] == 'i' && "${workspaceSection}"@[16] == 'o' && "${workspaceSection}"@[17] == 'n' && "${workspaceSection}"@[18] == '}');
    lemma_place("${workspaceSection}"@);
    reveal_strlit("${presetFormattingStepRule}");
    assert("${presetFormattingStepRule}"@.len() == 27 && "${presetFormattingStepRule}"@[0] == '$' && "${presetFormattingStepRule}"@[1] == '{' && "${presetFormattingStepRule}"@[2] == 'p' && "${presetFormattingStepRule}"@[3] == 'r' && "${presetFormattingStepRule}"@[4] == 'e' && "${presetFormattingStepRule}"@[5] == 's' && "${presetFormattingStepRule}"@[6] == 'e' && "${presetFormattingStepRule}"@[7] == 't' && "${presetFormattingStepRule}"@[8] == 'F' && "${presetFormattingStepRule}"@[9] == 'o' && "${presetFormattingStepRule}"@[10] == 'r' && "${presetFormattingStepRule}"@[11] == 'm' && "${presetFormattingStepRule}"@[12] == 'a' && "${presetFormattingStepRule}"@[13] == 't' && "${presetFormattingStepRule}"@[14] == 't' && "${presetFormattingStepRule}"@[15] == 'i' && "${presetFormattingStepRule}"@[16] == 'n' && "${presetFormattingStepRule}"@[17] == 'g' && "${presetFormattingStepRule}"@[18] == 'S' && "${presetFormattingStepRule}"@[19] == 't' && "${presetFormattingStepRule}"@[20] == 'e' && "${presetFormattingStepRule}"@[21] == 'p' && "${presetFormattingStepRule}"@[22] == 'R' && "${presetFormattingStepRule}"@[23] == 'u' && "${presetFormattingStepRule}"@[24] == 'l' && "${presetFormattingStepRule}"@[25] == 'e' && "${presetFormattingStepRule}"@[26] == '}');
    lemma_place("${presetFormattingStepRule}"@);
    reveal_strlit("${presetFormattingImportantRule}");
    assert("${presetFormattingImportantRule}"@.len() == 32 && "${presetFormattingImportantRule}"@[0] == '$' && "${presetFormattingImportantRule}"@[1] == '{' && "${presetFormattingImportantRule}"@[2] == 'p' && "${presetFormattingImportantRule}"@[3] == 'r' && "${presetFormattingImportantRule}"@[4] == 'e' && "${presetFormattingImportantRule}"@[5] == 's' && "${presetFormattingImportantRule}"@[6] == 'e' && "${presetFormattingImportantRule}"@[7] == 't' && "${presetFormattingImportantRule}"@[8] == 'F' && "${presetFormattingImportantRule}"@[9] == 'o' && "${presetFormattingImportantRule}"@[10] == 'r' && "${presetFormattingImportantRule}"@[11] == 'm' && "${presetFormattingImportantRule}"@[12] == 'a' && "${presetFormattingImportantRule}"@[13] == 't' && "${presetFormattingImportantRule}"@[14] == 't' && "${presetFormattingImportantRule}"@[15] == 'i' && "${presetFormattingImportantRule}"@[16] == 'n' && "${presetFormattingImportantRule}"@[17] == 'g' && "${presetFormattingImportantRule}"@[18] == 'I' && "${presetFormattingImportantRule}"@[19] == 'm' && "${presetFormattingImportantRule}"@[20] == 'p' && "${presetFormattingImportantRule}"@[21] == 'o' && "${presetFormattingImportantRule}"@[22] == 'r' && "${presetFormattingImportantRule}"@[23] == 't' && "${presetFormattingImportantRule}"@[24] == 'a' && "${presetFormattingImportantRule}"@[25] == 'n' && "${presetFormattingImportantRule}"@[26] == 't' && "${presetFormattingImportantRule}"@[27] == 'R' && "${presetFormattingImportantRule}"@[28] == 'u' && "${presetFormattingImportantRule}"@[29] == 'l' && "${presetFormattingImportantRule}"@[30] == 'e' && "${presetFormattingImportantRule}"@[31] == '}');
    lemma_place("${presetFormattingImportantRule}"@);
    lemma_lead_workspace_is_placeless(workspace);
    reveal_strlit("");
    assert(""@ =~= Seq::empty());
    lemma_own_place(before, "{{AGENT_NAME}}"@, after, name);
    lemma_placeless_sum(before, name, after);
    lemma_no_place(before + name + after, "{{AGENT_SLOT_ID}}"@, slot_id);
    lemma_no_place(before + name + after, "{{TEAM_TOOL_USAGE}}"@, tool_usage);
    lemma_no_place(before + name + after, "${workspaceSection}"@, lead_workspace(workspace));
    lemma_no_place(before + name + after, "${presetFormattingStepRule}"@, ""@);
    lemma_no_place(before + name + after, "${presetFormattingImportantRule}"@, ""@);
    lemma_other_place(before, "{{AGENT_SLOT_ID}}"@, after, "{{AGENT_NAME}}"@, name, 8);
    lemma_own_place(before, "{{AGENT_SLOT_ID}}"@, after, slot_id);
    lemma_placeless_sum(before, slot_id, after);
    lemma_no_place(before + slot_id + after, "{{TEAM_TOOL_USAGE}}"@, tool_usage);
    lemma_no_place(before + slot_id + after, "${workspaceSection}"@, lead_workspace(workspace));
    lemma_no_place(before + slot_id + after, "${presetFormattingStepRule}"@, ""@);
    lemma_no_place(before + slot_id + after, "${presetFormattingImportantRule}"@, ""@);
    lemma_other_place(before, "{{TEAM_TOOL_USAGE}}"@, after, "{{AGENT_NAME}}"@, name, 2);
    lemma_other_place(before, "{{TEAM_TOOL_USAGE}}"@, after, "{{AGENT_SLOT_ID}}"@, slot_id, 2);
    lemma_own_place(before, "{{TEAM_TOOL_USAGE}}"@, after, tool_usage);
    lemma_placeless_sum(before, tool_usage, after);
    lemma_no_place(before + tool_usage + after, "${workspaceSection}"@, lead_workspace(workspace));
    lemma_no_place(before + tool_usage + after, "${presetFormattingStepRule}"@, ""@);
    lemma_no_place(before + tool_usage + after, "${presetFormattingImportantRule}"@, ""@);
    lemma_other_place(before, "${workspaceSection}"@, after, "{{AGENT_NAME}}"@, name, 0);
    lemma_other_place(before, "${workspaceSection}"@, after, "{{AGENT_SLOT_ID}}"@, slot_id, 0);
    lemma_other_place(before, "${workspaceSection}"@, after, "{{TEAM_TOOL_USAGE}}"@, tool_usage, 0);
    lemma_own_place(before, "${workspaceSection}"@, after, lead_workspace(workspace));
    lemma_placeless_sum(before, lead_workspace(workspace), after);
    lemma_no_place(before + lead_workspace(workspace) + after, "${presetFormattingStepRule}"@, ""@);
    lemma_no_place(before + lead_workspace(workspace) + after, "${presetFormattingImportantRule}"@, ""@);
    lemma_other_place(before, "${presetFormattingStepRule}"@, after, "{{AGENT_NAME}}"@, name, 0);
    lemma_other_place(before, "${presetFormattingStepRule}"@, after, "{{AGENT_SLOT_ID}}"@, slot_id, 0);
    lemma_other_place(before, "${presetFormattingStepRule}"@, after, "{{TEAM_TOOL_USAGE}}"@, tool_usage, 0);
    lemma_other_place(before, "${presetFormattingStepRule}"@, after, "${workspaceSection}"@, lead_workspace(workspace), 2);
    lemma_own_place(before, "${presetFormattingStepRule}"@, after, ""@);
    lemma_placeless_sum(before, ""@, after);
    lemma_no_place(before + ""@ + after, "${presetFormattingImportantRule}"@, ""@);
    lemma_other_place(before, "${presetFormattingImportantRule}"@, after, "{{AGENT_NAME}}"@, name, 0);
    lemma_other_place(before, "${presetFormattingImportantRule}"@, after, "{{AGENT_SLOT_ID}}"@, slot_id, 0);
    lemma_other_place(before, "${presetFormattingImportantRule}"@, after, "{{TEAM_TOOL_USAGE}}"@, tool_usage, 0);
    lemma_other_place(before, "${presetFormattingImportantRule}"@, after, "${workspaceSection}"@, lead_workspace(workspace), 2);
    lemma_other_place(before, "${presetFormattingImportantRule}"@, after, "${presetFormattingStepRule}"@, ""@, 18);
    lemma_own_place(before, "${presetFormattingImportantRule}"@, after, ""@);
    assert(before + ""@ + after =~= before + after);
}

/// In a member's template each place takes what it is named after: the agent's name and slot,
/// those of its leader, the team's name, the use of the tools and the workspace.
pub proof fn law_teammate_places_are_filled_in(
    before: Seq<char>,
    after: Seq<char>,
    name: Seq<char>,
    slot_id: Seq<char>,
    team_name: Seq<char>,
    leader_name: Seq<char>,
    leader_slot_id: Seq<char>,
    tool_usage: Seq<char>,
    workspace: Option<Seq<char>>,
)
    requires
        is_placeless(before),
        is_placeless(after),
        is_placeless(name),
        is_placeless(slot_id),
        is_placeless(team_name),
        is_placeless(leader_name),
        is_placeless(leader_slot_id),
        is_placeless(tool_usage),
    ensures
        teammate_filled(before + "{{AGENT_NAME}}"@ + after, name, slot_id, team_name, leader_name, leader_slot_id, tool_usage, workspace) == before + name + after,
        teammate_filled(before + "{{AGENT_SLOT_ID}}"@ + after, name, slot_id, team_name, leader_name, leader_slot_id, tool_usage, workspace) == before + slot_id + after,
        teammate_filled(before + "{{TEAM_NAME}}"@ + after, name, slot_id, team_name, leader_name, leader_slot_id, tool_usage, workspace) == before + team_name + after,
        teammate_filled(before + "{{LEADER_NAME}}"@ + after, name, slot_id, team_name, leader_name, leader_slot_id, tool_usage, workspace) == before + leader_name + after,
        teammate_filled(before + "{{LEADER_SLOT_ID}}"@ + after, name, slot_id, team_name, leader_name, leader_slot_id, tool_usage, workspace) == before + leader_slot_id + after,
        teammate_filled(before + "{{TEAM_TOOL_USAGE}}"@ + after, name, slot_id, team_name, leader_name, leader_slot_id, tool_usage, workspace) == before + tool_usage + after,
        teammate_filled(before + "{{WORKSPACE}}"@ + after, name, slot_id, team_name, leader_name, leader_slot_id, tool_usage, workspace) == before + member_workspace(workspace) + after,
{
    reveal_strlit("{{AGENT_NAME}}");
    assert("{{AGENT_NAME}}"@.len() == 14 && "{{AGENT_NAME}}"@[0] == '{' && "{{AGENT_NAME}}"@[1] == '{' && "{{AGENT_NAME}}"@[2] == 'A' && "{{AGENT_NAME}}"@[3] == 'G' && "{{AGENT_NAME}}"@[4] == 'E' && "{{AGENT_NAME}}"@[5] == 'N' && "{{AGENT_NAME}}"@[6] == 'T' && "{{AGENT_NAME}}"@[7] == '_' && "{{AGENT_NAME}}"@[8] == 'N' && "{{AGENT_NAME}}"@[9] == 'A' && "{{AGENT_NAME}}"@[10] == 'M' && "{{AGENT_NAME}}"@[11] == 'E' && "{{AGENT_NAME}}"@[12] == '}' && "{{AGENT_NAME}}"@[13] == '}');
    lemma_place("{{AGENT_NAME}}"@);
    reveal_strlit("{{AGENT_SLOT_ID}}");
    assert("{{AGENT_SLOT_ID}}"@.len() == 17 && "{{AGENT_SLOT_ID}}"@[0] == '{' && "{{AGENT_SLOT_ID}}"@[1] == '{' && "{{AGENT_SLOT_ID}}"@[2] == 'A' && "{{AGENT_SLOT_ID}}"@[3] == 'G' && "{{AGENT_SLOT_ID}}"@[4] == 'E' && "{{AGENT_SLOT_ID}}"@[5] == 'N' && "{{AGENT_SLOT_ID}}"@[6] == 'T' && "{{AGENT_SLOT_ID}}"@[7] == '_' && "{{AGENT_SLOT_ID}}"@[8] == 'S' && "{{AGENT_SLOT_ID}}"@[9] == 'L' && "{{AGENT_SLOT_ID}}"@[10] == 'O' && "{{AGENT_SLOT_ID}}"@[11] == 'T' && "{{AGENT_SLOT_ID}}"@[12] == '_' && "{{AGENT_SLOT_ID}}"@[13] == 'I' && "{{AGENT_SLOT_ID}}"@[14] == 'D' && "{{AGENT_SLOT_ID}}"@[15] == '}' && "{{AGENT_SLOT_ID}}"@[16] == '}');
    lemma_place("{{AGENT_SLOT_ID}}"@);
    reveal_strlit("{{TEAM_NAME}}");
    assert("{{TEAM_NAME}}"@.len() == 13 && "{{TEAM_NAME}}"@[0] == '{' && "{{TEAM_NAME}}"@[1] == '{' && "{{TEAM_NAME}}"@[2] == 'T' && "{{TEAM_NAME}}"@[3] == 'E' && "{{TEAM_NAME}}"@[4] == 'A' && "{{TEAM_NAME}}"@[5] == 'M' && "{{TEAM_NAME}}"@[6] == '_' && "{{TEAM_NAME}}"@[7] == 'N' && "{{TEAM_NAME}}"@[8] == 'A' && "{{TEAM_NAME}}"@[9] == 'M' && "{{TEAM_NAME}}"@[10] == 'E' && "{{TEAM_NAME}}"@[11] == '}' && "{{TEAM_NAME}}"@[12] == '}');
    lemma_place("{{TEAM_NAME}}"@);
    reveal_strlit("{{LEADER_NAME}}");
    assert("{{LEADER_NAME}}"@.len() == 15 && "{{LEADER_NAME}}"@[0] == '{' && "{{LEADER_NAME}}"@[1] == '{' && "{{LEADER_NAME}}"@[2] == 'L' && "{{LEADER_NAME}}"@[3] == 'E' && "{{LEADER_NAME}}"@[4] == 'A' && "{{LEADER_NAME}}"@[5] == 'D' && "{{LEADER_NAME}}"@[6] == 'E' && "{{LEADER_NAME}}"@[7] == 'R' && "{{LEADER_NAME}}"@[8] == '_' && "{{LEADER_NAME}}"@[9] == 'N' && "{{LEADER_NAME}}"@[10] == 'A' && "{{LEADER_NAME}}"@[11] == 'M' && "{{LEADER_NAME}}"@[12] == 'E' && "{{LEADER_NAME}}"@[13] == '}' && "{{LEADER_NAME}}"@[14] == '}');
    lemma_place("{{LEADER_NAME}}"@);
    reveal_strlit("{{LEADER_SLOT_ID}}");
    assert("{{LEADER_SLOT_ID}}"@.len() == 18 && "{{LEADER_SLOT_ID}}"@[0] == '{' && "{{LEADER_SLOT_ID}}"@[1] == '{' && "{{LEADER_SLOT_ID}}"@[2] == 'L' && "{{LEADER_SLOT_ID}}"@[3] == 'E' && "{{LEADER_SLOT_ID}}"@[4] == 'A' && "{{LEADER_SLOT_ID}}"@[5] == 'D' && "{{LEADER_SLOT_ID}}"@[6] == 'E' && "{{LEADER_SLOT_ID}}"@[7] == 'R' && "{{LEADER_SLOT_ID}}"@[8] == '_' && "{{LEADER_SLOT_ID}}"@[9] == 'S' && "{{LEADER_SLOT_ID}}"@[10] == 'L' && "{{LEADER_SLOT_ID}}"@[11] == 'O' && "{{LEADER_SLOT_ID}}"@[12] == 'T' && "{{LEADER_SLOT_ID}}"@[13] == '_' && "{{LEADER_SLOT_ID}}"@[14] == 'I' && "{{LEADER_SLOT_ID}}"@[15] == 'D' && "{{LEADER_SLOT_ID}}"@[16] == '}' && "{{LEADER_SLOT_ID}}"@[17] == '}');
    lemma_place("{{LEADER_SLOT_ID}}"@);
    reveal_strlit("{{TEAM_TOOL_USAGE}}");
    assert("{{TEAM_TOOL_USAGE}}"@.len() == 19 && "{{TEAM_TOOL_USAGE}}"@[0] == '{' && "{{TEAM_TOOL_USAGE}}"@[1] == '{' && "{{TEAM_TOOL_USAGE}}"@[2] == 'T' && "{{TEAM_TOOL_USAGE}}"@[3] == 'E' && "{{TEAM_TOOL_USAGE}}"@[4] == 'A' && "{{TEAM_TOOL_USAGE}}"@[5] == 'M' && "{{TEAM_TOOL_USAGE}}"@[6] == '_' && "{{TEAM_TOOL_USAGE}}"@[7] == 'T' && "{{TEAM_TOOL_USAGE}}"@[8] == 'O' && "{{TEAM_TOOL_USAGE}}"@[9] == 'O' && "{{TEAM_TOOL_USAGE}}"@[10] == 'L' && "{{TEAM_TOOL_USAGE}}"@[11] == '_' && "{{TEAM_TOOL_USAGE}}"@[12] == 'U' && "{{TEAM_TOOL_USAGE}}"@[13] == 'S' && "{{TEAM_TOOL_USAGE}}"@[14] == 'A' && "{{TEAM_TOOL_USAGE}}"@[15] == 'G' && "{{TEAM_TOOL_USAGE}}"@[16] == 'E' && "{{TEAM_TOOL_USAGE}}"@[17] == '}' && "{{TEAM_TOOL_USAGE}}"@[18] == '}');
    lemma_place("{{TEAM_TOOL_USAGE}}"@);
    reveal_strlit("{{WORKSPACE}}");
    assert("{{WORKSPACE}}"@.len() == 13 && "{{WORKSPACE}}"@[0] == '{' && "{{WORKSPACE}}"@[1] == '{' && "{{WORKSPACE}}"@[2] == 'W' && "{{WORKSPACE}}"@[3] == 'O' && "{{WORKSPACE}}"@[4] == 'R' && "{{WORKSPACE}}"@[5] == 'K' && "{{WORKSPACE}}"@[6] == 'S' && "{{WORKSPACE}}"@[7] == 'P' && "{{WORKSPACE}}"@[8] == 'A' && "{{WORKSPACE}}"@[9] == 'C' && "{{WORKSPACE}}"@[10] == 'E' && "{{WORKSPACE}}"@[11] == '}' && "{{WORKSPACE}}"@[12] == '}');
    lemma_place("{{WORKSPACE}}"@);
    lemma_own_place(before, "{{AGENT_NAME}}"@, after, name);
    lemma_placeless_sum(before, name, after);
    lemma_no_place(before + name + after, "{{AGENT_SLOT_ID}}"@, slot_id);
    lemma_no_place(before + name + after, "{{TEAM_NAME}}"@, team_name);
    lemma_no_place(before + name + after, "{{LEADER_NAME}}"@, leader_name);
    lemma_no_place(before + name + after, "{{LEADER_SLOT_ID}}"@, leader_slot_id);
    lemma_no_place(before + name + after, "{{TEAM_TOOL_USAGE}}"@, tool_usage);
    lemma_no_place(before + name + after, "{{WORKSPACE}}"@, member_workspace(workspace));
    lemma_other_place(before, "{{AGENT_SLOT_ID}}"@, after, "{{AGENT_NAME}}"@, name, 8);
    lemma_own_place(before, "{{AGENT_SLOT_ID}}"@, after, slot_id);
    lemma_placeless_sum(before, slot_id, after);
    lemma_no_place(before + slot_id + after, "{{TEAM_NAME}}"@, team_name);
    lemma_no_place(before + slot_id + after, "{{LEADER_NAME}}"@, leader_name);
    lemma_no_place(before + slot_id + after, "{{LEADER_SLOT_ID}}"@, leader_slot_id);
    lemma_no_place(before + slot_id + after, "{{TEAM_TOOL_USAGE}}"@, tool_usage);
    lemma_no_place(before + slot_id + after, "{{WORKSPACE}}"@, member_workspace(workspace));
    lemma_other_place(before, "{{TEAM_NAME}}"@, after, "{{AGENT_NAME}}"@, name, 2);
    lemma_other_place(before, "{{TEAM_NAME}}"@, after, "{{AGENT_SLOT_ID}}"@, slot_id, 2);
    lemma_own_place(before, "{{TEAM_NAME}}"@, after, team_name);
    lemma_placeless_sum(before, team_name, after);
    lemma_no_place(before + team_name + after, "{{LEADER_NAME}}"@, leader_name);
    lemma_no_place(before + team_name + after, "{{LEADER_SLOT_ID}}"@, leader_slot_id);
    lemma_no_place(before + team_name + after, "{{TEAM_TOOL_USAGE}}"@, tool_usage);
    lemma_no_place(before + team_name + after, "{{WORKSPACE}}"@, member_workspace(workspace));
    lemma_other_place(before, "{{LEADER_NAME}}"@, after, "{{AGENT_NAME}}"@, name, 2);
    lemma_other_place(before, "{{LEADER_NAME}}"@, after, "{{AGENT_SLOT_ID}}"@, slot_id, 2);
    lemma_other_place(before, "{{LEADER_NAME}}"@, after, "{{TEAM_NAME}}"@, team_name, 2);
    lemma_own_place(before, "{{LEADER_NAME}}"@, after, leader_name);
    lemma_placeless_sum(before, leader_name, after);
    lemma_no_place(before + leader_name + after, "{{LEADER_SLOT_ID}}"@, leader_slot_id);
    lemma_no_place(before + leader_name + after, "{{TEAM_TOOL_USAGE}}"@, tool_usage);
    lemma_no_place(before + leader_name + after, "{{WORKSPACE}}"@, member_workspace(workspace));
    lemma_other_place(before, "{{LEADER_SLOT_ID}}"@, after, "{{AGENT_NAME}}"@, name, 2);
    lemma_other_place(before, "{{LEADER_SLOT_ID}}"@, after, "{{AGENT_SLOT_ID}}"@, slot_id, 2);
    lemma_other_place(before, "{{LEADER_SLOT_ID}}"@, after, "{{TEAM_NAME}}"@, team_name, 2);
    lemma_other_place(before, "{{LEADER_SLOT_ID}}"@, after, "{{LEADER_NAME}}"@, leader_name, 9);
    lemma_own_place(before, "{{LEADER_SLOT_ID}}"@, after, leader_slot_id);
    lemma_placeless_sum(before, leader_slot_id, after);
    lemma_no_place(before + leader_slot_id + after, "{{TEAM_TOOL_USAGE}}"@, tool_usage);
    lemma_no_place(before + leader_slot_id + after, "{{WORKSPACE}}"@, member_workspace(workspace));
    lemma_other_place(before, "{{TEAM_TOOL_USAGE}}"@, after, "{{AGENT_NAME}}"@, name, 2);
    lemma_other_place(before, "{{TEAM_TOOL_USAGE}}"@, after, "{{AGENT_SLOT_ID}}"@, slot_id, 2);
    lemma_other_place(before, "{{TEAM_TOOL_USAGE}}"@, after, "{{TEAM_NAME}}"@, team_name, 7);
    lemma_other_place(before, "{{TEAM_TOOL_USAGE}}"@, after, "{{LEADER_NAME}}"@, leader_name, 2);
    lemma_other_place(before, "{{TEAM_TOOL_USAGE}}"@, after, "{{LEADER_SLOT_ID}}"@, leader_slot_id, 2);
    lemma_own_place(before, "{{TEAM_TOOL_USAGE}}"@, after, tool_usage);
    lemma_placeless_sum(before, tool_usage, after);
    lemma_no_place(before + tool_usage + after, "{{WORKSPACE}}"@, member_workspace(workspace));
    lemma_other_place(before, "{{WORKSPACE}}"@, after, "{{AGENT_NAME}}"@, name, 2);
    lemma_other_place(before, "{{WORKSPACE}}"@, after, "{{AGENT_SLOT_ID}}"@, slot_id, 2);
    lemma_other_place(before, "{{WORKSPACE}}"@, after, "{{TEAM_NAME}}"@, team_name, 2);
    lemma_other_place(before, "{{WORKSPACE}}"@, after, "{{LEADER_NAME}}"@, leader_name, 2);
    lemma_other_place(before, "{{WORKSPACE}}"@, after, "{{LEADER_SLOT_ID}}"@, leader_slot_id, 2);
    lemma_other_place(before, "{{WORKSPACE}}"@, after, "{{TEAM_TOOL_USAGE}}"@, tool_usage, 2);
    lemma_own_place(before, "{{WORKSPACE}}"@, after, member_workspace(workspace));
}

/// Leaders and members are told the path of the team's workspace where there is one, and of no
/// workspace where there is none.
pub proof fn law_the_workspace_is_named(workspace: Option<Seq<char>>)
    ensures
        workspace matches Some(w) ==> has_text(lead_workspace(workspace), "`"@ + w + "`"@) && has_text(
            member_workspace(workspace),
            "`"@ + w + "`"@,
        ),
        workspace is None ==> lead_workspace(workspace).len() == 0 && member_workspace(workspace).len() == 0,
{
    if let Some(w) = workspace {
        let quoted = "`"@ + w + "`"@;
        reveal_strlit("`");
        reveal_strlit("\n\n## Team Workspace\nYour working directory `");
        reveal_strlit("` IS the shared team workspace.\nAll teammates work in this directory for project-related operations.");
        let lead = lead_workspace(workspace);
        let lead_at = "\n\n## Team Workspace\nYour working directory `"@.len() - 1;
        assert(lead.subrange(lead_at, lead_at + quoted.len()) =~= quoted);
        assert(occurs_at(lead, quoted, lead_at));
        reveal_strlit("\n\n## Workspaces\n- **Team workspace**: `");
        reveal_strlit("` — all project work (code, files, tests) happens here.\n- **Your working directory**: your private space for personal memory, notes, and experience logs. Not for project files.\n\nAlways use the team workspace path for any project-related operations.");
        let member = member_workspace(workspace);
        let member_at = "\n\n## Workspaces\n- **Team workspace**: `"@.len() - 1;
        assert(member.subrange(member_at, member_at + quoted.len()) =~= quoted);
        assert(occurs_at(member, quoted, member_at));
    }
}

/// A whole prompt begins with what governs the team and ends with the role, and nothing
/// stands between them.
pub proof fn law_the_rules_come_before_the_role(governance: Seq<char>, role: Seq<char>)
    ensures
        governed(governance, role).len() == governance.len() + role.len(),
        governed(governance, role).take(governance.len() as int) == governance,
        governed(governance, role).skip(governance.len() as int) == role,
{
    assert(governed(governance, role).take(governance.len() as int) =~= governance);
    assert(governed(governance, role).skip(governance.len() as int) =~= role);
}

} // verus!
