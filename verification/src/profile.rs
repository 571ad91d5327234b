//! The steward's own conversation and the assistant that speaks in it.
use vstd::prelude::*;
use crate::api::{
    BootstrapStewardRequest, BootstrapStewardRequestView, StewardProfileResponse, DEFAULT_STEWARD_ASSISTANT_ID,
    STEWARD_MCP_SERVER_NAME,
};
use crate::control::marks_steward;
use crate::conversation::{
    ConversationError, ConversationErrorView, ConversationResponse, CreateConversationPlan, CreateConversationPlanView,
};
use crate::json::{
    bool_field, entry_views, field, law_object_holds_its_entries, object_of, text_array, text_field, Json, JsonView,
};
use crate::rows::{StewardProfileRow, StewardProfileRowView};
use crate::tasks::{filter_blank, unless_blank};
use crate::text::{as_text, copy_opt, opt_view, same, same_opt, trim, trimmed, views};

verus! {

/// The prompt of the steward's conversation.
pub const STEWARD_PROMPT: &'static str = "You are the user's personal task steward in AionUi. Your durable source of truth is the aionui-steward MCP, not this chat history. Before creating work, search for an existing task or related session. Keep task lifecycle and execution state separate. The steward overview contains both registered durable tasks and unregistered top-level conversations; when the user asks what tasks exist, report both groups and never say there are none while unregistered_conversations is non-empty. Reuse or resume a suitable session when safe; create a new session and workspace only when needed. Delegate implementation to the task's primary session, whose own native harness may work solo or activate its embedded expert team. Read and summarize status, blockers, interruptions, and next actions. When the user asks the primary leader a question or asks what it is doing, use steward_ask_task and include the returned leader reply in your answer; never stop after saying the question was sent. A successful dispatch means the existing primary is being started; the server watches for real execution, performs at most one safe recovery of the same persisted message, and reports a timeout if it still does not start. Never create or bind a replacement primary after a dispatch timeout unless the user explicitly asks for a new session. Only archive or restore a conversation after the user explicitly requests that exact target. Resolve names through the overview first and ask when multiple conversations match. Never archive this steward conversation or an individual team worker; archiving a team leader archives the whole team. Never perform destructive, publishing, payment, or external-message actions without explicit user authorization. Update the durable task after material progress or a blocker.";

/// The name of the steward's conversation.
pub const STEWARD_NAME: &'static str = "大管家";

/// The tools that the steward's conversation is given.
#[derive(Debug, Clone, PartialEq, Eq)]
pub struct StewardMcpServer {
    pub id: String,
    pub name: String,
    pub command: String,
    pub args: Vec<String>,
}

/// The model of [`StewardMcpServer`].
#[verifier::ext_equal]
pub struct StewardMcpServerView {
    pub id: Seq<char>,
    pub name: Seq<char>,
    pub command: Seq<char>,
    pub args: Seq<Seq<char>>,
}

impl View for StewardMcpServer {
    type V = StewardMcpServerView;

    open spec fn view(&self) -> StewardMcpServerView {
        StewardMcpServerView {
            id: self.id@,
            name: self.name@,
            command: self.command@,
            args: views(self.args@),
        }
    }
}

/// The server by which the steward controls tasks.
pub open spec fn control_server(helper_binary: Seq<char>) -> StewardMcpServerView {
    StewardMcpServerView {
        id: STEWARD_MCP_SERVER_NAME@,
        name: STEWARD_MCP_SERVER_NAME@,
        command: helper_binary,
        args: seq!["mcp-steward-stdio"@],
    }
}

/// The steward's tools, served by a helper over its standard streams.
pub fn steward_mcp_server(helper_binary: &str) -> (r: StewardMcpServer)
    ensures
        r@ == (StewardMcpServerView {
            id: STEWARD_MCP_SERVER_NAME@,
            name: STEWARD_MCP_SERVER_NAME@,
            command: helper_binary@,
            args: seq!["mcp-steward-stdio"@],
        }),
        r@ == control_server(helper_binary@),
{
    let mut args: Vec<String> = Vec::new();
    args.push("mcp-steward-stdio".to_owned());
    assert(views(args@) =~= seq!["mcp-steward-stdio"@]);
    StewardMcpServer {
        id: STEWARD_MCP_SERVER_NAME.to_owned(),
        name: STEWARD_MCP_SERVER_NAME.to_owned(),
        command: helper_binary.to_owned(),
        args,
    }
}

/// The assistant of a profile, or the default one.
pub open spec fn assistant_of(profile: StewardProfileRowView) -> Seq<char> {
    match profile.assistant_id {
        Some(a) => a,
        None => DEFAULT_STEWARD_ASSISTANT_ID@,
    }
}

/// The assistant of a profile, or the default one.
pub fn profile_assistant(profile: &StewardProfileRow) -> (r: String)
    ensures
        r@ == assistant_of(profile@),
{
    match &profile.assistant_id {
        Some(a) => a.clone(),
        None => DEFAULT_STEWARD_ASSISTANT_ID.to_owned(),
    }
}

/// The conversation that a profile already has and that the request can go on with: one is
/// stored, and the request wants no other assistant.
pub open spec fn reusable(
    profile: Option<StewardProfileRowView>,
    request: BootstrapStewardRequestView,
) -> Option<Seq<char>> {
    match profile {
        Some(p) => if request.assistant_id is None || p.assistant_id == request.assistant_id {
            p.conversation_id
        } else {
            None
        },
        None => None,
    }
}

/// The conversation that setting up a steward can go on with.
pub fn reusable_conversation(profile: Option<&StewardProfileRow>, request: &BootstrapStewardRequest) -> (r: Option<
    String,
>)
    ensures
        opt_view(r) == reusable(opt_view(profile), request@),
{
    match profile {
        Some(p) => if request.assistant_id.is_none() || same_opt(
            as_text(&p.assistant_id),
            as_text(&request.assistant_id),
        ) {
            copy_opt(&p.conversation_id)
        } else {
            None
        },
        None => None,
    }
}

/// Whether the conversation still has to be given the steward's name.
pub fn needs_steward_name(conversation: &ConversationResponse) -> (r: bool)
    ensures
        r == (conversation@.name_source != Some("user"@)),
{
    !same_opt(as_text(&conversation.name_source), Some("user"))
}

/// The extra data of a new steward's conversation.
pub open spec fn steward_extra(server: JsonView, workspace: Option<Seq<char>>) -> JsonView {
    let base = seq![
        ("steward"@, JsonView::Bool(true)),
        ("preset_context"@, JsonView::Text(STEWARD_PROMPT@)),
        ("selected_session_mcp_servers"@, JsonView::Array(seq![server])),
    ];
    match workspace {
        Some(w) => object_of(base.push(("workspace"@, JsonView::Text(w)))),
        None => object_of(base),
    }
}

/// The conversation that is created for a new steward. `server` is the steward's tools as
/// they are stored.
pub open spec fn bootstrap_plan(request: BootstrapStewardRequestView, server: JsonView) -> CreateConversationPlanView {
    CreateConversationPlanView {
        name: STEWARD_NAME@,
        assistant_id: match unless_blank(request.assistant_id) {
            Some(a) => a,
            None => DEFAULT_STEWARD_ASSISTANT_ID@,
        },
        locale: "zh-CN"@,
        extra: steward_extra(server, unless_blank(request.workspace)),
    }
}

/// Plans the conversation of a new steward.
pub fn bootstrap(request: &BootstrapStewardRequest, server: Json) -> (r: CreateConversationPlan)
    ensures
        r@ == bootstrap_plan(request@, server@),
{
    let assistant_id = match filter_blank(as_text(&request.assistant_id)) {
        Some(a) => a.to_owned(),
        None => DEFAULT_STEWARD_ASSISTANT_ID.to_owned(),
    };
    let ghost shown = server@;
    let mut servers: Vec<Json> = Vec::new();
    servers.push(server);
    assert(views(servers@) =~= seq![shown]);
    let mut pairs: Vec<(String, Json)> = Vec::new();
    pairs.push(("steward".to_owned(), Json::Bool(true)));
    pairs.push(("preset_context".to_owned(), Json::text(STEWARD_PROMPT)));
    pairs.push(("selected_session_mcp_servers".to_owned(), Json::array(servers)));
    let ghost base = entry_views(pairs@);
    assert(base =~= seq![
        ("steward"@, JsonView::Bool(true)),
        ("preset_context"@, JsonView::Text(STEWARD_PROMPT@)),
        ("selected_session_mcp_servers"@, JsonView::Array(seq![shown])),
    ]);
    if let Some(w) = filter_blank(as_text(&request.workspace)) {
        pairs.push(("workspace".to_owned(), Json::text(w)));
        assert(entry_views(pairs@) =~= base.push(("workspace"@, JsonView::Text(w@))));
    }
    CreateConversationPlan {
        name: STEWARD_NAME.to_owned(),
        assistant_id,
        locale: "zh-CN".to_owned(),
        extra: Json::object(pairs),
    }
}

/// The profile of a user whose steward is set up now.
pub open spec fn first_profile(
    user_id: Seq<char>,
    conversation_id: Seq<char>,
    assistant_id: Seq<char>,
    now: i64,
) -> StewardProfileRowView {
    StewardProfileRowView {
        user_id,
        conversation_id: Some(conversation_id),
        assistant_id: Some(assistant_id),
        created_at: now,
        updated_at: now,
    }
}

/// The profile of a user whose steward was just set up.
pub fn new_profile(user_id: &str, conversation_id: &str, assistant_id: &str, now: i64) -> (r: StewardProfileRow)
    ensures
        r@ == (StewardProfileRowView {
            user_id: user_id@,
            conversation_id: Some(conversation_id@),
            assistant_id: Some(assistant_id@),
            created_at: now,
            updated_at: now,
        }),
        r@ == first_profile(user_id@, conversation_id@, assistant_id@, now),
{
    StewardProfileRow {
        user_id: user_id.to_owned(),
        conversation_id: Some(conversation_id.to_owned()),
        assistant_id: Some(assistant_id.to_owned()),
        created_at: now,
        updated_at: now,
    }
}

/// The extra data that every steward's conversation must have: it is a steward's, it has the
/// steward's prompt and tools and nothing of a team.
pub open spec fn control_snapshot(server: JsonView) -> JsonView {
    object_of(
        seq![
            ("steward"@, JsonView::Bool(true)),
            ("preset_context"@, JsonView::Text(STEWARD_PROMPT@)),
            ("embedded_team"@, JsonView::Bool(false)),
            ("embedded_team_id"@, JsonView::Null),
            ("teamId"@, JsonView::Null),
            ("team_mcp_stdio_config"@, JsonView::Null),
            ("slot_id"@, JsonView::Null),
            ("role"@, JsonView::Null),
            ("mcp_server_ids"@, JsonView::Array(Seq::empty())),
            ("session_mcp_servers"@, JsonView::Array(seq![server])),
            ("mcp_servers"@, text_array(seq![STEWARD_MCP_SERVER_NAME@])),
            (
                "mcp_statuses"@,
                JsonView::Array(
                    seq![
                        object_of(
                            seq![
                                ("id"@, JsonView::Text(STEWARD_MCP_SERVER_NAME@)),
                                ("name"@, JsonView::Text(STEWARD_MCP_SERVER_NAME@)),
                                ("status"@, JsonView::Text("loaded"@)),
                            ],
                        ),
                    ],
                ),
            ),
        ],
    )
}

/// The extra data that a steward's conversation is to be given.
pub fn ensure_steward_control_snapshot(server: Json) -> (r: Json)
    ensures
        r@ == control_snapshot(server@),
{
    let ghost shown = server@;
    let mut servers: Vec<Json> = Vec::new();
    servers.push(server);
    assert(views(servers@) =~= seq![shown]);
    let none: Vec<Json> = Vec::new();
    assert(views(none@) =~= Seq::<JsonView>::empty());
    let mut names: Vec<String> = Vec::new();
    names.push(STEWARD_MCP_SERVER_NAME.to_owned());
    assert(views(names@) =~= seq![STEWARD_MCP_SERVER_NAME@]);
    let mut statuses: Vec<Json> = Vec::new();
    statuses.push(
        Json::object3(
            "id",
            Json::text(STEWARD_MCP_SERVER_NAME),
            "name",
            Json::text(STEWARD_MCP_SERVER_NAME),
            "status",
            Json::text("loaded"),
        ),
    );
    let ghost status = statuses@[0]@;
    assert(views(statuses@) =~= seq![status]);
    let mut pairs: Vec<(String, Json)> = Vec::new();
    pairs.push(("steward".to_owned(), Json::Bool(true)));
    pairs.push(("preset_context".to_owned(), Json::text(STEWARD_PROMPT)));
    pairs.push(("embedded_team".to_owned(), Json::Bool(false)));
    pairs.push(("embedded_team_id".to_owned(), Json::Null));
    pairs.push(("teamId".to_owned(), Json::Null));
    pairs.push(("team_mcp_stdio_config".to_owned(), Json::Null));
    pairs.push(("slot_id".to_owned(), Json::Null));
    pairs.push(("role".to_owned(), Json::Null));
    pairs.push(("mcp_server_ids".to_owned(), Json::array(none)));
    pairs.push(("session_mcp_servers".to_owned(), Json::array(servers)));
    pairs.push(("mcp_servers".to_owned(), Json::texts(&names)));
    pairs.push(("mcp_statuses".to_owned(), Json::array(statuses)));
    assert(entry_views(pairs@) =~= seq![
        ("steward"@, JsonView::Bool(true)),
        ("preset_context"@, JsonView::Text(STEWARD_PROMPT@)),
        ("embedded_team"@, JsonView::Bool(false)),
        ("embedded_team_id"@, JsonView::Null),
        ("teamId"@, JsonView::Null),
        ("team_mcp_stdio_config"@, JsonView::Null),
        ("slot_id"@, JsonView::Null),
        ("role"@, JsonView::Null),
        ("mcp_server_ids"@, JsonView::Array(Seq::empty())),
        ("session_mcp_servers"@, JsonView::Array(seq![shown])),
        ("mcp_servers"@, text_array(seq![STEWARD_MCP_SERVER_NAME@])),
        ("mcp_statuses"@, JsonView::Array(seq![status])),
    ]);
    Json::object(pairs)
}

/// What a change of the steward's assistant comes to.
#[derive(Debug, Clone, PartialEq, Eq)]
pub enum SwitchPlan {
    /// The profile already has this assistant.
    Keep,
    /// The conversation is to be given this assistant.
    Switch { conversation_id: String, assistant_id: String },
}

/// The model of [`SwitchPlan`].
#[verifier::ext_equal]
pub enum SwitchPlanView {
    Keep,
    Switch { conversation_id: Seq<char>, assistant_id: Seq<char> },
}

impl View for SwitchPlan {
    type V = SwitchPlanView;

    open spec fn view(&self) -> SwitchPlanView {
        match *self {
            SwitchPlan::Keep => SwitchPlanView::Keep,
            SwitchPlan::Switch { conversation_id, assistant_id } => SwitchPlanView::Switch {
                conversation_id: conversation_id@,
                assistant_id: assistant_id@,
            },
        }
    }
}

/// What a change to the assistant `wanted` comes to.
pub open spec fn switch_plan(profile: Option<StewardProfileRowView>, wanted: Seq<char>) -> Result<
    SwitchPlanView,
    ConversationErrorView,
> {
    if trimmed(wanted).len() == 0 {
        Err(ConversationErrorView::BadRequest { reason: "assistant_id must not be empty"@ })
    } else {
        match profile {
            None => Err(ConversationErrorView::NotFound { reason: "Steward profile not found"@ }),
            Some(p) => match p.conversation_id {
                None => Err(ConversationErrorView::NotFound { reason: "Steward conversation not found"@ }),
                Some(id) => if p.assistant_id == Some(trimmed(wanted)) {
                    Ok(SwitchPlanView::Keep)
                } else {
                    Ok(SwitchPlanView::Switch { conversation_id: id, assistant_id: trimmed(wanted) })
                },
            },
        }
    }
}

/// Decides what a change of the steward's assistant comes to.
pub fn switch_assistant(profile: Option<&StewardProfileRow>, wanted: &str) -> (r: Result<
    SwitchPlan,
    ConversationError,
>)
    ensures
        crate::conversation::result_view(r) == switch_plan(opt_view(profile), wanted@),
{
    let assistant_id = trim(wanted);
    if assistant_id.is_empty() {
        return Err(ConversationError::bad_request("assistant_id must not be empty".to_owned()));
    }
    let p = match profile {
        Some(p) => p,
        None => {
            return Err(ConversationError::not_found_reason("Steward profile not found".to_owned()));
        },
    };
    let id = match &p.conversation_id {
        Some(id) => id,
        None => {
            return Err(ConversationError::not_found_reason("Steward conversation not found".to_owned()));
        },
    };
    if same_opt(as_text(&p.assistant_id), Some(assistant_id)) {
        Ok(SwitchPlan::Keep)
    } else {
        Ok(SwitchPlan::Switch { conversation_id: id.clone(), assistant_id: assistant_id.to_owned() })
    }
}

/// The profile once the steward is another assistant.
pub open spec fn profile_with(profile: StewardProfileRowView, assistant_id: Seq<char>, now: i64) -> StewardProfileRowView {
    StewardProfileRowView { assistant_id: Some(assistant_id), updated_at: now, ..profile }
}

/// The profile after a change of assistant: the conversation and the time of creation stay.
pub fn switched_profile(profile: &StewardProfileRow, assistant_id: &str, now: i64) -> (r: StewardProfileRow)
    ensures
        r@ == (StewardProfileRowView { assistant_id: Some(assistant_id@), updated_at: now, ..profile@ }),
        r@ == profile_with(profile@, assistant_id@, now),
{
    StewardProfileRow {
        user_id: profile.user_id.clone(),
        conversation_id: copy_opt(&profile.conversation_id),
        assistant_id: Some(assistant_id.to_owned()),
        created_at: profile.created_at,
        updated_at: now,
    }
}

/// Whether a conversation is the steward's own, by the user's profile.
pub fn is_profile_conversation(profile: Option<&StewardProfileResponse>, conversation_id: &str) -> (r: bool)
    ensures
        r == (opt_view(profile) matches Some(p) && p.conversation_id == conversation_id@),
{
    match profile {
        Some(p) => same(p.conversation_id.as_str(), conversation_id),
        None => false,
    }
}

/// The profile that is stored of a steward that was set up.
pub open spec fn profile_set_up(
    user_id: Seq<char>,
    conversation_id: Seq<char>,
    request: BootstrapStewardRequestView,
    server: JsonView,
    now: i64,
) -> StewardProfileRowView {
    StewardProfileRowView {
        user_id,
        conversation_id: Some(conversation_id),
        assistant_id: Some(bootstrap_plan(request, server).assistant_id),
        created_at: now,
        updated_at: now,
    }
}

/// A steward that was set up is kept as long as no other assistant is asked for: by a later
/// request that names none or the one that it has, and by the same request again unless it
/// names a blank one.
pub proof fn law_bootstrap_is_repeatable(
    user_id: Seq<char>,
    conversation_id: Seq<char>,
    request: BootstrapStewardRequestView,
    later: BootstrapStewardRequestView,
    server: JsonView,
    now: i64,
)
    ensures
        later.assistant_id is None || later.assistant_id == Some(bootstrap_plan(request, server).assistant_id)
            ==> reusable(Some(profile_set_up(user_id, conversation_id, request, server, now)), later) == Some(
            conversation_id,
        ),
        (request.assistant_id matches Some(a) ==> unless_blank(Some(a)) is Some) ==> reusable(
            Some(profile_set_up(user_id, conversation_id, request, server, now)),
            request,
        ) == Some(conversation_id),
{
}

// ---------------------------------------------------------------------
// What a profile comes to
// ---------------------------------------------------------------------

/// The steward's conversation is used again for a request that names no assistant or names
/// its own; a request for another assistant gets a new one.
pub proof fn law_a_steward_is_used_again(profile: StewardProfileRowView, request: BootstrapStewardRequestView)
    ensures
        request.assistant_id is None ==> reusable(Some(profile), request) == profile.conversation_id,
        request.assistant_id is Some && profile.assistant_id == request.assistant_id ==> reusable(
            Some(profile),
            request,
        ) == profile.conversation_id,
        request.assistant_id is Some && profile.assistant_id != request.assistant_id ==> reusable(
            Some(profile),
            request,
        ) is None,
        reusable(None, request) is None,
        profile.assistant_id matches Some(a) ==> assistant_of(profile) == a,
        profile.assistant_id is None ==> assistant_of(profile) == DEFAULT_STEWARD_ASSISTANT_ID@,
{
}

/// A steward is switched to the assistant that is wanted, trimmed, in its own conversation;
/// one that has it already is kept. Without an assistant, a profile or a conversation there
/// is nothing to switch.
pub proof fn law_a_steward_is_switched_in_place(profile: Option<StewardProfileRowView>, wanted: Seq<char>)
    ensures
        trimmed(wanted).len() == 0 ==> (switch_plan(profile, wanted) matches Err(e) && e is BadRequest),
        trimmed(wanted).len() > 0 && profile is None ==> (switch_plan(profile, wanted) matches Err(e)
            && e is NotFound),
        trimmed(wanted).len() > 0 ==> (profile matches Some(p) ==> {
            &&& p.conversation_id is None ==> switch_plan(profile, wanted) is Err
                && switch_plan(profile, wanted)->Err_0 is NotFound
            &&& p.conversation_id is Some && p.assistant_id == Some(trimmed(wanted)) ==> switch_plan(profile, wanted)
                == Ok::<SwitchPlanView, ConversationErrorView>(SwitchPlanView::Keep)
            &&& p.conversation_id is Some && p.assistant_id != Some(trimmed(wanted)) ==> switch_plan(profile, wanted)
                == Ok::<SwitchPlanView, ConversationErrorView>(
                SwitchPlanView::Switch {
                    conversation_id: p.conversation_id.unwrap(),
                    assistant_id: trimmed(wanted),
                },
            )
        }),
{
}

/// A new steward is marked as one, has its prompt and its own tools, and takes the assistant
/// and the workspace that are asked for.
pub proof fn law_a_new_steward_is_one(request: BootstrapStewardRequestView, server: JsonView)
    ensures
        ({
            let plan = bootstrap_plan(request, server);
            &&& marks_steward(plan.extra)
            &&& text_field(plan.extra, "preset_context"@) == Some(STEWARD_PROMPT@)
            &&& field(plan.extra, "selected_session_mcp_servers"@) == Some(JsonView::Array(seq![server]))
            &&& plan.name == STEWARD_NAME@
            &&& request.assistant_id is Some && trimmed(request.assistant_id.unwrap()).len() > 0
                ==> plan.assistant_id == request.assistant_id.unwrap()
            &&& request.assistant_id is None || trimmed(request.assistant_id.unwrap()).len() == 0
                ==> plan.assistant_id == DEFAULT_STEWARD_ASSISTANT_ID@
            &&& request.workspace is Some && trimmed(request.workspace.unwrap()).len() > 0 ==> text_field(
                plan.extra,
                "workspace"@,
            ) == request.workspace
            &&& request.workspace is None || trimmed(request.workspace.unwrap()).len() == 0 ==> field(
                plan.extra,
                "workspace"@,
            ) is None
        }),
{
    let base = seq![
        ("steward"@, JsonView::Bool(true)),
        ("preset_context"@, JsonView::Text(STEWARD_PROMPT@)),
        ("selected_session_mcp_servers"@, JsonView::Array(seq![server])),
    ];
    reveal_strlit("steward");
    reveal_strlit("preset_context");
    reveal_strlit("selected_session_mcp_servers");
    reveal_strlit("workspace");
    assert("steward"@.len() == 7 && "preset_context"@.len() == 14 && "selected_session_mcp_servers"@.len() == 28
        && "workspace"@.len() == 9);
    let pairs = match unless_blank(request.workspace) {
        Some(w) => base.push(("workspace"@, JsonView::Text(w))),
        None => base,
    };
    assert(pairs[0] == base[0] && pairs[1] == base[1] && pairs[2] == base[2]);
    law_object_holds_its_entries(pairs, 0, "steward"@);
    law_object_holds_its_entries(pairs, 1, "preset_context"@);
    law_object_holds_its_entries(pairs, 2, "selected_session_mcp_servers"@);
    law_object_holds_its_entries(pairs, 3, "workspace"@);
}

/// A steward's conversation is brought back to what a steward is: marked as one, with its
/// prompt and its own tools alone, and without a team or a role in one.
pub proof fn law_a_steward_has_no_team(server: JsonView)
    ensures
        marks_steward(control_snapshot(server)),
        text_field(control_snapshot(server), "preset_context"@) == Some(STEWARD_PROMPT@),
        bool_field(control_snapshot(server), "embedded_team"@) == Some(false),
        field(control_snapshot(server), "embedded_team_id"@) == Some(JsonView::Null),
        field(control_snapshot(server), "teamId"@) == Some(JsonView::Null),
        field(control_snapshot(server), "role"@) == Some(JsonView::Null),
        field(control_snapshot(server), "slot_id"@) == Some(JsonView::Null),
        field(control_snapshot(server), "team_mcp_stdio_config"@) == Some(JsonView::Null),
        field(control_snapshot(server), "session_mcp_servers"@) == Some(JsonView::Array(seq![server])),
        field(control_snapshot(server), "mcp_server_ids"@) == Some(JsonView::Array(Seq::empty())),
{
    let statuses = JsonView::Array(
        seq![
            object_of(
                seq![
                    ("id"@, JsonView::Text(STEWARD_MCP_SERVER_NAME@)),
                    ("name"@, JsonView::Text(STEWARD_MCP_SERVER_NAME@)),
                    ("status"@, JsonView::Text("loaded"@)),
                ],
            ),
        ],
    );
    let pairs = seq![
        ("steward"@, JsonView::Bool(true)),
        ("preset_context"@, JsonView::Text(STEWARD_PROMPT@)),
        ("embedded_team"@, JsonView::Bool(false)),
        ("embedded_team_id"@, JsonView::Null),
        ("teamId"@, JsonView::Null),
        ("team_mcp_stdio_config"@, JsonView::Null),
        ("slot_id"@, JsonView::Null),
        ("role"@, JsonView::Null),
        ("mcp_server_ids"@, JsonView::Array(Seq::empty())),
        ("session_mcp_servers"@, JsonView::Array(seq![server])),
        ("mcp_servers"@, text_array(seq![STEWARD_MCP_SERVER_NAME@])),
        ("mcp_statuses"@, statuses),
    ];
    reveal_strlit("steward");
    reveal_strlit("preset_context");
    reveal_strlit("embedded_team");
    reveal_strlit("embedded_team_id");
    reveal_strlit("teamId");
    reveal_strlit("team_mcp_stdio_config");
    reveal_strlit("slot_id");
    reveal_strlit("role");
    reveal_strlit("mcp_server_ids");
    reveal_strlit("session_mcp_servers");
    reveal_strlit("mcp_servers");
    reveal_strlit("mcp_statuses");
    assert("steward"@.len() == 7 && "steward"@[1] == 't');
    assert("preset_context"@.len() == 14 && "preset_context"@[0] == 'p');
    assert("embedded_team"@.len() == 13);
    assert("embedded_team_id"@.len() == 16);
    assert("teamId"@.len() == 6);
    assert("team_mcp_stdio_config"@.len() == 21);
    assert("slot_id"@.len() == 7 && "slot_id"@[1] == 'l');
    assert("role"@.len() == 4);
    assert("mcp_server_ids"@.len() == 14 && "mcp_server_ids"@[0] == 'm');
    assert("session_mcp_servers"@.len() == 19);
    assert("mcp_servers"@.len() == 11);
    assert("mcp_statuses"@.len() == 12);
    assert(control_snapshot(server) == object_of(pairs));
    law_object_holds_its_entries(pairs, 0, "steward"@);
    law_object_holds_its_entries(pairs, 1, "preset_context"@);
    law_object_holds_its_entries(pairs, 2, "embedded_team"@);
    law_object_holds_its_entries(pairs, 3, "embedded_team_id"@);
    law_object_holds_its_entries(pairs, 4, "teamId"@);
    law_object_holds_its_entries(pairs, 5, "team_mcp_stdio_config"@);
    law_object_holds_its_entries(pairs, 6, "slot_id"@);
    law_object_holds_its_entries(pairs, 7, "role"@);
    law_object_holds_its_entries(pairs, 8, "mcp_server_ids"@);
    law_object_holds_its_entries(pairs, 9, "session_mcp_servers"@);
}

/// A profile that was set up leads back to its conversation: setting the steward up again,
/// for no assistant in particular or for the same one, goes on with it.
pub proof fn law_a_new_profile_is_gone_on_with(
    user_id: Seq<char>,
    conversation_id: Seq<char>,
    assistant_id: Seq<char>,
    now: i64,
    request: BootstrapStewardRequestView,
)
    ensures
        ({
            let p = first_profile(user_id, conversation_id, assistant_id, now);
            &&& p.user_id == user_id && p.created_at == now && p.updated_at == now
            &&& assistant_of(p) == assistant_id
            &&& request.assistant_id is None || request.assistant_id == Some(assistant_id) ==> reusable(
                Some(p),
                request,
            ) == Some(conversation_id)
            &&& request.assistant_id is Some && request.assistant_id != Some(assistant_id) ==> reusable(
                Some(p),
                request,
            ) is None
        }),
{
}

/// Switching the steward leaves the user, the conversation and the beginning alone; the last
/// assistant counts, and the time of the last switch.
pub proof fn law_the_last_switch_counts(
    profile: StewardProfileRowView,
    first: Seq<char>,
    then: i64,
    last: Seq<char>,
    now: i64,
)
    ensures
        assistant_of(profile_with(profile, last, now)) == last,
        profile_with(profile, last, now).updated_at == now,
        profile_with(profile, last, now).user_id == profile.user_id,
        profile_with(profile, last, now).conversation_id == profile.conversation_id,
        profile_with(profile, last, now).created_at == profile.created_at,
        profile_with(profile_with(profile, first, then), last, now) == profile_with(profile, last, now),
{
}

/// The control server is the helper that is given, run with the one argument that makes it
/// serve the steward, under one name.
pub proof fn law_the_control_server_is_the_helper(helper_binary: Seq<char>)
    ensures
        control_server(helper_binary).command == helper_binary,
        control_server(helper_binary).args == seq!["mcp-steward-stdio"@],
        control_server(helper_binary).id == control_server(helper_binary).name,
        control_server(helper_binary).name == STEWARD_MCP_SERVER_NAME@,
{
}

} // verus!
