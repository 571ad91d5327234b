//! What a conversation is to the steward, and whether it may be archived.
use vstd::prelude::*;
use crate::conversation::{
    ConversationError, ConversationErrorView, ConversationResponse, ConversationResponseView,
    ConversationRuntimeSummary, ConversationRuntimeSummaryView, ConversationStatus,
};
use crate::json::{bool_field, field, text_field, JsonView};
use crate::text::{blank, is_blank, opt_view, same, trimmed};

verus! {

/// Whether the extra data of a conversation mark it as a steward's own.
pub open spec fn marks_steward(extra: JsonView) -> bool {
    bool_field(extra, "steward"@) == Some(true)
}

/// Whether the extra data of a conversation mark it as that of a team's worker.
pub open spec fn marks_worker(extra: JsonView) -> bool {
    if text_field(extra, "role"@) == Some("lead"@) {
        false
    } else if text_field(extra, "role"@) == Some("teammate"@) {
        true
    } else {
        field(extra, "teamId"@) is Some
    }
}

/// Whether this is a steward's own conversation.
pub fn is_steward_conversation(conversation: &ConversationResponse) -> (r: bool)
    ensures
        r == marks_steward(conversation@.extra),
{
    match conversation.extra.bool_at("steward") {
        Some(b) => b,
        None => false,
    }
}

/// Whether this is the conversation of a team's worker.
pub fn is_team_worker_conversation(conversation: &ConversationResponse) -> (r: bool)
    ensures
        r == marks_worker(conversation@.extra),
{
    if let Some(role) = conversation.extra.text_at("role") {
        if same(role, "lead") {
            return false;
        }
        if same(role, "teammate") {
            proof {
                reveal_strlit("lead");
                reveal_strlit("teammate");
            }
            return true;
        }
    }
    conversation.extra.get("teamId").is_some()
}

/// What is to be archived or restored.
#[derive(Debug, Clone, PartialEq, Eq)]
pub enum StewardArchiveTarget {
    Conversation(String),
    Team(String),
}

/// The model of [`StewardArchiveTarget`].
#[verifier::ext_equal]
pub enum ArchiveTargetView {
    Conversation(Seq<char>),
    Team(Seq<char>),
}

impl View for StewardArchiveTarget {
    type V = ArchiveTargetView;

    open spec fn view(&self) -> ArchiveTargetView {
        match *self {
            StewardArchiveTarget::Conversation(id) => ArchiveTargetView::Conversation(id@),
            StewardArchiveTarget::Team(id) => ArchiveTargetView::Team(id@),
        }
    }
}

/// The target through which a conversation is archived: none for a steward or a worker, the
/// whole team for its leader.
pub open spec fn archive_target(c: ConversationResponseView) -> Result<ArchiveTargetView, ConversationErrorView> {
    if marks_steward(c.extra) {
        Err(ConversationErrorView::BadRequest { reason: "The steward conversation cannot be archived"@ })
    } else if marks_worker(c.extra) {
        Err(
            ConversationErrorView::BadRequest {
                reason: "An individual team worker cannot be archived; archive its leader instead"@,
            },
        )
    } else {
        match text_field(c.extra, "embedded_team_id"@) {
            Some(team) => if !blank(team) {
                Ok(ArchiveTargetView::Team(team))
            } else {
                Ok(ArchiveTargetView::Conversation(c.id))
            },
            None => Ok(ArchiveTargetView::Conversation(c.id)),
        }
    }
}

/// The target through which a conversation is archived.
pub fn archive_target_for_conversation(conversation: &ConversationResponse) -> (r: Result<
    StewardArchiveTarget,
    ConversationError,
>)
    ensures
        crate::conversation::result_view(r) == archive_target(conversation@),
{
    if is_steward_conversation(conversation) {
        return Err(
            ConversationError::bad_request("The steward conversation cannot be archived".to_owned()),
        );
    }
    if is_team_worker_conversation(conversation) {
        return Err(
            ConversationError::bad_request(
                "An individual team worker cannot be archived; archive its leader instead".to_owned(),
            ),
        );
    }
    if let Some(team) = conversation.extra.text_at("embedded_team_id") {
        if !is_blank(team) {
            return Ok(StewardArchiveTarget::Team(team.to_owned()));
        }
    }
    Ok(StewardArchiveTarget::Conversation(conversation.id.clone()))
}

/// Neither a steward's conversation nor that of a worker is ever a target.
pub proof fn law_steward_and_workers_are_never_archived(c: ConversationResponseView)
    ensures
        marks_steward(c.extra) || marks_worker(c.extra) ==> archive_target(c) is Err,
        archive_target(c) is Err ==> marks_steward(c.extra) || marks_worker(c.extra),
{
}

/// Archiving the leader of a team archives the team, never the leader's conversation alone.
pub proof fn law_team_leader_stands_for_its_team(c: ConversationResponseView, team: Seq<char>)
    requires
        text_field(c.extra, "embedded_team_id"@) == Some(team),
        !blank(team),
        archive_target(c) is Ok,
    ensures
        archive_target(c) == Ok::<ArchiveTargetView, ConversationErrorView>(ArchiveTargetView::Team(team)),
{
}

/// Whether the runtime shows that something is being executed.
pub open spec fn executes(runtime: Option<ConversationRuntimeSummaryView>) -> bool {
    match runtime {
        Some(r) => r.is_processing || r.task_status == Some(ConversationStatus::Running)
            || r.pending_confirmations > 0,
        None => false,
    }
}

/// Whether the runtime shows that something is being executed.
pub fn runtime_has_execution_activity(runtime: Option<&ConversationRuntimeSummary>) -> (r: bool)
    ensures
        r == executes(opt_view(runtime)),
{
    match runtime {
        Some(x) => x.is_processing || status_is(x.task_status, ConversationStatus::Running)
            || x.pending_confirmations > 0,
        None => false,
    }
}

fn status_is(status: Option<ConversationStatus>, expected: ConversationStatus) -> (r: bool)
    ensures
        r == (status == Some(expected)),
{
    match status {
        Some(s) => s == expected,
        None => false,
    }
}

/// A conversation is a steward's exactly if its data say so with the value `true`.
pub proof fn law_a_steward_says_so(extra: JsonView)
    ensures
        marks_steward(extra) <==> field(extra, "steward"@) == Some(JsonView::Bool(true)),
{
}

/// A teammate is a worker and a lead is none, whatever else is said of them; of the others
/// those are workers that name a team.
pub proof fn law_workers_are_teammates(extra: JsonView)
    ensures
        text_field(extra, "role"@) == Some("lead"@) ==> !marks_worker(extra),
        text_field(extra, "role"@) == Some("teammate"@) ==> marks_worker(extra),
        text_field(extra, "role"@) != Some("lead"@) && text_field(extra, "role"@) != Some("teammate"@) ==> (
        marks_worker(extra) <==> field(extra, "teamId"@) is Some),
{
    reveal_strlit("lead");
    reveal_strlit("teammate");
    assert("lead"@.len() == 4);
    assert("teammate"@.len() == 8);
}

/// What is archived for a conversation is the team that it leads, where it names one, and
/// otherwise the conversation itself; a steward and a worker are told apart in what is said.
pub proof fn law_a_conversation_is_archived_as_a_whole(c: ConversationResponseView)
    ensures
        archive_target(c) matches Ok(ArchiveTargetView::Team(team)) ==> text_field(c.extra, "embedded_team_id"@)
            == Some(team) && trimmed(team).len() > 0,
        archive_target(c) matches Ok(ArchiveTargetView::Conversation(id)) ==> id == c.id && (text_field(
            c.extra,
            "embedded_team_id"@,
        ) matches Some(team) ==> trimmed(team).len() == 0),
        marks_steward(c.extra) ==> archive_target(c) == Err::<ArchiveTargetView, ConversationErrorView>(
            ConversationErrorView::BadRequest { reason: "The steward conversation cannot be archived"@ },
        ),
        !marks_steward(c.extra) && marks_worker(c.extra) ==> archive_target(c) == Err::<
            ArchiveTargetView,
            ConversationErrorView,
        >(
            ConversationErrorView::BadRequest {
                reason: "An individual team worker cannot be archived; archive its leader instead"@,
            },
        ),
        !marks_steward(c.extra) && !marks_worker(c.extra) ==> archive_target(c) is Ok,
{
}

/// A conversation is at work if it is processing, if its turn is running, or if it waits for
/// a confirmation; one of which nothing is known is not.
pub proof fn law_activity_is_any_of_three(runtime: Option<ConversationRuntimeSummaryView>)
    ensures
        runtime is None ==> !executes(runtime),
        runtime matches Some(r) ==> {
            &&& r.is_processing ==> executes(runtime)
            &&& r.task_status == Some(ConversationStatus::Running) ==> executes(runtime)
            &&& r.pending_confirmations > 0 ==> executes(runtime)
            &&& !r.is_processing && r.task_status != Some(ConversationStatus::Running) && r.pending_confirmations == 0
                ==> !executes(runtime)
        },
{
}

} // verus!
