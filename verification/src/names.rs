//! The names under which states are stored.
use vstd::prelude::*;
use crate::api::{
    execution_state_name, lifecycle_name, session_role_name, StewardExecutionState, StewardSessionRole,
    StewardTaskLifecycle,
};
use crate::conversation::{ConversationError, ConversationErrorView};
use crate::text::{has_suffix, same};

verus! {

/// The lifecycle that is stored under a name.
pub open spec fn lifecycle_of(value: Seq<char>) -> Result<StewardTaskLifecycle, ConversationErrorView> {
    if value == "open"@ {
        Ok(StewardTaskLifecycle::Open)
    } else if value == "completed"@ {
        Ok(StewardTaskLifecycle::Completed)
    } else if value == "cancelled"@ {
        Ok(StewardTaskLifecycle::Cancelled)
    } else if value == "archived"@ {
        Ok(StewardTaskLifecycle::Archived)
    } else {
        Err(ConversationErrorView::Internal { reason: "invalid steward lifecycle: "@ + value })
    }
}

/// Reads the stored name of a lifecycle.
pub fn parse_lifecycle(value: &str) -> (r: Result<StewardTaskLifecycle, ConversationError>)
    ensures
        match r {
            Ok(x) => lifecycle_of(value@) == Ok::<StewardTaskLifecycle, ConversationErrorView>(x),
            Err(e) => lifecycle_of(value@) == Err::<StewardTaskLifecycle, ConversationErrorView>(e@),
        },
{
    if same(value, "open") {
        Ok(StewardTaskLifecycle::Open)
    } else if same(value, "completed") {
        Ok(StewardTaskLifecycle::Completed)
    } else if same(value, "cancelled") {
        Ok(StewardTaskLifecycle::Cancelled)
    } else if same(value, "archived") {
        Ok(StewardTaskLifecycle::Archived)
    } else {
        let mut reason = "invalid steward lifecycle: ".to_owned();
        reason.append(value);
        Err(ConversationError::internal(reason))
    }
}

/// Each lifecycle is read back from the name that it is stored under.
pub proof fn law_lifecycle_is_read_back(x: StewardTaskLifecycle)
    ensures
        lifecycle_of(lifecycle_name(x)) == Ok::<StewardTaskLifecycle, ConversationErrorView>(x),
{
    reveal_strlit("open");
    assert("open"@.len() == 4);
    reveal_strlit("completed");
    assert("completed"@.len() == 9);
    reveal_strlit("cancelled");
    assert("cancelled"@.len() == 9);
    reveal_strlit("archived");
    assert("archived"@.len() == 8);
    assert("completed"@[1] != "cancelled"@[1]);
}

/// The execution state that is stored under a name.
pub open spec fn execution_state_of(value: Seq<char>) -> Result<StewardExecutionState, ConversationErrorView> {
    if value == "unassigned"@ {
        Ok(StewardExecutionState::Unassigned)
    } else if value == "running"@ {
        Ok(StewardExecutionState::Running)
    } else if value == "waiting_user"@ {
        Ok(StewardExecutionState::WaitingUser)
    } else if value == "waiting_external"@ {
        Ok(StewardExecutionState::WaitingExternal)
    } else if value == "paused"@ {
        Ok(StewardExecutionState::Paused)
    } else if value == "interrupted"@ {
        Ok(StewardExecutionState::Interrupted)
    } else if value == "failed"@ {
        Ok(StewardExecutionState::Failed)
    } else if value == "idle"@ {
        Ok(StewardExecutionState::Idle)
    } else {
        Err(ConversationErrorView::Internal { reason: "invalid steward execution state: "@ + value })
    }
}

/// Reads the stored name of a execution state.
pub fn parse_execution_state(value: &str) -> (r: Result<StewardExecutionState, ConversationError>)
    ensures
        match r {
            Ok(x) => execution_state_of(value@) == Ok::<StewardExecutionState, ConversationErrorView>(x),
            Err(e) => execution_state_of(value@) == Err::<StewardExecutionState, ConversationErrorView>(e@),
        },
{
    if same(value, "unassigned") {
        Ok(StewardExecutionState::Unassigned)
    } else if same(value, "running") {
        Ok(StewardExecutionState::Running)
    } else if same(value, "waiting_user") {
        Ok(StewardExecutionState::WaitingUser)
    } else if same(value, "waiting_external") {
        Ok(StewardExecutionState::WaitingExternal)
    } else if same(value, "paused") {
        Ok(StewardExecutionState::Paused)
    } else if same(value, "interrupted") {
        Ok(StewardExecutionState::Interrupted)
    } else if same(value, "failed") {
        Ok(StewardExecutionState::Failed)
    } else if same(value, "idle") {
        Ok(StewardExecutionState::Idle)
    } else {
        let mut reason = "invalid steward execution state: ".to_owned();
        reason.append(value);
        Err(ConversationError::internal(reason))
    }
}

/// Each execution state is read back from the name that it is stored under.
pub proof fn law_execution_state_is_read_back(x: StewardExecutionState)
    ensures
        execution_state_of(execution_state_name(x)) == Ok::<StewardExecutionState, ConversationErrorView>(x),
{
    reveal_strlit("unassigned");
    assert("unassigned"@.len() == 10);
    reveal_strlit("running");
    assert("running"@.len() == 7);
    reveal_strlit("waiting_user");
    assert("waiting_user"@.len() == 12);
    reveal_strlit("waiting_external");
    assert("waiting_external"@.len() == 16);
    reveal_strlit("paused");
    assert("paused"@.len() == 6);
    reveal_strlit("interrupted");
    assert("interrupted"@.len() == 11);
    reveal_strlit("failed");
    assert("failed"@.len() == 6);
    reveal_strlit("idle");
    assert("idle"@.len() == 4);
    assert("paused"@[0] != "failed"@[0]);
}

/// The session role that is stored under a name.
pub open spec fn session_role_of(value: Seq<char>) -> Result<StewardSessionRole, ConversationErrorView> {
    if value == "primary"@ {
        Ok(StewardSessionRole::Primary)
    } else if value == "worker"@ {
        Ok(StewardSessionRole::Worker)
    } else if value == "replacement"@ {
        Ok(StewardSessionRole::Replacement)
    } else if value == "observer"@ {
        Ok(StewardSessionRole::Observer)
    } else {
        Err(ConversationErrorView::Internal { reason: "invalid steward session role: "@ + value })
    }
}

/// Reads the stored name of a session role.
pub fn parse_session_role(value: &str) -> (r: Result<StewardSessionRole, ConversationError>)
    ensures
        match r {
            Ok(x) => session_role_of(value@) == Ok::<StewardSessionRole, ConversationErrorView>(x),
            Err(e) => session_role_of(value@) == Err::<StewardSessionRole, ConversationErrorView>(e@),
        },
{
    if same(value, "primary") {
        Ok(StewardSessionRole::Primary)
    } else if same(value, "worker") {
        Ok(StewardSessionRole::Worker)
    } else if same(value, "replacement") {
        Ok(StewardSessionRole::Replacement)
    } else if same(value, "observer") {
        Ok(StewardSessionRole::Observer)
    } else {
        let mut reason = "invalid steward session role: ".to_owned();
        reason.append(value);
        Err(ConversationError::internal(reason))
    }
}

/// Each session role is read back from the name that it is stored under.
pub proof fn law_session_role_is_read_back(x: StewardSessionRole)
    ensures
        session_role_of(session_role_name(x)) == Ok::<StewardSessionRole, ConversationErrorView>(x),
{
    reveal_strlit("primary");
    assert("primary"@.len() == 7);
    reveal_strlit("worker");
    assert("worker"@.len() == 6);
    reveal_strlit("replacement");
    assert("replacement"@.len() == 11);
    reveal_strlit("observer");
    assert("observer"@.len() == 8);

}

/// Each lifecycle is stored under its one name, and no other name is read; an error repeats it.
pub proof fn law_lifecycle_names_are_fixed(x: StewardTaskLifecycle, value: Seq<char>)
    ensures
        x is Open <==> lifecycle_name(x) == "open"@,
        x is Completed <==> lifecycle_name(x) == "completed"@,
        x is Cancelled <==> lifecycle_name(x) == "cancelled"@,
        x is Archived <==> lifecycle_name(x) == "archived"@,
        lifecycle_of("open"@) == Ok::<StewardTaskLifecycle, ConversationErrorView>(StewardTaskLifecycle::Open),
        lifecycle_of("completed"@) == Ok::<StewardTaskLifecycle, ConversationErrorView>(StewardTaskLifecycle::Completed),
        lifecycle_of("cancelled"@) == Ok::<StewardTaskLifecycle, ConversationErrorView>(StewardTaskLifecycle::Cancelled),
        lifecycle_of("archived"@) == Ok::<StewardTaskLifecycle, ConversationErrorView>(StewardTaskLifecycle::Archived),
        value != "open"@ && value != "completed"@ && value != "cancelled"@ && value != "archived"@ ==> (lifecycle_of(value) matches Err(e) && e matches ConversationErrorView::Internal { reason } && has_suffix(
            reason,
            value,
        )),
        lifecycle_of(value) matches Ok(y) ==> value == lifecycle_name(y),
{
    reveal_strlit("open");
    assert("open"@.len() == 4 && "open"@[0] == 'o' && "open"@[1] == 'p' && "open"@[2] == 'e');
    reveal_strlit("completed");
    assert("completed"@.len() == 9 && "completed"@[0] == 'c' && "completed"@[1] == 'o' && "completed"@[2] == 'm');
    reveal_strlit("cancelled");
    assert("cancelled"@.len() == 9 && "cancelled"@[0] == 'c' && "cancelled"@[1] == 'a' && "cancelled"@[2] == 'n');
    reveal_strlit("archived");
    assert("archived"@.len() == 8 && "archived"@[0] == 'a' && "archived"@[1] == 'r' && "archived"@[2] == 'c');
    let reason = "invalid steward lifecycle: "@ + value;
    assert(reason.skip(reason.len() - value.len()) =~= value);
}

/// Each execution state is stored under its one name, and no other name is read; an error
/// repeats it.
pub proof fn law_execution_state_names_are_fixed(x: StewardExecutionState, value: Seq<char>)
    ensures
        x is Unassigned <==> execution_state_name(x) == "unassigned"@,
        x is Running <==> execution_state_name(x) == "running"@,
        x is WaitingUser <==> execution_state_name(x) == "waiting_user"@,
        x is WaitingExternal <==> execution_state_name(x) == "waiting_external"@,
        x is Paused <==> execution_state_name(x) == "paused"@,
        x is Interrupted <==> execution_state_name(x) == "interrupted"@,
        x is Failed <==> execution_state_name(x) == "failed"@,
        x is Idle <==> execution_state_name(x) == "idle"@,
        execution_state_of("unassigned"@) == Ok::<StewardExecutionState, ConversationErrorView>(StewardExecutionState::Unassigned),
        execution_state_of("running"@) == Ok::<StewardExecutionState, ConversationErrorView>(StewardExecutionState::Running),
        execution_state_of("waiting_user"@) == Ok::<StewardExecutionState, ConversationErrorView>(StewardExecutionState::WaitingUser),
        execution_state_of("waiting_external"@) == Ok::<StewardExecutionState, ConversationErrorView>(StewardExecutionState::WaitingExternal),
        execution_state_of("paused"@) == Ok::<StewardExecutionState, ConversationErrorView>(StewardExecutionState::Paused),
        execution_state_of("interrupted"@) == Ok::<StewardExecutionState, ConversationErrorView>(StewardExecutionState::Interrupted),
        execution_state_of("failed"@) == Ok::<StewardExecutionState, ConversationErrorView>(StewardExecutionState::Failed),
        execution_state_of("idle"@) == Ok::<StewardExecutionState, ConversationErrorView>(StewardExecutionState::Idle),
        value != "unassigned"@ && value != "running"@ && value != "waiting_user"@ && value != "waiting_external"@ && value != "paused"@ && value != "interrupted"@ && value != "failed"@ && value != "idle"@ ==> (execution_state_of(value) matches Err(e) && e matches ConversationErrorView::Internal { reason } && has_suffix(
            reason,
            value,
        )),
        execution_state_of(value) matches Ok(y) ==> value == execution_state_name(y),
{
    reveal_strlit("unassigned");
    assert("unassigned"@.len() == 10 && "unassigned"@[0] == 'u' && "unassigned"@[1] == 'n' && "unassigned"@[2] == 'a');
    reveal_strlit("running");
    assert("running"@.len() == 7 && "running"@[0] == 'r' && "running"@[1] == 'u' && "running"@[2] == 'n');
    reveal_strlit("waiting_user");
    assert("waiting_user"@.len() == 12 && "waiting_user"@[0] == 'w' && "waiting_user"@[1] == 'a' && "waiting_user"@[2] == 'i');
    reveal_strlit("waiting_external");
    assert("waiting_external"@.len() == 16 && "waiting_external"@[0] == 'w' && "waiting_external"@[1] == 'a' && "waiting_external"@[2] == 'i');
    reveal_strlit("paused");
    assert("paused"@.len() == 6 && "paused"@[0] == 'p' && "paused"@[1] == 'a' && "paused"@[2] == 'u');
    reveal_strlit("interrupted");
    assert("interrupted"@.len() == 11 && "interrupted"@[0] == 'i' && "interrupted"@[1] == 'n' && "interrupted"@[2] == 't');
    reveal_strlit("failed");
    assert("failed"@.len() == 6 && "failed"@[0] == 'f' && "failed"@[1] == 'a' && "failed"@[2] == 'i');
    reveal_strlit("idle");
    assert("idle"@.len() == 4 && "idle"@[0] == 'i' && "idle"@[1] == 'd' && "idle"@[2] == 'l');
    let reason = "invalid steward execution state: "@ + value;
    assert(reason.skip(reason.len() - value.len()) =~= value);
}

/// Each role is stored under its one name, and no other name is read; an error repeats it.
pub proof fn law_session_role_names_are_fixed(x: StewardSessionRole, value: Seq<char>)
    ensures
        x is Primary <==> session_role_name(x) == "primary"@,
        x is Worker <==> session_role_name(x) == "worker"@,
        x is Replacement <==> session_role_name(x) == "replacement"@,
        x is Observer <==> session_role_name(x) == "observer"@,
        session_role_of("primary"@) == Ok::<StewardSessionRole, ConversationErrorView>(StewardSessionRole::Primary),
        session_role_of("worker"@) == Ok::<StewardSessionRole, ConversationErrorView>(StewardSessionRole::Worker),
        session_role_of("replacement"@) == Ok::<StewardSessionRole, ConversationErrorView>(StewardSessionRole::Replacement),
        session_role_of("observer"@) == Ok::<StewardSessionRole, ConversationErrorView>(StewardSessionRole::Observer),
        value != "primary"@ && value != "worker"@ && value != "replacement"@ && value != "observer"@ ==> (session_role_of(value) matches Err(e) && e matches ConversationErrorView::Internal { reason } && has_suffix(
            reason,
            value,
        )),
        session_role_of(value) matches Ok(y) ==> value == session_role_name(y),
{
    reveal_strlit("primary");
    assert("primary"@.len() == 7 && "primary"@[0] == 'p' && "primary"@[1] == 'r' && "primary"@[2] == 'i');
    reveal_strlit("worker");
    assert("worker"@.len() == 6 && "worker"@[0] == 'w' && "worker"@[1] == 'o' && "worker"@[2] == 'r');
    reveal_strlit("replacement");
    assert("replacement"@.len() == 11 && "replacement"@[0] == 'r' && "replacement"@[1] == 'e' && "replacement"@[2] == 'p');
    reveal_strlit("observer");
    assert("observer"@.len() == 8 && "observer"@[0] == 'o' && "observer"@[1] == 'b' && "observer"@[2] == 's');
    let reason = "invalid steward session role: "@ + value;
    assert(reason.skip(reason.len() - value.len()) =~= value);
}

} // verus!
