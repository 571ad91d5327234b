//! The conversations that are bound to a task.
use vstd::prelude::*;
use crate::api::{StewardSessionRole, StewardTaskResponse, StewardTaskSessionResponse, StewardTaskSessionResponseView};
use crate::conversation::{result_view, ConversationError, ConversationErrorView};
use crate::rows::{StewardTaskSessionRow, StewardTaskSessionRowView};
use crate::text::{opt_view, same, views};

verus! {

/// The first binding in the role of the primary conversation.
pub open spec fn first_primary(bindings: Seq<StewardTaskSessionRowView>) -> Option<StewardTaskSessionRowView>
    decreases bindings.len(),
{
    if bindings.len() == 0 {
        None
    } else if bindings[0].role == "primary"@ {
        Some(bindings[0])
    } else {
        first_primary(bindings.drop_first())
    }
}

/// Finds the binding of the primary conversation.
pub fn primary_binding(bindings: &Vec<StewardTaskSessionRow>) -> (r: Option<&StewardTaskSessionRow>)
    ensures
        opt_view(r) == first_primary(views(bindings@)),
{
    let ghost all = views(bindings@);
    let mut i: usize = 0;
    assert(all.skip(0) =~= all);
    while i < bindings.len()
        invariant
            i <= bindings@.len(),
            all == views(bindings@),
            first_primary(all) == first_primary(all.skip(i as int)),
        decreases bindings@.len() - i,
    {
        assert(all.skip(i as int).drop_first() =~= all.skip(i + 1));
        if same(bindings[i].role.as_str(), "primary") {
            return Some(&bindings[i]);
        }
        i += 1;
    }
    None
}

/// The primary conversation of a task with these bindings.
pub open spec fn primary_of(bindings: Seq<StewardTaskSessionRowView>) -> Result<Seq<char>, ConversationErrorView> {
    match first_primary(bindings) {
        Some(b) => Ok(b.conversation_id),
        None => Err(ConversationErrorView::BadRequest { reason: "task has no primary session"@ }),
    }
}

/// The primary conversation, which a task must have to be worked on.
pub fn primary_conversation(bindings: &Vec<StewardTaskSessionRow>) -> (r: Result<String, ConversationError>)
    ensures
        result_view(r) == primary_of(views(bindings@)),
{
    match primary_binding(bindings) {
        Some(b) => Ok(b.conversation_id.clone()),
        None => Err(ConversationError::bad_request("task has no primary session".to_owned())),
    }
}

// ---------------------------------------------------------------------
// Binding
// ---------------------------------------------------------------------

/// Whether two rows bind one conversation to one task, which is the key of the bindings.
pub open spec fn binds_alike(a: StewardTaskSessionRowView, b: StewardTaskSessionRowView) -> bool {
    a.task_id == b.task_id && a.conversation_id == b.conversation_id
}

/// Whether no conversation is bound to a task twice.
pub open spec fn are_keyed(rows: Seq<StewardTaskSessionRowView>) -> bool {
    forall|i: int, j: int|
        0 <= i < j < rows.len() ==> !binds_alike(#[trigger] rows[i], #[trigger] rows[j])
}

/// Whether a row is a primary binding of a task that was not detached.
pub open spec fn leads(row: StewardTaskSessionRowView, task_id: Seq<char>) -> bool {
    row.task_id == task_id && row.role == "primary"@ && row.detached_at is None
}

/// A stored binding after another was made: the same one takes the new role and counts again, and
/// the primary binding of the task gives way to a new one.
pub open spec fn given_way(
    old_row: StewardTaskSessionRowView,
    row: StewardTaskSessionRowView,
) -> StewardTaskSessionRowView {
    if binds_alike(old_row, row) {
        StewardTaskSessionRowView { role: row.role, detached_at: None, ..old_row }
    } else if row.role == "primary"@ && leads(old_row, row.task_id) {
        StewardTaskSessionRowView { detached_at: Some(row.created_at), ..old_row }
    } else {
        old_row
    }
}

/// Whether the conversation was bound to the task before.
pub open spec fn was_bound(rows: Seq<StewardTaskSessionRowView>, row: StewardTaskSessionRowView) -> bool {
    exists|i: int| 0 <= i < rows.len() && binds_alike(#[trigger] rows[i], row)
}

/// The bindings after another was made.
pub open spec fn with_binding(
    rows: Seq<StewardTaskSessionRowView>,
    row: StewardTaskSessionRowView,
) -> Seq<StewardTaskSessionRowView> {
    let kept = Seq::new(rows.len(), |i: int| given_way(rows[i], row));
    if was_bound(rows, row) {
        kept
    } else {
        kept.push(StewardTaskSessionRowView { detached_at: None, ..row })
    }
}

fn same_binding(a: &StewardTaskSessionRow, b: &StewardTaskSessionRow) -> (r: bool)
    ensures
        r == binds_alike(a@, b@),
{
    same(a.task_id.as_str(), b.task_id.as_str()) && same(a.conversation_id.as_str(), b.conversation_id.as_str())
}

fn give_way(old_row: StewardTaskSessionRow, row: &StewardTaskSessionRow) -> (r: StewardTaskSessionRow)
    ensures
        r@ == given_way(old_row@, row@),
{
    let mut old_row = old_row;
    if same_binding(&old_row, row) {
        old_row.role = row.role.clone();
        old_row.detached_at = None;
    } else if same(row.role.as_str(), "primary") && same(old_row.task_id.as_str(), row.task_id.as_str()) && same(
        old_row.role.as_str(),
        "primary",
    ) && old_row.detached_at.is_none() {
        old_row.detached_at = Some(row.created_at);
    }
    old_row
}

/// Binds a conversation to a task beside those that are bound already.
pub fn bind_session(rows: Vec<StewardTaskSessionRow>, row: StewardTaskSessionRow) -> (r: Vec<StewardTaskSessionRow>)
    ensures
        views(r@) == with_binding(views(rows@), row@),
{
    let ghost all = rows@;
    let mut known = false;
    let mut out: Vec<StewardTaskSessionRow> = Vec::new();
    for x in it: rows
        invariant
            it.seq() == all,
            out@.len() == it.index(),
            forall|k: int| 0 <= k < out@.len() ==> #[trigger] out@[k]@ == given_way(all[k]@, row@),
            known == exists|k: int| 0 <= k < it.index() && binds_alike(#[trigger] views(all)[k], row@),
    {
        proof {
            assert(x == all[it.index() as int]);
            assert(views(all)[it.index() as int] == x@);
        }
        if same_binding(&x, &row) {
            known = true;
        }
        out.push(give_way(x, &row));
    }
    let ghost kept = Seq::new(all.len(), |i: int| given_way(views(all)[i], row@));
    assert(views(out@) =~= kept);
    assert(known == was_bound(views(all), row@));
    if !known {
        let mut row = row;
        row.detached_at = None;
        out.push(row);
        assert(views(out@) =~= kept.push(row@));
    }
    out
}

/// A primary binding leaves its task with exactly one primary that counts, the conversation that
/// was bound: whatever order the bindings that count are listed in, it is the primary among
/// them.
pub proof fn law_primary_binding_is_the_only_one(
    rows: Seq<StewardTaskSessionRowView>,
    row: StewardTaskSessionRowView,
    listed: Seq<StewardTaskSessionRowView>,
)
    requires
        are_keyed(rows),
        row.role == "primary"@,
        forall|x: StewardTaskSessionRowView| #[trigger]
            listed.contains(x) <==> with_binding(rows, row).contains(x) && x.task_id == row.task_id
                && x.detached_at is None,
    ensures
        are_keyed(with_binding(rows, row)),
        exists|i: int|
            0 <= i < with_binding(rows, row).len() && leads(#[trigger] with_binding(rows, row)[i], row.task_id),
        forall|i: int|
            0 <= i < with_binding(rows, row).len() && leads(#[trigger] with_binding(rows, row)[i], row.task_id)
                ==> with_binding(rows, row)[i].conversation_id == row.conversation_id,
        primary_of(listed) == Ok::<Seq<char>, ConversationErrorView>(row.conversation_id),
{
    let after = with_binding(rows, row);
    lemma_binding_stays_keyed(rows, row);
    let k = lemma_bound_row(rows, row);
    assert(leads(after[k], row.task_id));
    assert(listed.contains(after[k]));
    lemma_first_primary(listed, listed.index_of(after[k]));
    let first = first_primary(listed).unwrap();
    assert(listed.contains(first));
    let i = after.index_of(first);
    assert(leads(after[i], row.task_id));
}

/// A binding in another role than the primary leaves every other binding alone, and a binding
/// of any role leaves those of other tasks alone.
pub proof fn law_bindings_of_others_are_left_alone(
    rows: Seq<StewardTaskSessionRowView>,
    row: StewardTaskSessionRowView,
    i: int,
)
    requires
        0 <= i < rows.len(),
        !binds_alike(rows[i], row),
        row.role != "primary"@ || rows[i].task_id != row.task_id,
    ensures
        with_binding(rows, row)[i] == rows[i],
{
}

proof fn lemma_bound_row(rows: Seq<StewardTaskSessionRowView>, row: StewardTaskSessionRowView) -> (k: int)
    ensures
        0 <= k < with_binding(rows, row).len(),
        binds_alike(with_binding(rows, row)[k], row),
        with_binding(rows, row)[k].role == row.role,
        with_binding(rows, row)[k].detached_at is None,
{
    if was_bound(rows, row) {
        choose|i: int| 0 <= i < rows.len() && binds_alike(#[trigger] rows[i], row)
    } else {
        rows.len() as int
    }
}

proof fn lemma_binding_stays_keyed(rows: Seq<StewardTaskSessionRowView>, row: StewardTaskSessionRowView)
    requires
        are_keyed(rows),
    ensures
        are_keyed(with_binding(rows, row)),
{
    let after = with_binding(rows, row);
    assert forall|i: int, j: int| 0 <= i < j < after.len() implies !binds_alike(
        #[trigger] after[i],
        #[trigger] after[j],
    ) by {
        assert(binds_alike(after[i], rows[i]));
        if j < rows.len() {
            assert(!binds_alike(rows[i], rows[j]));
        } else {
            assert(!binds_alike(rows[i], row));
        }
    }
}

proof fn lemma_first_primary(bindings: Seq<StewardTaskSessionRowView>, k: int)
    requires
        0 <= k < bindings.len(),
        bindings[k].role == "primary"@,
    ensures
        first_primary(bindings) is Some,
        first_primary(bindings).unwrap().role == "primary"@,
        bindings.contains(first_primary(bindings).unwrap()),
    decreases bindings.len(),
{
    if bindings[0].role == "primary"@ {
        assert(bindings[0] == first_primary(bindings).unwrap());
    } else {
        let rest = bindings.drop_first();
        assert(rest[k - 1] == bindings[k]);
        lemma_first_primary(rest, k - 1);
        let i = rest.index_of(first_primary(rest).unwrap());
        assert(bindings[i + 1] == rest[i]);
    }
}

// ---------------------------------------------------------------------
// As shown
// ---------------------------------------------------------------------

/// The session in the role of the primary, else the first one.
pub open spec fn leading_session(sessions: Seq<StewardTaskSessionResponseView>) -> Option<
    StewardTaskSessionResponseView,
> {
    match first_in_role(sessions, StewardSessionRole::Primary) {
        Some(s) => Some(s),
        None => if sessions.len() > 0 {
            Some(sessions[0])
        } else {
            None
        },
    }
}

/// The first session in a role.
pub open spec fn first_in_role(
    sessions: Seq<StewardTaskSessionResponseView>,
    role: StewardSessionRole,
) -> Option<StewardTaskSessionResponseView>
    decreases sessions.len(),
{
    if sessions.len() == 0 {
        None
    } else if sessions[0].role == role {
        Some(sessions[0])
    } else {
        first_in_role(sessions.drop_first(), role)
    }
}

/// The session that stands for a task.
pub fn primary_session(task: &StewardTaskResponse) -> (r: Option<&StewardTaskSessionResponse>)
    ensures
        opt_view(r) == leading_session(task@.sessions),
{
    let sessions = &task.sessions;
    let ghost all = views(sessions@);
    let mut i: usize = 0;
    assert(all.skip(0) =~= all);
    while i < sessions.len()
        invariant
            i <= sessions@.len(),
            all == views(sessions@),
            first_in_role(all, StewardSessionRole::Primary) == first_in_role(
                all.skip(i as int),
                StewardSessionRole::Primary,
            ),
            *sessions == task.sessions,
        decreases sessions@.len() - i,
    {
        assert(all.skip(i as int).drop_first() =~= all.skip(i + 1));
        if sessions[i].role == StewardSessionRole::Primary {
            return Some(&sessions[i]);
        }
        i += 1;
    }
    if sessions.len() > 0 {
        Some(&sessions[0])
    } else {
        None
    }
}

// ---------------------------------------------------------------------
// Which one counts
// ---------------------------------------------------------------------

/// The primary conversation of a task is that of the first binding in the role `primary`.
pub proof fn law_the_first_primary_counts(bindings: Seq<StewardTaskSessionRowView>, k: int)
    requires
        0 <= k < bindings.len(),
        bindings[k].role == "primary"@,
        forall|i: int| 0 <= i < k ==> (#[trigger] bindings[i]).role != "primary"@,
    ensures
        first_primary(bindings) == Some(bindings[k]),
        primary_of(bindings) == Ok::<Seq<char>, ConversationErrorView>(bindings[k].conversation_id),
    decreases k,
{
    if k > 0 {
        let rest = bindings.drop_first();
        assert(bindings[0].role != "primary"@);
        assert(rest[k - 1] == bindings[k]);
        assert forall|i: int| 0 <= i < k - 1 implies (#[trigger] rest[i]).role != "primary"@ by {
            assert(rest[i] == bindings[i + 1]);
        }
        law_the_first_primary_counts(rest, k - 1);
    }
}

/// A task of whose bindings none is in the role `primary` has no primary conversation, and
/// cannot be worked on.
pub proof fn law_no_primary_no_work(bindings: Seq<StewardTaskSessionRowView>)
    requires
        forall|i: int| 0 <= i < bindings.len() ==> (#[trigger] bindings[i]).role != "primary"@,
    ensures
        first_primary(bindings) is None,
        primary_of(bindings) matches Err(e) && e is BadRequest,
    decreases bindings.len(),
{
    if bindings.len() > 0 {
        let rest = bindings.drop_first();
        assert(bindings[0].role != "primary"@);
        assert forall|i: int| 0 <= i < rest.len() implies (#[trigger] rest[i]).role != "primary"@ by {
            assert(rest[i] == bindings[i + 1]);
        }
        law_no_primary_no_work(rest);
    }
}

/// A conversation that is bound again takes the new role, in its old place, and counts
/// again. A new primary detaches, at its own time, the primary that its task had; one that
/// was detached before keeps its time. Whatever is new stands at the end.
pub proof fn law_a_binding_takes_its_place(
    rows: Seq<StewardTaskSessionRowView>,
    row: StewardTaskSessionRowView,
    i: int,
)
    requires
        0 <= i < rows.len(),
    ensures
        rows[i].task_id == row.task_id && rows[i].conversation_id == row.conversation_id ==> {
            &&& with_binding(rows, row).len() == rows.len()
            &&& with_binding(rows, row)[i] == (StewardTaskSessionRowView {
                role: row.role,
                detached_at: None,
                ..rows[i]
            })
        },
        rows[i].task_id == row.task_id && rows[i].conversation_id != row.conversation_id && row.role == "primary"@
            && rows[i].role == "primary"@ && rows[i].detached_at is None ==> with_binding(rows, row)[i] == (
        StewardTaskSessionRowView { detached_at: Some(row.created_at), ..rows[i] }),
        rows[i].conversation_id != row.conversation_id && (rows[i].role != "primary"@ || rows[i].detached_at is Some
            || row.role != "primary"@) ==> with_binding(rows, row)[i] == rows[i],
        rows[i].task_id != row.task_id ==> with_binding(rows, row)[i] == rows[i],
        (forall|k: int|
            0 <= k < rows.len() ==> (#[trigger] rows[k]).task_id != row.task_id || rows[k].conversation_id
                != row.conversation_id) ==> with_binding(rows, row).len() == rows.len() + 1 && with_binding(
            rows,
            row,
        )[rows.len() as int] == (StewardTaskSessionRowView { detached_at: None, ..row }),
{
    if rows[i].task_id == row.task_id && rows[i].conversation_id == row.conversation_id {
        assert(binds_alike(rows[i], row));
    }
}

/// The session that stands for a task is the first one in the role of the primary.
pub proof fn law_the_first_primary_session_leads(sessions: Seq<StewardTaskSessionResponseView>, k: int)
    requires
        0 <= k < sessions.len(),
        sessions[k].role == StewardSessionRole::Primary,
        forall|i: int| 0 <= i < k ==> (#[trigger] sessions[i]).role != StewardSessionRole::Primary,
    ensures
        leading_session(sessions) == Some(sessions[k]),
    decreases k,
{
    if k > 0 {
        let rest = sessions.drop_first();
        assert(sessions[0].role != StewardSessionRole::Primary);
        assert(rest[k - 1] == sessions[k]);
        assert forall|i: int| 0 <= i < k - 1 implies (#[trigger] rest[i]).role != StewardSessionRole::Primary by {
            assert(rest[i] == sessions[i + 1]);
        }
        law_the_first_primary_session_leads(rest, k - 1);
    }
}

/// Where no session is in the role of the primary, the first one stands for the task, and
/// nothing does where there is none.
pub proof fn law_the_first_session_leads_otherwise(sessions: Seq<StewardTaskSessionResponseView>)
    requires
        forall|i: int| 0 <= i < sessions.len() ==> (#[trigger] sessions[i]).role != StewardSessionRole::Primary,
    ensures
        sessions.len() > 0 ==> leading_session(sessions) == Some(sessions[0]),
        sessions.len() == 0 ==> leading_session(sessions) is None,
{
    lemma_none_in_role(sessions);
}

proof fn lemma_none_in_role(sessions: Seq<StewardTaskSessionResponseView>)
    requires
        forall|i: int| 0 <= i < sessions.len() ==> (#[trigger] sessions[i]).role != StewardSessionRole::Primary,
    ensures
        first_in_role(sessions, StewardSessionRole::Primary) is None,
    decreases sessions.len(),
{
    if sessions.len() > 0 {
        let rest = sessions.drop_first();
        assert(sessions[0].role != StewardSessionRole::Primary);
        assert forall|i: int| 0 <= i < rest.len() implies (#[trigger] rest[i]).role != StewardSessionRole::Primary by {
            assert(rest[i] == sessions[i + 1]);
        }
        lemma_none_in_role(rest);
    }
}

} // verus!
