//! What the stored tasks, events and reports are asked for.
use vstd::prelude::*;
use crate::conversation::ConversationErrorView;
use crate::rows::StewardTaskFilters;
use crate::tasks::no_such_task;
use crate::text::{as_text, lowercase, opt_view, to_lowercase, trim, trimmed};

verus! {

/// A limit brought between 1 and `most`.
pub open spec fn bounded(limit: u32, most: u32) -> int {
    if limit < 1 {
        1
    } else if limit > most {
        most as int
    } else {
        limit as int
    }
}

fn bound(limit: u32, most: u32) -> (r: i64)
    requires
        most >= 1,
    ensures
        r == bounded(limit, most),
{
    if limit < 1 {
        1
    } else if limit > most {
        most as i64
    } else {
        limit as i64
    }
}

/// How many tasks are listed at most.
pub fn task_limit(limit: u32) -> (r: i64)
    ensures
        r == bounded(limit, 200),
{
    bound(limit, 200)
}

/// How many events are listed at most.
pub fn event_limit(limit: u32) -> (r: i64)
    ensures
        r == bounded(limit, 200),
{
    bound(limit, 200)
}

/// How many pending reports are listed at most.
pub fn report_limit(limit: u32) -> (r: i64)
    ensures
        r == bounded(limit, 100),
{
    bound(limit, 100)
}

/// A text between wildcards.
pub open spec fn between_wildcards(text: Seq<char>) -> Seq<char> {
    "%"@ + text + "%"@
}

/// Puts a text between wildcards.
pub fn wildcard_pattern(text: &str) -> (r: String)
    ensures
        r@ == between_wildcards(text@),
{
    let mut pattern = "%".to_owned();
    pattern.append(text);
    pattern.append("%");
    pattern
}

/// The pattern that a query is matched with: its lower case between wildcards.
pub open spec fn pattern_of(query: Option<Seq<char>>) -> Option<Seq<char>> {
    match query {
        Some(q) => if trimmed(q).len() == 0 {
            None
        } else {
            Some(between_wildcards(lowercase(trimmed(q))))
        },
        None => None,
    }
}

/// The pattern that the query of a filter is matched with.
pub fn task_pattern(filters: &StewardTaskFilters) -> (r: Option<String>)
    ensures
        opt_view(r) == pattern_of(filters@.query),
{
    match as_text(&filters.query) {
        Some(q) => {
            let kept = trim(q);
            if kept.is_empty() {
                None
            } else {
                Some(wildcard_pattern(to_lowercase(kept).as_str()))
            }
        },
        None => None,
    }
}

/// Why a change of a task failed that changed no row.
pub open spec fn missing_reason(rows_affected: u64, task_id: Seq<char>) -> Option<Seq<char>> {
    if rows_affected == 0 {
        Some("Steward task '"@ + task_id + "' not found"@)
    } else {
        None
    }
}

/// The error of an update that found nothing to update.
pub fn missing_task(rows_affected: u64, task_id: &str) -> (r: Option<String>)
    ensures
        opt_view(r) == if rows_affected == 0 {
            Some("Steward task '"@ + task_id@ + "' not found"@)
        } else {
            None
        },
        opt_view(r) == missing_reason(rows_affected, task_id@),
{
    if rows_affected == 0 {
        let mut reason = "Steward task '".to_owned();
        reason.append(task_id);
        reason.append("' not found");
        Some(reason)
    } else {
        None
    }
}

/// Whether an insertion put the report in the outbox, rather than finding it there.
pub fn was_queued(rows_affected: u64) -> (r: bool)
    ensures
        r == (rows_affected == 1),
{
    rows_affected == 1
}

/// A limit that lies between 1 and the most that is allowed is the one that holds.
pub proof fn law_limits_are_kept_in_bounds(limit: u32, most: u32)
    requires
        most >= 1,
    ensures
        1 <= limit <= most ==> bounded(limit, most) == limit,
        limit > most ==> bounded(limit, most) == most,
        limit == 0 ==> bounded(limit, most) == 1,
{
}

/// Tasks are searched for by the words of the query anywhere in their texts, in lower case and
/// trimmed; a blank query searches for nothing.
pub proof fn law_a_query_is_looked_for_anywhere(query: Option<Seq<char>>)
    ensures
        query is None || trimmed(query.unwrap()).len() == 0 ==> pattern_of(query) is None,
        query matches Some(q) ==> (trimmed(q).len() > 0 ==> (pattern_of(query) matches Some(p) && p.len() == lowercase(
            trimmed(q),
        ).len() + 2 && p[0] == '%' && p.last() == '%' && p.subrange(1, p.len() - 1) == lowercase(trimmed(q)))),
{
    reveal_strlit("%");
    assert("%"@ =~= seq!['%']);
    if let Some(q) = query {
        let low = lowercase(trimmed(q));
        let p = between_wildcards(low);
        assert(p.subrange(1, p.len() - 1) =~= low);
    }
}

/// A change that reached no row is told as that of a task that there is not, in the words in
/// which such a task is told everywhere; a change that reached one is not told.
pub proof fn law_a_change_of_nothing_is_told(rows_affected: u64, task_id: Seq<char>)
    ensures
        missing_reason(rows_affected, task_id) is Some <==> rows_affected == 0,
        missing_reason(rows_affected, task_id) matches Some(reason) ==> no_such_task(task_id)
            == (ConversationErrorView::NotFound { reason }),
{
}

} // verus!
