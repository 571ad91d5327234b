//! Finding the work that an objective speaks of.
use vstd::prelude::*;
use crate::api::{
    ResolveStewardTaskRequest, ResolveStewardTaskRequestView, StewardExecutionState, StewardTaskCandidateResponse,
    StewardTaskCandidateResponseView, StewardTaskLifecycle,
};
use crate::control::{is_steward_conversation, is_team_worker_conversation, marks_steward, marks_worker};
use crate::conversation::{ConversationError, ConversationErrorView, ConversationResponse, ConversationResponseView};
use crate::fields::{required, required_text};
use crate::json::text_field;
use crate::names::{execution_state_of, lifecycle_of, parse_execution_state, parse_lifecycle};
use crate::order::{as_ints, desc_order, law_desc_order_is_stable, lemma_order_is_onto, order_desc, ranked};
use crate::rows::{StewardTaskRow, StewardTaskRowView, StewardTaskSessionRow, StewardTaskSessionRowView};
use crate::sessions::{first_primary, primary_binding};
use crate::text::{
    as_text, byte_len, contains, decimal, decimal_text, has_text, lowercase, opt_view, same, same_opt, split_words,
    takes_bytes, to_lowercase, trimmed, views, words,
};

verus! {

/// Whether a word of the query counts as found: it takes two bytes or more and stands in
/// one of the texts.
pub open spec fn word_found(word: Seq<char>, title: Seq<char>, objective: Seq<char>) -> bool {
    byte_len(word) >= 2 && (has_text(title, word) || has_text(objective, word))
}

/// How many of the words are found.
pub open spec fn words_found(ws: Seq<Seq<char>>, title: Seq<char>, objective: Seq<char>) -> nat
    decreases ws.len(),
{
    if ws.len() == 0 {
        0
    } else {
        words_found(ws.drop_last(), title, objective) + if word_found(ws.last(), title, objective) {
            1nat
        } else {
            0nat
        }
    }
}

/// What texts in lower case alone are worth, and why.
pub open spec fn text_score(q: Seq<char>, t: Seq<char>, o: Seq<char>) -> (int, Seq<Seq<char>>) {
    if q == o || q == t {
        (100, seq!["exact_text"@])
    } else if has_text(t, q) || has_text(o, q) || has_text(q, t) {
        (60, seq!["text_substring"@])
    } else {
        let n = words_found(words(q), t, o);
        if n > 0 {
            (
                if n >= 4 {
                    48
                } else {
                    12 * n as int
                },
                seq!["token_overlap:"@ + decimal(n)],
            )
        } else {
            (0, Seq::empty())
        }
    }
}

/// Whether both sides name the same thing.
pub open spec fn both_name(a: Option<Seq<char>>, b: Option<Seq<char>>) -> bool {
    a is Some && a == b
}

/// What a candidate is worth whose texts are given in lower case, and why: its texts, 25 for
/// the same project, 30 for the same workspace.
pub open spec fn score_of_lowered(
    query: Seq<char>,
    title: Seq<char>,
    objective: Seq<char>,
    query_project: Option<Seq<char>>,
    candidate_project: Option<Seq<char>>,
    query_workspace: Option<Seq<char>>,
    candidate_workspace: Option<Seq<char>>,
) -> (int, Seq<Seq<char>>) {
    let (base, reason) = text_score(query, title, objective);
    let project = both_name(query_project, candidate_project);
    let workspace = both_name(query_workspace, candidate_workspace);
    (
        base + if project {
            25int
        } else {
            0
        } + if workspace {
            30int
        } else {
            0
        },
        reason + if project {
            seq!["same_project"@]
        } else {
            Seq::empty()
        } + if workspace {
            seq!["same_workspace"@]
        } else {
            Seq::empty()
        },
    )
}

/// What a candidate is worth, and why. The texts are compared in lower case.
pub open spec fn score_of(
    query: Seq<char>,
    title: Seq<char>,
    objective: Seq<char>,
    query_project: Option<Seq<char>>,
    candidate_project: Option<Seq<char>>,
    query_workspace: Option<Seq<char>>,
    candidate_workspace: Option<Seq<char>>,
) -> (int, Seq<Seq<char>>) {
    score_of_lowered(
        lowercase(query),
        lowercase(title),
        lowercase(objective),
        query_project,
        candidate_project,
        query_workspace,
        candidate_workspace,
    )
}

fn count_words_found(ws: &Vec<String>, title: &str, objective: &str) -> (r: usize)
    ensures
        r == words_found(views(ws@), title@, objective@),
        r <= ws@.len(),
{
    let mut n: usize = 0;
    let mut i: usize = 0;
    while i < ws.len()
        invariant
            i <= ws@.len(),
            n <= i,
            n == words_found(views(ws@).take(i as int), title@, objective@),
        decreases ws@.len() - i,
    {
        proof {
            let next = views(ws@).take(i + 1);
            assert(next.drop_last() =~= views(ws@).take(i as int));
            assert(next.last() == ws@[i as int]@);
        }
        let w = ws[i].as_str();
        if takes_bytes(w, 2) && (contains(title, w) || contains(objective, w)) {
            n += 1;
        }
        i += 1;
    }
    assert(views(ws@).take(i as int) =~= views(ws@));
    n
}

/// What a candidate is worth for a query, and why, where the texts are given in lower case.
pub fn lowered_score(
    q: &str,
    t: &str,
    o: &str,
    query_project: Option<&str>,
    candidate_project: Option<&str>,
    query_workspace: Option<&str>,
    candidate_workspace: Option<&str>,
) -> (r: (i64, Vec<String>))
    ensures
        (r.0 as int, views(r.1@)) == score_of_lowered(
            q@,
            t@,
            o@,
            opt_view(query_project),
            opt_view(candidate_project),
            opt_view(query_workspace),
            opt_view(candidate_workspace),
        ),
{
    let mut score: i64 = 0;
    let mut evidence: Vec<String> = Vec::new();
    if same(q, o) || same(q, t) {
        score = 100;
        evidence.push("exact_text".to_owned());
    } else if contains(t, q) || contains(o, q) || contains(
        q,
        t,
    ) {
        score = 60;
        evidence.push("text_substring".to_owned());
    } else {
        let tokens = split_words(q);
        let overlap: usize = count_words_found(&tokens, t, o);
        if overlap > 0 {
            if overlap >= 4 {
                score = 48;
            } else {
                score = 12 * overlap as i64;
            }
            let mut entry = "token_overlap:".to_owned();
            entry.append(decimal_text(overlap as u64).as_str());
            evidence.push(entry);
        }
    }
    assert(views(evidence@) =~= text_score(q@, t@, o@).1);
    if query_project.is_some() && same_opt(query_project, candidate_project) {
        score += 25;
        evidence.push("same_project".to_owned());
    }
    if query_workspace.is_some() && same_opt(query_workspace, candidate_workspace) {
        score += 30;
        evidence.push("same_workspace".to_owned());
    }
    assert(views(evidence@) =~= score_of_lowered(
        q@,
        t@,
        o@,
        opt_view(query_project),
        opt_view(candidate_project),
        opt_view(query_workspace),
        opt_view(candidate_workspace),
    ).1);
    (score, evidence)
}

/// What a candidate is worth for a query, and why.
pub fn candidate_score(
    query: &str,
    title: &str,
    objective: &str,
    query_project: Option<&str>,
    candidate_project: Option<&str>,
    query_workspace: Option<&str>,
    candidate_workspace: Option<&str>,
) -> (r: (i64, Vec<String>))
    ensures
        (r.0 as int, views(r.1@)) == score_of(
            query@,
            title@,
            objective@,
            opt_view(query_project),
            opt_view(candidate_project),
            opt_view(query_workspace),
            opt_view(candidate_workspace),
        ),
{
    let q = to_lowercase(query);
    let t = to_lowercase(title);
    let o = to_lowercase(objective);
    lowered_score(
        q.as_str(),
        t.as_str(),
        o.as_str(),
        query_project,
        candidate_project,
        query_workspace,
        candidate_workspace,
    )
}

/// A score lies between nothing and the best text with project and workspace, and there is
/// evidence for it exactly if it is more than nothing.
pub proof fn law_score_is_explained(
    query: Seq<char>,
    title: Seq<char>,
    objective: Seq<char>,
    query_project: Option<Seq<char>>,
    candidate_project: Option<Seq<char>>,
    query_workspace: Option<Seq<char>>,
    candidate_workspace: Option<Seq<char>>,
)
    ensures
        ({
            let (score, evidence) = score_of(
                query,
                title,
                objective,
                query_project,
                candidate_project,
                query_workspace,
                candidate_workspace,
            );
            0 <= score <= 155 && (score > 0 <==> evidence.len() > 0)
        }),
{
}

/// A stored task together with its bindings.
#[derive(Debug, Clone)]
pub struct BoundTask {
    pub row: StewardTaskRow,
    pub sessions: Vec<StewardTaskSessionRow>,
}

/// The model of [`BoundTask`].
#[verifier::ext_equal]
pub struct BoundTaskView {
    pub row: StewardTaskRowView,
    pub sessions: Seq<StewardTaskSessionRowView>,
}

impl View for BoundTask {
    type V = BoundTaskView;

    open spec fn view(&self) -> BoundTaskView {
        BoundTaskView { row: self.row@, sessions: views(self.sessions@) }
    }
}

/// What a stored task is worth for a request whose trimmed objective is `objective`.
pub open spec fn task_score(
    objective: Seq<char>,
    request: ResolveStewardTaskRequestView,
    row: StewardTaskRowView,
) -> (int, Seq<Seq<char>>) {
    score_of(
        objective,
        row.title,
        row.objective,
        request.project_id,
        row.project_id,
        request.workspace,
        row.workspace,
    )
}

/// What a conversation is worth for a request.
pub open spec fn conversation_score(
    objective: Seq<char>,
    request: ResolveStewardTaskRequestView,
    c: ConversationResponseView,
) -> (int, Seq<Seq<char>>) {
    score_of(
        objective,
        c.name,
        ""@,
        request.project_id,
        c.project_id,
        request.workspace,
        text_field(c.extra, "workspace"@),
    )
}

/// The candidates among stored tasks: those that are worth anything, in order. A stored
/// state that is none ends the search.
pub open spec fn task_candidates(
    objective: Seq<char>,
    request: ResolveStewardTaskRequestView,
    tasks: Seq<BoundTaskView>,
) -> Result<Seq<StewardTaskCandidateResponseView>, ConversationErrorView>
    decreases tasks.len(),
{
    if tasks.len() == 0 {
        Ok(Seq::empty())
    } else {
        match task_candidates(objective, request, tasks.drop_last()) {
            Err(e) => Err(e),
            Ok(found) => {
                let t = tasks.last();
                let (score, evidence) = task_score(objective, request, t.row);
                if score <= 0 {
                    Ok(found)
                } else {
                    match (lifecycle_of(t.row.lifecycle), execution_state_of(t.row.execution_state)) {
                        (Err(e), _) => Err(e),
                        (Ok(_), Err(e)) => Err(e),
                        (Ok(lifecycle), Ok(state)) => Ok(
                            found.push(
                                StewardTaskCandidateResponseView {
                                    task_id: Some(t.row.id),
                                    conversation_id: match first_primary(t.sessions) {
                                        Some(b) => Some(b.conversation_id),
                                        None => None,
                                    },
                                    title: t.row.title,
                                    score: score as i64,
                                    evidence,
                                    lifecycle: Some(lifecycle),
                                    execution_state: Some(state),
                                },
                            ),
                        ),
                    }
                }
            },
        }
    }
}

/// Whether a candidate is, or has as its primary, the conversation `id`.
pub open spec fn proposes(found: Seq<StewardTaskCandidateResponseView>, id: Seq<char>) -> bool {
    exists|i: int| 0 <= i < found.len() && (#[trigger] found[i]).conversation_id == Some(id)
}

/// A candidate that is no task.
pub open spec fn loose_candidate(
    c: ConversationResponseView,
    score: i64,
    evidence: Seq<Seq<char>>,
) -> StewardTaskCandidateResponseView {
    StewardTaskCandidateResponseView {
        task_id: None,
        conversation_id: Some(c.id),
        title: c.name,
        score,
        evidence,
        lifecycle: None,
        execution_state: None,
    }
}

/// `found` with the conversations that are worth anything and not yet proposed; stewards
/// and team workers are left out.
pub open spec fn with_conversations(
    objective: Seq<char>,
    request: ResolveStewardTaskRequestView,
    found: Seq<StewardTaskCandidateResponseView>,
    conversations: Seq<ConversationResponseView>,
) -> Seq<StewardTaskCandidateResponseView>
    decreases conversations.len(),
{
    if conversations.len() == 0 {
        found
    } else {
        let before = with_conversations(objective, request, found, conversations.drop_last());
        let c = conversations.last();
        let (score, evidence) = conversation_score(objective, request, c);
        if marks_steward(c.extra) || marks_worker(c.extra) || score <= 0 || proposes(before, c.id) {
            before
        } else {
            before.push(loose_candidate(c, score as i64, evidence))
        }
    }
}

/// `found` with the conversations in whose messages the objective was found and that are
/// not yet proposed; stewards are left out.
pub open spec fn with_matches(
    found: Seq<StewardTaskCandidateResponseView>,
    matches_in: Seq<ConversationResponseView>,
) -> Seq<StewardTaskCandidateResponseView>
    decreases matches_in.len(),
{
    if matches_in.len() == 0 {
        found
    } else {
        let before = with_matches(found, matches_in.drop_last());
        let c = matches_in.last();
        if marks_steward(c.extra) || proposes(before, c.id) {
            before
        } else {
            before.push(loose_candidate(c, 45, seq!["message_content"@]))
        }
    }
}

/// How many candidates may be returned.
pub open spec fn candidate_limit(limit: Option<u32>) -> int {
    match limit {
        Some(n) => if n < 1 {
            1
        } else if n > 50 {
            50
        } else {
            n as int
        },
        None => 10,
    }
}

/// The scores of candidates.
pub open spec fn scores(found: Seq<StewardTaskCandidateResponseView>) -> Seq<i64> {
    Seq::new(found.len(), |i: int| found[i].score)
}

/// The first `n` elements, or all where there are fewer.
pub open spec fn at_most<T>(s: Seq<T>, n: int) -> Seq<T> {
    if s.len() > n {
        s.take(n)
    } else {
        s
    }
}

/// The best candidates, best first.
pub open spec fn best(found: Seq<StewardTaskCandidateResponseView>, limit: Option<u32>) -> Seq<
    StewardTaskCandidateResponseView,
> {
    at_most(ranked(found, scores(found)), candidate_limit(limit))
}

/// All that is proposed for a request, before it is ranked.
pub open spec fn proposals(
    request: ResolveStewardTaskRequestView,
    tasks: Seq<BoundTaskView>,
    conversations: Seq<ConversationResponseView>,
    matches_in: Seq<ConversationResponseView>,
) -> Result<Seq<StewardTaskCandidateResponseView>, ConversationErrorView> {
    match required("objective"@, request.objective) {
        Err(e) => Err(e),
        Ok(objective) => match task_candidates(objective, request, tasks) {
            Err(e) => Err(e),
            Ok(found) => Ok(
                with_matches(with_conversations(objective, request, found, conversations), matches_in),
            ),
        },
    }
}

/// Whether a stored task is a candidate at all, so that its bindings are worth loading.
pub fn is_task_candidate(objective: &str, request: &ResolveStewardTaskRequest, row: &StewardTaskRow) -> (r: bool)
    ensures
        r == (task_score(objective@, request@, row@).0 > 0),
{
    let (score, _evidence) = candidate_score(
        objective,
        row.title.as_str(),
        row.objective.as_str(),
        as_text(&request.project_id),
        as_text(&row.project_id),
        as_text(&request.workspace),
        as_text(&row.workspace),
    );
    score > 0
}

fn already_proposed(found: &Vec<StewardTaskCandidateResponse>, id: &str) -> (r: bool)
    ensures
        r == proposes(views(found@), id@),
{
    let mut i: usize = 0;
    while i < found.len()
        invariant
            i <= found@.len(),
            forall|k: int| 0 <= k < i ==> (#[trigger] views(found@)[k]).conversation_id != Some(id@),
        decreases found@.len() - i,
    {
        if same_opt(as_text(&found[i].conversation_id), Some(id)) {
            assert(views(found@)[i as int].conversation_id == Some(id@));
            return true;
        }
        i += 1;
    }
    false
}

fn collect_tasks(objective: &str, request: &ResolveStewardTaskRequest, tasks: &Vec<BoundTask>) -> (r: Result<
    Vec<StewardTaskCandidateResponse>,
    ConversationError,
>)
    ensures
        match r {
            Ok(found) => task_candidates(objective@, request@, views(tasks@)) == Ok::<
                Seq<StewardTaskCandidateResponseView>,
                ConversationErrorView,
            >(views(found@)),
            Err(e) => task_candidates(objective@, request@, views(tasks@)) == Err::<
                Seq<StewardTaskCandidateResponseView>,
                ConversationErrorView,
            >(e@),
        },
{
    let ghost all = views(tasks@);
    let mut found: Vec<StewardTaskCandidateResponse> = Vec::new();
    let mut i: usize = 0;
    assert(views(found@) =~= Seq::empty());
    while i < tasks.len()
        invariant
            i <= tasks@.len(),
            all == views(tasks@),
            task_candidates(objective@, request@, all.take(i as int)) == Ok::<
                Seq<StewardTaskCandidateResponseView>,
                ConversationErrorView,
            >(views(found@)),
        decreases tasks@.len() - i,
    {
        let t = &tasks[i];
        proof {
            assert(all.take(i + 1).drop_last() =~= all.take(i as int));
            assert(all.take(i + 1).last() == t@);
        }
        let (score, evidence) = candidate_score(
            objective,
            t.row.title.as_str(),
            t.row.objective.as_str(),
            as_text(&request.project_id),
            as_text(&t.row.project_id),
            as_text(&request.workspace),
            as_text(&t.row.workspace),
        );
        if score > 0 {
            let lifecycle = match parse_lifecycle(t.row.lifecycle.as_str()) {
                Ok(x) => x,
                Err(e) => {
                    proof {
                        lemma_first_error(objective@, request@, all, i + 1);
                        assert(all.take(all.len() as int) =~= all);
                    }
                    return Err(e);
                },
            };
            let state = match parse_execution_state(t.row.execution_state.as_str()) {
                Ok(x) => x,
                Err(e) => {
                    proof {
                        lemma_first_error(objective@, request@, all, i + 1);
                        assert(all.take(all.len() as int) =~= all);
                    }
                    return Err(e);
                },
            };
            let ghost before = views(found@);
            found.push(
                StewardTaskCandidateResponse {
                    task_id: Some(t.row.id.clone()),
                    conversation_id: match primary_binding(&t.sessions) {
                        Some(b) => Some(b.conversation_id.clone()),
                        None => None,
                    },
                    title: t.row.title.clone(),
                    score,
                    evidence,
                    lifecycle: Some(lifecycle),
                    execution_state: Some(state),
                },
            );
            assert(views(found@) =~= before.push(found@.last()@));
        }
        i += 1;
    }
    assert(all.take(i as int) =~= all);
    Ok(found)
}

proof fn lemma_first_error(
    objective: Seq<char>,
    request: ResolveStewardTaskRequestView,
    tasks: Seq<BoundTaskView>,
    n: int,
)
    requires
        0 <= n <= tasks.len(),
        task_candidates(objective, request, tasks.take(n)) is Err,
    ensures
        task_candidates(objective, request, tasks) == task_candidates(objective, request, tasks.take(n)),
    decreases tasks.len() - n,
{
    if n < tasks.len() {
        assert(tasks.take(n + 1).drop_last() =~= tasks.take(n));
        lemma_first_error(objective, request, tasks, n + 1);
    } else {
        assert(tasks.take(n) =~= tasks);
    }
}

fn make_loose(c: &ConversationResponse, score: i64, evidence: Vec<String>) -> (r: StewardTaskCandidateResponse)
    ensures
        r@ == loose_candidate(c@, score, views(evidence@)),
{
    StewardTaskCandidateResponse {
        task_id: None,
        conversation_id: Some(c.id.clone()),
        title: c.name.clone(),
        score,
        evidence,
        lifecycle: None,
        execution_state: None,
    }
}

fn collect_conversations(
    objective: &str,
    request: &ResolveStewardTaskRequest,
    found: &mut Vec<StewardTaskCandidateResponse>,
    conversations: &Vec<ConversationResponse>,
)
    ensures
        views(final(found)@) == with_conversations(
            objective@,
            request@,
            views(old(found)@),
            views(conversations@),
        ),
{
    let ghost all = views(conversations@);
    let ghost start = views(found@);
    let mut i: usize = 0;
    assert(all.take(0) =~= Seq::empty());
    while i < conversations.len()
        invariant
            i <= conversations@.len(),
            all == views(conversations@),
            views(found@) == with_conversations(objective@, request@, start, all.take(i as int)),
        decreases conversations@.len() - i,
    {
        let c = &conversations[i];
        proof {
            assert(all.take(i + 1).drop_last() =~= all.take(i as int));
            assert(all.take(i + 1).last() == c@);
        }
        if !is_steward_conversation(c) && !is_team_worker_conversation(c) {
            let (score, evidence) = candidate_score(
                objective,
                c.name.as_str(),
                "",
                as_text(&request.project_id),
                as_text(&c.project_id),
                as_text(&request.workspace),
                c.extra.text_at("workspace"),
            );
            if score > 0 && !already_proposed(found, c.id.as_str()) {
                let ghost before = views(found@);
                found.push(make_loose(c, score, evidence));
                assert(views(found@) =~= before.push(found@.last()@));
            }
        }
        i += 1;
    }
    assert(all.take(i as int) =~= all);
}

fn collect_matches(found: &mut Vec<StewardTaskCandidateResponse>, matches_in: &Vec<ConversationResponse>)
    ensures
        views(final(found)@) == with_matches(views(old(found)@), views(matches_in@)),
{
    let ghost all = views(matches_in@);
    let ghost start = views(found@);
    let mut i: usize = 0;
    assert(all.take(0) =~= Seq::empty());
    while i < matches_in.len()
        invariant
            i <= matches_in@.len(),
            all == views(matches_in@),
            views(found@) == with_matches(start, all.take(i as int)),
        decreases matches_in@.len() - i,
    {
        let c = &matches_in[i];
        proof {
            assert(all.take(i + 1).drop_last() =~= all.take(i as int));
            assert(all.take(i + 1).last() == c@);
        }
        if !is_steward_conversation(c) && !already_proposed(found, c.id.as_str()) {
            let mut evidence: Vec<String> = Vec::new();
            evidence.push("message_content".to_owned());
            assert(views(evidence@) =~= seq!["message_content"@]);
            let ghost before = views(found@);
            found.push(make_loose(c, 45, evidence));
            assert(views(found@) =~= before.push(found@.last()@));
        }
        i += 1;
    }
    assert(all.take(i as int) =~= all);
}

/// How many candidates may be returned.
fn limit_of(limit: Option<u32>) -> (r: usize)
    ensures
        r == candidate_limit(limit),
{
    match limit {
        Some(n) => if n < 1 {
            1
        } else if n > 50 {
            50
        } else {
            n as usize
        },
        None => 10,
    }
}

fn rank(found: &Vec<StewardTaskCandidateResponse>, limit: Option<u32>) -> (r: Vec<StewardTaskCandidateResponse>)
    ensures
        views(r@) == best(views(found@), limit),
{
    let mut keys: Vec<i64> = Vec::new();
    let mut i: usize = 0;
    while i < found.len()
        invariant
            i <= found@.len(),
            keys@ == scores(views(found@)).take(i as int),
        decreases found@.len() - i,
    {
        keys.push(found[i].score);
        i += 1;
        assert(keys@ =~= scores(views(found@)).take(i as int));
    }
    assert(keys@ =~= scores(views(found@)));
    let order = order_desc(&keys);
    let most: usize = limit_of(limit);
    let n: usize = if order.len() > most {
        most
    } else {
        order.len()
    };
    let ghost all = ranked(views(found@), keys@);
    let mut r: Vec<StewardTaskCandidateResponse> = Vec::new();
    let mut k: usize = 0;
    while k < n
        invariant
            k <= n <= order@.len(),
            as_ints(order@) == desc_order(keys@),
            order@.len() == keys@.len() == found@.len(),
            forall|j: int| 0 <= j < order@.len() ==> #[trigger] order@[j] < keys@.len(),
            all == ranked(views(found@), keys@),
            views(r@) == all.take(k as int),
        decreases n - k,
    {
        let ghost before = views(r@);
        assert(as_ints(order@)[k as int] == order@[k as int] as int);
        r.push(found[order[k]].copy());
        k += 1;
        assert(views(r@) =~= before.push(r@.last()@));
        assert(views(r@) =~= all.take(k as int));
    }
    assert(all.len() == order@.len());
    assert(all.take(all.len() as int) =~= all);
    r
}

/// Finds the work that a request speaks of: among stored tasks, among conversations and,
/// where the search of messages succeeded, among those in which the objective was found.
pub fn resolve(
    request: &ResolveStewardTaskRequest,
    tasks: &Vec<BoundTask>,
    conversations: &Vec<ConversationResponse>,
    matches_in: &Vec<ConversationResponse>,
) -> (r: Result<Vec<StewardTaskCandidateResponse>, ConversationError>)
    ensures
        match r {
            Ok(list) => proposals(request@, views(tasks@), views(conversations@), views(matches_in@)) matches Ok(
                found,
            ) && views(list@) == best(found, request.limit),
            Err(e) => proposals(request@, views(tasks@), views(conversations@), views(matches_in@)) == Err::<
                Seq<StewardTaskCandidateResponseView>,
                ConversationErrorView,
            >(e@),
        },
{
    let objective = match required_text("objective", request.objective.clone()) {
        Ok(o) => o,
        Err(e) => {
            return Err(e);
        },
    };
    let mut found = match collect_tasks(objective.as_str(), request, tasks) {
        Ok(f) => f,
        Err(e) => {
            return Err(e);
        },
    };
    collect_conversations(objective.as_str(), request, &mut found, conversations);
    collect_matches(&mut found, matches_in);
    Ok(rank(&found, request.limit))
}

/// What is returned is no more than the limit, which lies between 1 and 50; it comes best
/// first, and whatever was left out scores no better than what was returned.
pub proof fn law_best_come_first(found: Seq<StewardTaskCandidateResponseView>, limit: Option<u32>)
    ensures
        1 <= candidate_limit(limit) <= 50,
        best(found, limit).len() <= candidate_limit(limit),
        best(found, limit).len() <= found.len(),
        forall|i: int, j: int|
            0 <= i < j < best(found, limit).len() ==> (#[trigger] best(found, limit)[i]).score >= (
            #[trigger] best(found, limit)[j]).score,
        forall|i: int| 0 <= i < best(found, limit).len() ==> found.contains(#[trigger] best(found, limit)[i]),
        forall|k: int|
            0 <= k < found.len() ==> best(found, limit).contains(#[trigger] found[k]) || forall|i: int|
                0 <= i < best(found, limit).len() ==> (#[trigger] best(found, limit)[i]).score >= found[k].score,
{
    let keys = scores(found);
    let order = desc_order(keys);
    let all = ranked(found, keys);
    let b = best(found, limit);
    law_desc_order_is_stable(keys);
    assert forall|i: int, j: int| 0 <= i < j < b.len() implies (#[trigger] b[i]).score >= (#[trigger] b[j]).score by {
        assert(b[i] == found[order[i]]);
        assert(b[j] == found[order[j]]);
        assert(keys[order[i]] >= keys[order[j]]);
    }
    assert forall|i: int| 0 <= i < b.len() implies found.contains(#[trigger] b[i]) by {
        assert(b[i] == found[order[i]]);
    }
    assert forall|k: int| 0 <= k < found.len() implies b.contains(#[trigger] found[k]) || forall|i: int|
        0 <= i < b.len() ==> (#[trigger] b[i]).score >= found[k].score by {
        lemma_order_is_onto(keys, k);
        let p = choose|p: int| 0 <= p < order.len() && #[trigger] order[p] == k;
        assert(all[p] == found[k]);
        if p < b.len() {
            assert(b[p] == found[k]);
        } else {
            assert forall|i: int| 0 <= i < b.len() implies (#[trigger] b[i]).score >= found[k].score by {
                assert(b[i] == found[order[i]]);
                assert(keys[order[i]] >= keys[order[p]]);
            }
        }
    }
}

/// Whether each candidate is worth something, and no conversation is proposed on its own
/// that is proposed elsewhere too.
pub open spec fn is_proper(found: Seq<StewardTaskCandidateResponseView>) -> bool {
    &&& forall|i: int| 0 <= i < found.len() ==> (#[trigger] found[i]).score > 0
    &&& forall|i: int|
        0 <= i < found.len() ==> ((#[trigger] found[i]).task_id is None ==> found[i].conversation_id is Some)
    &&& forall|i: int, j: int|
        0 <= i < found.len() && 0 <= j < found.len() && i != j && (#[trigger] found[i]).task_id is None
            ==> found[i].conversation_id != (#[trigger] found[j]).conversation_id
}

proof fn lemma_task_candidates_proper(
    objective: Seq<char>,
    request: ResolveStewardTaskRequestView,
    tasks: Seq<BoundTaskView>,
)
    ensures
        task_candidates(objective, request, tasks) matches Ok(found) ==> is_proper(found) && forall|i: int|
            0 <= i < found.len() ==> (#[trigger] found[i]).task_id is Some,
    decreases tasks.len(),
{
    if tasks.len() > 0 {
        lemma_task_candidates_proper(objective, request, tasks.drop_last());
    }
}

proof fn lemma_push_loose(
    found: Seq<StewardTaskCandidateResponseView>,
    c: ConversationResponseView,
    score: i64,
    evidence: Seq<Seq<char>>,
)
    requires
        is_proper(found),
        !proposes(found, c.id),
        score > 0,
    ensures
        is_proper(found.push(loose_candidate(c, score, evidence))),
{
    let after = found.push(loose_candidate(c, score, evidence));
    assert forall|i: int, j: int|
        0 <= i < after.len() && 0 <= j < after.len() && i != j && (
        #[trigger] after[i]).task_id is None implies after[i].conversation_id != (
    #[trigger] after[j]).conversation_id by {
        if i < found.len() && j < found.len() {
            assert(after[i] == found[i]);
            assert(after[j] == found[j]);
        } else if i < found.len() {
            assert(after[i] == found[i]);
        } else {
            assert(after[j] == found[j]);
        }
    }
}

/// Whether a candidate that is no task is one of the conversations, and no steward's.
pub open spec fn is_found_in(
    candidate: StewardTaskCandidateResponseView,
    conversations: Seq<ConversationResponseView>,
) -> bool {
    exists|k: int|
        0 <= k < conversations.len() && !marks_steward((#[trigger] conversations[k]).extra) && candidate
            == loose_candidate(conversations[k], candidate.score, candidate.evidence)
}

/// Whether every candidate that is no task is found in one of the lists, and no steward's.
pub open spec fn are_found_in(
    found: Seq<StewardTaskCandidateResponseView>,
    conversations: Seq<ConversationResponseView>,
    matches_in: Seq<ConversationResponseView>,
) -> bool {
    forall|i: int|
        0 <= i < found.len() && (#[trigger] found[i]).task_id is None ==> is_found_in(found[i], conversations)
            || is_found_in(found[i], matches_in)
}

proof fn lemma_found_further(
    candidate: StewardTaskCandidateResponseView,
    conversations: Seq<ConversationResponseView>,
)
    requires
        conversations.len() > 0,
        is_found_in(candidate, conversations.drop_last()),
    ensures
        is_found_in(candidate, conversations),
{
    let init = conversations.drop_last();
    let k = choose|k: int|
        0 <= k < init.len() && !marks_steward((#[trigger] init[k]).extra) && candidate == loose_candidate(
            init[k],
            candidate.score,
            candidate.evidence,
        );
    assert(conversations[k] == init[k]);
}

proof fn lemma_conversations_are_found(
    objective: Seq<char>,
    request: ResolveStewardTaskRequestView,
    found: Seq<StewardTaskCandidateResponseView>,
    conversations: Seq<ConversationResponseView>,
)
    requires
        forall|i: int| 0 <= i < found.len() ==> (#[trigger] found[i]).task_id is Some,
    ensures
        are_found_in(with_conversations(objective, request, found, conversations), conversations, Seq::empty()),
    decreases conversations.len(),
{
    if conversations.len() > 0 {
        let init = conversations.drop_last();
        lemma_conversations_are_found(objective, request, found, init);
        let before = with_conversations(objective, request, found, init);
        let after = with_conversations(objective, request, found, conversations);
        assert forall|i: int| 0 <= i < after.len() && (#[trigger] after[i]).task_id is None implies is_found_in(
            after[i],
            conversations,
        ) || is_found_in(after[i], Seq::empty()) by {
            if i < before.len() {
                assert(after[i] == before[i]);
                lemma_found_further(before[i], conversations);
            } else {
                assert(!marks_steward(conversations[conversations.len() - 1].extra));
            }
        }
    }
}

proof fn lemma_matches_are_found(
    found: Seq<StewardTaskCandidateResponseView>,
    conversations: Seq<ConversationResponseView>,
    matches_in: Seq<ConversationResponseView>,
)
    requires
        are_found_in(found, conversations, Seq::empty()),
    ensures
        are_found_in(with_matches(found, matches_in), conversations, matches_in),
    decreases matches_in.len(),
{
    let after = with_matches(found, matches_in);
    if matches_in.len() > 0 {
        let init = matches_in.drop_last();
        lemma_matches_are_found(found, conversations, init);
        let before = with_matches(found, init);
        assert forall|i: int| 0 <= i < after.len() && (#[trigger] after[i]).task_id is None implies is_found_in(
            after[i],
            conversations,
        ) || is_found_in(after[i], matches_in) by {
            if i < before.len() {
                assert(after[i] == before[i]);
                if is_found_in(before[i], init) {
                    lemma_found_further(before[i], matches_in);
                }
            } else {
                assert(!marks_steward(matches_in[matches_in.len() - 1].extra));
            }
        }
    } else {
        assert(matches_in =~= Seq::empty());
    }
}

/// Every candidate is worth something, and a conversation that is proposed on its own is
/// proposed once: it is the primary of no proposed task, and no other candidate names it. It
/// was found among the conversations or by their messages, and is no steward's.
pub proof fn law_proposals_are_proper(
    request: ResolveStewardTaskRequestView,
    tasks: Seq<BoundTaskView>,
    conversations: Seq<ConversationResponseView>,
    matches_in: Seq<ConversationResponseView>,
)
    ensures
        proposals(request, tasks, conversations, matches_in) matches Ok(found) ==> is_proper(found)
            && are_found_in(found, conversations, matches_in),
{
    if let Ok(objective) = required("objective"@, request.objective) {
        lemma_task_candidates_proper(objective, request, tasks);
        if let Ok(found) = task_candidates(objective, request, tasks) {
            lemma_with_conversations_proper(objective, request, found, conversations);
            lemma_with_matches_proper(
                with_conversations(objective, request, found, conversations),
                matches_in,
            );
            lemma_conversations_are_found(objective, request, found, conversations);
            lemma_matches_are_found(
                with_conversations(objective, request, found, conversations),
                conversations,
                matches_in,
            );
        }
    }
}

proof fn lemma_with_conversations_proper(
    objective: Seq<char>,
    request: ResolveStewardTaskRequestView,
    found: Seq<StewardTaskCandidateResponseView>,
    conversations: Seq<ConversationResponseView>,
)
    requires
        is_proper(found),
    ensures
        is_proper(with_conversations(objective, request, found, conversations)),
    decreases conversations.len(),
{
    if conversations.len() > 0 {
        lemma_with_conversations_proper(objective, request, found, conversations.drop_last());
        let before = with_conversations(objective, request, found, conversations.drop_last());
        let c = conversations.last();
        let (score, evidence) = conversation_score(objective, request, c);
        law_score_is_explained(
            objective,
            c.name,
            ""@,
            request.project_id,
            c.project_id,
            request.workspace,
            text_field(c.extra, "workspace"@),
        );
        if !(marks_steward(c.extra) || marks_worker(c.extra) || score <= 0 || proposes(before, c.id)) {
            lemma_push_loose(before, c, score as i64, evidence);
        }
    }
}

proof fn lemma_with_matches_proper(
    found: Seq<StewardTaskCandidateResponseView>,
    matches_in: Seq<ConversationResponseView>,
)
    requires
        is_proper(found),
    ensures
        is_proper(with_matches(found, matches_in)),
    decreases matches_in.len(),
{
    if matches_in.len() > 0 {
        lemma_with_matches_proper(found, matches_in.drop_last());
        let before = with_matches(found, matches_in.drop_last());
        let c = matches_in.last();
        if !(marks_steward(c.extra) || proposes(before, c.id)) {
            lemma_push_loose(before, c, 45, seq!["message_content"@]);
        }
    }
}

// ---------------------------------------------------------------------
// What counts
// ---------------------------------------------------------------------

/// The same project is worth 25 and the same workspace 30, on top of the texts, and each is
/// told as evidence exactly where it counts.
pub proof fn law_project_and_workspace_count(
    q: Seq<char>,
    t: Seq<char>,
    o: Seq<char>,
    query_project: Option<Seq<char>>,
    candidate_project: Option<Seq<char>>,
    query_workspace: Option<Seq<char>>,
    candidate_workspace: Option<Seq<char>>,
)
    ensures
        ({
            let texts = score_of_lowered(q, t, o, None, None, None, None);
            let all = score_of_lowered(
                q,
                t,
                o,
                query_project,
                candidate_project,
                query_workspace,
                candidate_workspace,
            );
            let project = query_project is Some && query_project == candidate_project;
            let workspace = query_workspace is Some && query_workspace == candidate_workspace;
            &&& !project && !workspace ==> all == texts
            &&& project && !workspace ==> all.0 == texts.0 + 25 && all.1 == texts.1.push("same_project"@)
            &&& !project && workspace ==> all.0 == texts.0 + 30 && all.1 == texts.1.push("same_workspace"@)
            &&& project && workspace ==> all.0 == texts.0 + 55 && all.1 == texts.1.push("same_project"@).push(
                "same_workspace"@,
            )
        }),
{
    let texts = score_of_lowered(q, t, o, None, None, None, None);
    let all = score_of_lowered(q, t, o, query_project, candidate_project, query_workspace, candidate_workspace);
    let project = query_project is Some && query_project == candidate_project;
    let workspace = query_workspace is Some && query_workspace == candidate_workspace;
    assert(!project && !workspace ==> all.1 =~= texts.1);
    assert(project && !workspace ==> all.1 =~= texts.1.push("same_project"@));
    assert(!project && workspace ==> all.1 =~= texts.1.push("same_workspace"@));
    assert(project && workspace ==> all.1 =~= texts.1.push("same_project"@).push("same_workspace"@));
}

/// A query that is the title or the objective is worth 100. One that stands in either of
/// them, or in which the title stands, is worth 60.
pub proof fn law_texts_that_hold_the_query_count(q: Seq<char>, t: Seq<char>, o: Seq<char>)
    ensures
        q == t || q == o ==> score_of_lowered(q, t, o, None, None, None, None) == (100int, seq!["exact_text"@]),
        q != t && q != o && has_text(o, q) ==> score_of_lowered(q, t, o, None, None, None, None) == (
            60int,
            seq!["text_substring"@],
        ),
        q != t && q != o && has_text(t, q) ==> score_of_lowered(q, t, o, None, None, None, None) == (
            60int,
            seq!["text_substring"@],
        ),
        q != t && q != o && has_text(q, t) ==> score_of_lowered(q, t, o, None, None, None, None) == (
            60int,
            seq!["text_substring"@],
        ),
{
    assert(score_of_lowered(q, t, o, None, None, None, None).1 =~= text_score(q, t, o).1);
}

/// Where no text holds the query, each word of it counts 12, up to 48, that takes two bytes
/// or more and stands in the title or in the objective: `at` are the places of these words
/// in the query.
pub proof fn law_words_count(q: Seq<char>, t: Seq<char>, o: Seq<char>, at: Seq<int>)
    requires
        q != t,
        q != o,
        !has_text(t, q),
        !has_text(o, q),
        !has_text(q, t),
        forall|i: int, j: int| 0 <= i < j < at.len() ==> #[trigger] at[i] < #[trigger] at[j],
        forall|i: int|
            0 <= i < at.len() ==> 0 <= #[trigger] at[i] < words(q).len() && byte_len(words(q)[at[i]]) >= 2 && (has_text(
                t,
                words(q)[at[i]],
            ) || has_text(o, words(q)[at[i]])),
        forall|k: int|
            0 <= k < words(q).len() && byte_len(#[trigger] words(q)[k]) >= 2 && (has_text(t, words(q)[k]) || has_text(
                o,
                words(q)[k],
            )) ==> at.contains(k),
    ensures
        at.len() == 0 ==> score_of_lowered(q, t, o, None, None, None, None) == (0int, Seq::<Seq<char>>::empty()),
        0 < at.len() <= 4 ==> score_of_lowered(q, t, o, None, None, None, None).0 == 12 * at.len(),
        at.len() > 4 ==> score_of_lowered(q, t, o, None, None, None, None).0 == 48,
        at.len() > 0 ==> score_of_lowered(q, t, o, None, None, None, None).1 == seq![
            "token_overlap:"@ + decimal(at.len()),
        ],
{
    lemma_words_at(words(q), t, o, at);
    assert(score_of_lowered(q, t, o, None, None, None, None).1 =~= text_score(q, t, o).1);
}

proof fn lemma_words_at(ws: Seq<Seq<char>>, t: Seq<char>, o: Seq<char>, at: Seq<int>)
    requires
        forall|i: int, j: int| 0 <= i < j < at.len() ==> #[trigger] at[i] < #[trigger] at[j],
        forall|i: int|
            0 <= i < at.len() ==> 0 <= #[trigger] at[i] < ws.len() && byte_len(ws[at[i]]) >= 2 && (has_text(
                t,
                ws[at[i]],
            ) || has_text(o, ws[at[i]])),
        forall|k: int|
            0 <= k < ws.len() && byte_len(#[trigger] ws[k]) >= 2 && (has_text(t, ws[k]) || has_text(o, ws[k]))
                ==> at.contains(k),
    ensures
        words_found(ws, t, o) == at.len(),
    decreases ws.len(),
{
    if ws.len() == 0 {
        if at.len() > 0 {
            assert(0 <= at[0] < ws.len());
        }
    } else {
        let init = ws.drop_last();
        let n = ws.len() - 1;
        assert(ws[n] == ws.last());
        assert(forall|k: int| 0 <= k < init.len() ==> #[trigger] init[k] == ws[k]);
        if at.contains(n) {
            let p = choose|p: int| 0 <= p < at.len() && at[p] == n;
            if p < at.len() - 1 {
                assert(at[p] < at[at.len() - 1]);
            }
            let less = at.drop_last();
            assert forall|i: int| 0 <= i < less.len() implies 0 <= #[trigger] less[i] < init.len() && byte_len(
                init[less[i]],
            ) >= 2 && (has_text(t, init[less[i]]) || has_text(o, init[less[i]])) by {
                assert(less[i] == at[i]);
                assert(at[i] < at[at.len() - 1]);
                assert(init[less[i]] == ws[at[i]]);
            }
            assert forall|k: int|
                0 <= k < init.len() && byte_len(#[trigger] init[k]) >= 2 && (has_text(t, init[k]) || has_text(
                    o,
                    init[k],
                )) implies less.contains(k) by {
                assert(at.contains(k));
                let i = choose|i: int| 0 <= i < at.len() && at[i] == k;
                assert(less[i] == k);
            }
            lemma_words_at(init, t, o, less);
        } else {
            assert(!word_found(ws.last(), t, o));
            assert forall|i: int| 0 <= i < at.len() implies 0 <= #[trigger] at[i] < init.len() && byte_len(
                init[at[i]],
            ) >= 2 && (has_text(t, init[at[i]]) || has_text(o, init[at[i]])) by {
                assert(at.contains(at[i]));
                assert(init[at[i]] == ws[at[i]]);
            }
            lemma_words_at(init, t, o, at);
        }
    }
}

/// A word of the query of two bytes or more that stands in the title or in the objective
/// makes the score positive, whatever else is said.
pub proof fn law_a_found_word_counts(
    q: Seq<char>,
    t: Seq<char>,
    o: Seq<char>,
    k: int,
    query_project: Option<Seq<char>>,
    candidate_project: Option<Seq<char>>,
    query_workspace: Option<Seq<char>>,
    candidate_workspace: Option<Seq<char>>,
)
    requires
        0 <= k < words(q).len(),
        byte_len(words(q)[k]) >= 2,
        has_text(t, words(q)[k]) || has_text(o, words(q)[k]),
    ensures
        score_of_lowered(
            q,
            t,
            o,
            query_project,
            candidate_project,
            query_workspace,
            candidate_workspace,
        ).0 >= 12,
{
    lemma_one_word_found(words(q), t, o, k);
}

proof fn lemma_one_word_found(ws: Seq<Seq<char>>, t: Seq<char>, o: Seq<char>, k: int)
    requires
        0 <= k < ws.len(),
        byte_len(ws[k]) >= 2,
        has_text(t, ws[k]) || has_text(o, ws[k]),
    ensures
        words_found(ws, t, o) > 0,
    decreases ws.len(),
{
    if k < ws.len() - 1 {
        assert(ws.drop_last()[k] == ws[k]);
        lemma_one_word_found(ws.drop_last(), t, o, k);
    }
}

/// The texts are compared in lower case: what differs in case alone is worth the same.
pub proof fn law_case_does_not_count(
    query: Seq<char>,
    title: Seq<char>,
    objective: Seq<char>,
    query_project: Option<Seq<char>>,
    candidate_project: Option<Seq<char>>,
    query_workspace: Option<Seq<char>>,
    candidate_workspace: Option<Seq<char>>,
    other_query: Seq<char>,
    other_title: Seq<char>,
    other_objective: Seq<char>,
)
    requires
        lowercase(query) == lowercase(other_query),
        lowercase(title) == lowercase(other_title),
        lowercase(objective) == lowercase(other_objective),
    ensures
        score_of(query, title, objective, query_project, candidate_project, query_workspace, candidate_workspace)
            == score_of(
            other_query,
            other_title,
            other_objective,
            query_project,
            candidate_project,
            query_workspace,
            candidate_workspace,
        ),
        score_of(query, title, objective, query_project, candidate_project, query_workspace, candidate_workspace)
            == score_of_lowered(
            lowercase(query),
            lowercase(title),
            lowercase(objective),
            query_project,
            candidate_project,
            query_workspace,
            candidate_workspace,
        ),
{
}

// ---------------------------------------------------------------------
// What is proposed
// ---------------------------------------------------------------------

/// A stored task that is worth anything for the objective is proposed, under its own name,
/// with its score and its states.
pub proof fn law_no_task_is_overlooked(
    request: ResolveStewardTaskRequestView,
    tasks: Seq<BoundTaskView>,
    conversations: Seq<ConversationResponseView>,
    matches_in: Seq<ConversationResponseView>,
    k: int,
)
    requires
        0 <= k < tasks.len(),
        score_of(
            trimmed(request.objective),
            tasks[k].row.title,
            tasks[k].row.objective,
            request.project_id,
            tasks[k].row.project_id,
            request.workspace,
            tasks[k].row.workspace,
        ).0 > 0,
    ensures
        proposals(request, tasks, conversations, matches_in) matches Ok(found) ==> exists|i: int|
            0 <= i < found.len() && (#[trigger] found[i]).task_id == Some(tasks[k].row.id) && found[i].title
                == tasks[k].row.title && (found[i].score as int, found[i].evidence) == score_of(
                trimmed(request.objective),
                tasks[k].row.title,
                tasks[k].row.objective,
                request.project_id,
                tasks[k].row.project_id,
                request.workspace,
                tasks[k].row.workspace,
            ) && found[i].lifecycle is Some && lifecycle_of(tasks[k].row.lifecycle) == Ok::<
                StewardTaskLifecycle,
                ConversationErrorView,
            >(found[i].lifecycle.unwrap()) && found[i].execution_state is Some && execution_state_of(
                tasks[k].row.execution_state,
            ) == Ok::<StewardExecutionState, ConversationErrorView>(found[i].execution_state.unwrap()),
{
    if let Ok(all) = proposals(request, tasks, conversations, matches_in) {
        let objective = trimmed(request.objective);
        let found = task_candidates(objective, request, tasks)->Ok_0;
        lemma_task_is_proposed(objective, request, tasks, k);
        let with = with_conversations(objective, request, found, conversations);
        lemma_conversations_only_add(objective, request, found, conversations);
        lemma_matches_only_add(with, matches_in);
        let i = choose|i: int|
            0 <= i < found.len() && #[trigger] found[i] == task_candidate(objective, request, tasks[k]);
        assert(all[i] == found[i]);
        law_score_is_explained(
            objective,
            tasks[k].row.title,
            tasks[k].row.objective,
            request.project_id,
            tasks[k].row.project_id,
            request.workspace,
            tasks[k].row.workspace,
        );
        assert(lifecycle_of(tasks[k].row.lifecycle) is Ok && execution_state_of(tasks[k].row.execution_state) is Ok);
    }
}

spec fn task_candidate(
    objective: Seq<char>,
    request: ResolveStewardTaskRequestView,
    t: BoundTaskView,
) -> StewardTaskCandidateResponseView {
    let (score, evidence) = task_score(objective, request, t.row);
    StewardTaskCandidateResponseView {
        task_id: Some(t.row.id),
        conversation_id: match first_primary(t.sessions) {
            Some(b) => Some(b.conversation_id),
            None => None,
        },
        title: t.row.title,
        score: score as i64,
        evidence,
        lifecycle: Some(lifecycle_of(t.row.lifecycle)->Ok_0),
        execution_state: Some(execution_state_of(t.row.execution_state)->Ok_0),
    }
}

proof fn lemma_task_is_proposed(
    objective: Seq<char>,
    request: ResolveStewardTaskRequestView,
    tasks: Seq<BoundTaskView>,
    k: int,
)
    requires
        0 <= k < tasks.len(),
        task_score(objective, request, tasks[k].row).0 > 0,
        task_candidates(objective, request, tasks) is Ok,
    ensures
        lifecycle_of(tasks[k].row.lifecycle) is Ok,
        execution_state_of(tasks[k].row.execution_state) is Ok,
        exists|i: int|
            0 <= i < task_candidates(objective, request, tasks)->Ok_0.len() && #[trigger] task_candidates(
                objective,
                request,
                tasks,
            )->Ok_0[i] == task_candidate(objective, request, tasks[k]),
    decreases tasks.len(),
{
    let all = task_candidates(objective, request, tasks)->Ok_0;
    if k == tasks.len() - 1 {
        assert(all[all.len() - 1] == task_candidate(objective, request, tasks[k]));
    } else {
        let init = tasks.drop_last();
        assert(init[k] == tasks[k]);
        lemma_task_is_proposed(objective, request, init, k);
        let found = task_candidates(objective, request, init)->Ok_0;
        let i = choose|i: int|
            0 <= i < found.len() && #[trigger] found[i] == task_candidate(objective, request, init[k]);
        assert(all[i] == found[i]);
    }
}

proof fn lemma_conversations_only_add(
    objective: Seq<char>,
    request: ResolveStewardTaskRequestView,
    found: Seq<StewardTaskCandidateResponseView>,
    conversations: Seq<ConversationResponseView>,
)
    ensures
        with_conversations(objective, request, found, conversations).len() >= found.len(),
        forall|i: int|
            0 <= i < found.len() ==> #[trigger] with_conversations(objective, request, found, conversations)[i]
                == found[i],
    decreases conversations.len(),
{
    if conversations.len() > 0 {
        lemma_conversations_only_add(objective, request, found, conversations.drop_last());
        let before = with_conversations(objective, request, found, conversations.drop_last());
        let after = with_conversations(objective, request, found, conversations);
        assert forall|i: int| 0 <= i < found.len() implies #[trigger] after[i] == found[i] by {
            assert(before[i] == found[i]);
        }
    }
}

proof fn lemma_matches_only_add(
    found: Seq<StewardTaskCandidateResponseView>,
    matches_in: Seq<ConversationResponseView>,
)
    ensures
        with_matches(found, matches_in).len() >= found.len(),
        forall|i: int| 0 <= i < found.len() ==> #[trigger] with_matches(found, matches_in)[i] == found[i],
    decreases matches_in.len(),
{
    if matches_in.len() > 0 {
        lemma_matches_only_add(found, matches_in.drop_last());
        let before = with_matches(found, matches_in.drop_last());
        let after = with_matches(found, matches_in);
        assert forall|i: int| 0 <= i < found.len() implies #[trigger] after[i] == found[i] by {
            assert(before[i] == found[i]);
        }
    }
}

/// A conversation of neither a steward nor a team worker whose name, project or workspace
/// is worth anything for the objective is proposed, on its own or as a task's primary.
pub proof fn law_no_conversation_is_overlooked(
    request: ResolveStewardTaskRequestView,
    tasks: Seq<BoundTaskView>,
    conversations: Seq<ConversationResponseView>,
    matches_in: Seq<ConversationResponseView>,
    k: int,
)
    requires
        0 <= k < conversations.len(),
        !marks_steward(conversations[k].extra),
        !marks_worker(conversations[k].extra),
        score_of(
            trimmed(request.objective),
            conversations[k].name,
            ""@,
            request.project_id,
            conversations[k].project_id,
            request.workspace,
            text_field(conversations[k].extra, "workspace"@),
        ).0 > 0,
    ensures
        proposals(request, tasks, conversations, matches_in) matches Ok(found) ==> exists|i: int|
            0 <= i < found.len() && (#[trigger] found[i]).conversation_id == Some(conversations[k].id),
{
    if let Ok(all) = proposals(request, tasks, conversations, matches_in) {
        let objective = trimmed(request.objective);
        let found = task_candidates(objective, request, tasks)->Ok_0;
        let with = with_conversations(objective, request, found, conversations);
        lemma_conversation_is_proposed(objective, request, found, conversations, k);
        lemma_matches_only_add(with, matches_in);
        let i = choose|i: int|
            0 <= i < with.len() && (#[trigger] with[i]).conversation_id == Some(conversations[k].id);
        assert(all[i] == with[i]);
    }
}

proof fn lemma_conversation_is_proposed(
    objective: Seq<char>,
    request: ResolveStewardTaskRequestView,
    found: Seq<StewardTaskCandidateResponseView>,
    conversations: Seq<ConversationResponseView>,
    k: int,
)
    requires
        0 <= k < conversations.len(),
        !marks_steward(conversations[k].extra),
        !marks_worker(conversations[k].extra),
        conversation_score(objective, request, conversations[k]).0 > 0,
    ensures
        proposes(with_conversations(objective, request, found, conversations), conversations[k].id),
    decreases conversations.len(),
{
    let init = conversations.drop_last();
    let before = with_conversations(objective, request, found, init);
    let after = with_conversations(objective, request, found, conversations);
    if k == conversations.len() - 1 {
        if !proposes(before, conversations[k].id) {
            assert(after[after.len() - 1].conversation_id == Some(conversations[k].id));
        }
    } else {
        assert(init[k] == conversations[k]);
        lemma_conversation_is_proposed(objective, request, found, init, k);
        let i = choose|i: int| 0 <= i < before.len() && (#[trigger] before[i]).conversation_id == Some(init[k].id);
        assert(after[i] == before[i]);
    }
}

/// A conversation in whose messages the objective was found is proposed, unless it is a
/// steward's.
pub proof fn law_no_match_is_overlooked(
    request: ResolveStewardTaskRequestView,
    tasks: Seq<BoundTaskView>,
    conversations: Seq<ConversationResponseView>,
    matches_in: Seq<ConversationResponseView>,
    k: int,
)
    requires
        0 <= k < matches_in.len(),
        !marks_steward(matches_in[k].extra),
    ensures
        proposals(request, tasks, conversations, matches_in) matches Ok(found) ==> exists|i: int|
            0 <= i < found.len() && (#[trigger] found[i]).conversation_id == Some(matches_in[k].id),
{
    if let Ok(all) = proposals(request, tasks, conversations, matches_in) {
        let objective = trimmed(request.objective);
        let found = task_candidates(objective, request, tasks)->Ok_0;
        lemma_match_is_proposed(
            with_conversations(objective, request, found, conversations),
            matches_in,
            k,
        );
        assert(proposes(all, matches_in[k].id));
    }
}

proof fn lemma_match_is_proposed(
    found: Seq<StewardTaskCandidateResponseView>,
    matches_in: Seq<ConversationResponseView>,
    k: int,
)
    requires
        0 <= k < matches_in.len(),
        !marks_steward(matches_in[k].extra),
    ensures
        proposes(with_matches(found, matches_in), matches_in[k].id),
    decreases matches_in.len(),
{
    let init = matches_in.drop_last();
    let before = with_matches(found, init);
    let after = with_matches(found, matches_in);
    if k == matches_in.len() - 1 {
        if !proposes(before, matches_in[k].id) {
            assert(after[after.len() - 1].conversation_id == Some(matches_in[k].id));
        }
    } else {
        assert(init[k] == matches_in[k]);
        lemma_match_is_proposed(found, init, k);
        let i = choose|i: int| 0 <= i < before.len() && (#[trigger] before[i]).conversation_id == Some(init[k].id);
        assert(after[i] == before[i]);
    }
}

/// What is proposed on its own is either a conversation of neither a steward nor a worker,
/// with the score of its name, or one that was found by its messages, which is worth 45.
pub proof fn law_what_is_proposed_is_worth_it(
    request: ResolveStewardTaskRequestView,
    tasks: Seq<BoundTaskView>,
    conversations: Seq<ConversationResponseView>,
    matches_in: Seq<ConversationResponseView>,
)
    ensures
        proposals(request, tasks, conversations, matches_in) matches Ok(found) ==> forall|i: int|
            0 <= i < found.len() && (#[trigger] found[i]).task_id is None ==> {
                ||| exists|k: int|
                    0 <= k < conversations.len() && found[i].conversation_id == Some(
                        (#[trigger] conversations[k]).id,
                    ) && found[i].title == conversations[k].name && !marks_steward(conversations[k].extra)
                        && !marks_worker(conversations[k].extra) && (found[i].score as int, found[i].evidence)
                        == score_of(
                        trimmed(request.objective),
                        conversations[k].name,
                        ""@,
                        request.project_id,
                        conversations[k].project_id,
                        request.workspace,
                        text_field(conversations[k].extra, "workspace"@),
                    )
                ||| exists|k: int|
                    0 <= k < matches_in.len() && found[i].conversation_id == Some((#[trigger] matches_in[k]).id)
                        && found[i].title == matches_in[k].name && !marks_steward(matches_in[k].extra)
                        && found[i].score == 45 && found[i].evidence == seq!["message_content"@]
            },
{
    if let Ok(all) = proposals(request, tasks, conversations, matches_in) {
        let objective = trimmed(request.objective);
        let found = task_candidates(objective, request, tasks)->Ok_0;
        lemma_task_candidates_proper(objective, request, tasks);
        let with = with_conversations(objective, request, found, conversations);
        lemma_conversations_are_worth_it(objective, request, found, conversations);
        lemma_matches_are_worth_it(with, matches_in);
        lemma_matches_only_add(with, matches_in);
        assert forall|i: int| 0 <= i < all.len() && (#[trigger] all[i]).task_id is None implies (exists|k: int|
            0 <= k < conversations.len() && is_worth_it(objective, request, all[i], #[trigger] conversations[k])) || (
        exists|k: int|
            0 <= k < matches_in.len() && !marks_steward((#[trigger] matches_in[k]).extra) && all[i]
                == loose_candidate(matches_in[k], 45, seq!["message_content"@])) by {
            if i < with.len() {
                assert(all[i] == with[i]);
            }
        }
    }
}

spec fn is_worth_it(
    objective: Seq<char>,
    request: ResolveStewardTaskRequestView,
    candidate: StewardTaskCandidateResponseView,
    c: ConversationResponseView,
) -> bool {
    &&& !marks_steward(c.extra)
    &&& !marks_worker(c.extra)
    &&& candidate == loose_candidate(c, candidate.score, candidate.evidence)
    &&& (candidate.score as int, candidate.evidence) == conversation_score(objective, request, c)
}

proof fn lemma_conversations_are_worth_it(
    objective: Seq<char>,
    request: ResolveStewardTaskRequestView,
    found: Seq<StewardTaskCandidateResponseView>,
    conversations: Seq<ConversationResponseView>,
)
    requires
        forall|i: int| 0 <= i < found.len() ==> (#[trigger] found[i]).task_id is Some,
    ensures
        forall|i: int|
            0 <= i < with_conversations(objective, request, found, conversations).len() && (
            #[trigger] with_conversations(objective, request, found, conversations)[i]).task_id is None
                ==> exists|k: int|
                0 <= k < conversations.len() && is_worth_it(
                    objective,
                    request,
                    with_conversations(objective, request, found, conversations)[i],
                    #[trigger] conversations[k],
                ),
    decreases conversations.len(),
{
    if conversations.len() > 0 {
        let init = conversations.drop_last();
        lemma_conversations_are_worth_it(objective, request, found, init);
        let before = with_conversations(objective, request, found, init);
        let after = with_conversations(objective, request, found, conversations);
        let c = conversations.last();
        law_score_is_explained(
            objective,
            c.name,
            ""@,
            request.project_id,
            c.project_id,
            request.workspace,
            text_field(c.extra, "workspace"@),
        );
        assert forall|i: int| 0 <= i < after.len() && (#[trigger] after[i]).task_id is None implies exists|k: int|
            0 <= k < conversations.len() && is_worth_it(objective, request, after[i], #[trigger] conversations[k]) by {
            if i < before.len() {
                assert(after[i] == before[i]);
                let k = choose|k: int|
                    0 <= k < init.len() && is_worth_it(objective, request, before[i], #[trigger] init[k]);
                assert(conversations[k] == init[k]);
            } else {
                assert(is_worth_it(objective, request, after[i], conversations[conversations.len() - 1]));
            }
        }
    }
}

proof fn lemma_matches_are_worth_it(
    found: Seq<StewardTaskCandidateResponseView>,
    matches_in: Seq<ConversationResponseView>,
)
    ensures
        forall|i: int|
            found.len() <= i < with_matches(found, matches_in).len() ==> exists|k: int|
                0 <= k < matches_in.len() && !marks_steward((#[trigger] matches_in[k]).extra)
                    && #[trigger] with_matches(found, matches_in)[i] == loose_candidate(
                    matches_in[k],
                    45,
                    seq!["message_content"@],
                ),
    decreases matches_in.len(),
{
    if matches_in.len() > 0 {
        let init = matches_in.drop_last();
        lemma_matches_are_worth_it(found, init);
        let before = with_matches(found, init);
        let after = with_matches(found, matches_in);
        assert forall|i: int| found.len() <= i < after.len() implies exists|k: int|
            0 <= k < matches_in.len() && !marks_steward((#[trigger] matches_in[k]).extra) && #[trigger] after[i]
                == loose_candidate(matches_in[k], 45, seq!["message_content"@]) by {
            if i < before.len() {
                assert(after[i] == before[i]);
                let k = choose|k: int|
                    0 <= k < init.len() && !marks_steward((#[trigger] init[k]).extra) && before[i]
                        == loose_candidate(init[k], 45, seq!["message_content"@]);
                assert(matches_in[k] == init[k]);
            } else {
                let k = matches_in.len() - 1;
                assert(matches_in[k] == matches_in.last());
            }
        }
    }
}

/// A blank objective is refused, and nothing else is but a task that is worth something and
/// has no proper state.
pub proof fn law_a_search_fails_only_for_a_reason(
    request: ResolveStewardTaskRequestView,
    tasks: Seq<BoundTaskView>,
    conversations: Seq<ConversationResponseView>,
    matches_in: Seq<ConversationResponseView>,
)
    ensures
        trimmed(request.objective).len() == 0 ==> proposals(request, tasks, conversations, matches_in) == Err::<
            Seq<StewardTaskCandidateResponseView>,
            ConversationErrorView,
        >(ConversationErrorView::BadRequest { reason: "objective"@ + " must not be empty"@ }),
        trimmed(request.objective).len() > 0 && (forall|k: int|
            0 <= k < tasks.len() ==> lifecycle_of((#[trigger] tasks[k]).row.lifecycle) is Ok && execution_state_of(
                tasks[k].row.execution_state,
            ) is Ok) ==> proposals(request, tasks, conversations, matches_in) is Ok,
{
    if forall|k: int|
        0 <= k < tasks.len() ==> lifecycle_of((#[trigger] tasks[k]).row.lifecycle) is Ok && execution_state_of(
            tasks[k].row.execution_state,
        ) is Ok {
        lemma_tasks_are_read(trimmed(request.objective), request, tasks);
    }
}

proof fn lemma_tasks_are_read(
    objective: Seq<char>,
    request: ResolveStewardTaskRequestView,
    tasks: Seq<BoundTaskView>,
)
    requires
        forall|k: int|
            0 <= k < tasks.len() ==> lifecycle_of((#[trigger] tasks[k]).row.lifecycle) is Ok && execution_state_of(
                tasks[k].row.execution_state,
            ) is Ok,
    ensures
        task_candidates(objective, request, tasks) is Ok,
    decreases tasks.len(),
{
    if tasks.len() > 0 {
        let init = tasks.drop_last();
        assert(tasks[tasks.len() - 1] == tasks.last());
        assert(forall|k: int| 0 <= k < init.len() ==> #[trigger] init[k] == tasks[k]);
        lemma_tasks_are_read(objective, request, init);
    }
}

/// A limit between 1 and 50 is the one that holds; without one it is 10.
pub proof fn law_the_limit_is_the_one_asked_for(limit: Option<u32>, found: Seq<StewardTaskCandidateResponseView>)
    ensures
        limit is None && found.len() >= 10 ==> best(found, limit).len() == 10,
        limit matches Some(n) ==> (1 <= n <= 50 && found.len() >= n ==> best(found, limit).len() == n),
        limit is None && found.len() <= 10 ==> best(found, limit).len() == found.len(),
        limit matches Some(n) ==> (found.len() <= n <= 50 ==> best(found, limit).len() == found.len()),
{
    law_desc_order_is_stable(scores(found));
}

} // verus!
