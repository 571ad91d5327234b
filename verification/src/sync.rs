//! What becomes of each native session that was found.
use vstd::prelude::*;
use crate::conversation::{MessageRow, MessageRowView};
use crate::history::{
    all_rejoined, found_in, law_the_newest_come_first, merge_orphaned_worktrees, newest, newest_first, provider_key, provider_title, times,
    AnchorRow, AnchorRowView, BindingRow, BindingRowView, NativeAnchor, NativeAnchorView, NativeProvider, NativeSession,
    NativeSessionView, ProviderSyncResult, ProviderSyncResultView, SyncResponse, SyncResponseView,
};
use crate::json::{
    bool_field, entry_views, field, json_parsed, json_text, law_object_holds_its_entries, object_of, text_field,
    text_or_null, Json, JsonView,
};
use crate::order::{desc_order, law_desc_order_is_stable, lemma_insert_into_order, ranked};
use crate::paths::{are_same, same_path};
use crate::text::{as_text, has_prefix, has_suffix, opt_view, same, shortened, truncate, views};
use crate::titles::{short_id, short_of};

verus! {

// ---------------------------------------------------------------------
// The ledger
// ---------------------------------------------------------------------

/// How far the adoption of histories has come.
#[derive(Debug, Clone)]
pub struct SyncLedger {
    pub codex: ProviderSyncResult,
    pub qoder: ProviderSyncResult,
    pub bindings: Vec<BindingRow>,
    pub anchors: Vec<NativeAnchor>,
    pub grouped: Vec<String>,
}

/// The model of [`SyncLedger`].
#[verifier::ext_equal]
pub struct SyncLedgerView {
    pub codex: ProviderSyncResultView,
    pub qoder: ProviderSyncResultView,
    pub bindings: Seq<BindingRowView>,
    pub anchors: Seq<NativeAnchorView>,
    pub grouped: Seq<Seq<char>>,
}

impl View for SyncLedger {
    type V = SyncLedgerView;

    open spec fn view(&self) -> SyncLedgerView {
        SyncLedgerView {
            codex: self.codex@,
            qoder: self.qoder@,
            bindings: views(self.bindings@),
            anchors: views(self.anchors@),
            grouped: views(self.grouped@),
        }
    }
}

/// The anchors whose stored data name their backend, in order.
pub open spec fn anchors_of(rows: Seq<AnchorRowView>) -> Seq<NativeAnchorView>
    decreases rows.len(),
{
    if rows.len() == 0 {
        Seq::empty()
    } else {
        let before = anchors_of(rows.drop_last());
        let row = rows.last();
        match json_parsed(row.extra) {
            Some(x) => match text_field(x, "backend"@) {
                Some(backend) => before.push(
                    NativeAnchorView {
                        backend,
                        session_id: row.session_id,
                        conversation_id: row.conversation_id,
                    },
                ),
                None => before,
            },
            None => before,
        }
    }
}

/// Reads the anchors whose stored data name their backend.
pub fn read_anchors(rows: &Vec<AnchorRow>) -> (r: Vec<NativeAnchor>)
    ensures
        views(r@) == anchors_of(views(rows@)),
{
    let ghost all = views(rows@);
    let mut out: Vec<NativeAnchor> = Vec::new();
    let mut i: usize = 0;
    assert(views(out@) =~= Seq::empty());
    assert(all.take(0) =~= Seq::empty());
    while i < rows.len()
        invariant
            i <= rows@.len(),
            all == views(rows@),
            views(out@) == anchors_of(all.take(i as int)),
        decreases rows@.len() - i,
    {
        let row = &rows[i];
        proof {
            assert(all.take(i + 1).drop_last() =~= all.take(i as int));
            assert(all.take(i + 1).last() == row@);
        }
        if let Some(x) = Json::parse(row.extra.as_str()) {
            if let Some(backend) = x.text_at("backend") {
                let ghost before = views(out@);
                out.push(
                    NativeAnchor {
                        backend: backend.to_owned(),
                        session_id: row.session_id.clone(),
                        conversation_id: row.conversation_id.clone(),
                    },
                );
                assert(views(out@) =~= before.push(out@.last()@));
            }
        }
        i += 1;
    }
    assert(all.take(i as int) =~= all);
    out
}

/// The counts of a provider before any of its sessions was dealt with.
pub open spec fn fresh_result(scan: Result<Vec<NativeSession>, String>) -> ProviderSyncResultView {
    ProviderSyncResultView {
        discovered: found_in(scan).len() as usize,
        imported: 0,
        linked_existing: 0,
        already_synced: 0,
        tombstoned: 0,
        skipped: 0,
        errors: crate::history::failure_in(scan),
    }
}

/// The sessions in the order in which they are dealt with: each in its repository, the
/// newest first.
pub open spec fn agenda(
    codex: Result<Vec<NativeSession>, String>,
    qoder: Result<Vec<NativeSession>, String>,
) -> Seq<NativeSessionView> {
    newest_first(all_rejoined(found_in(codex) + found_in(qoder)))
}

fn new_result(scan: &Result<Vec<NativeSession>, String>) -> (r: ProviderSyncResult)
    ensures
        r@ == fresh_result(*scan),
{
    let mut errors: Vec<String> = Vec::new();
    let discovered: usize = match scan {
        Ok(v) => {
            assert(views(v@).len() == v@.len());
            v.len()
        },
        Err(e) => {
            errors.push(e.clone());
            0
        },
    };
    assert(views(errors@) =~= crate::history::failure_in(*scan));
    ProviderSyncResult {
        discovered,
        imported: 0,
        linked_existing: 0,
        already_synced: 0,
        tombstoned: 0,
        skipped: 0,
        errors,
    }
}

/// The ledger before any session was dealt with.
pub open spec fn opened(
    codex: Result<Vec<NativeSession>, String>,
    qoder: Result<Vec<NativeSession>, String>,
    bindings: Seq<BindingRowView>,
    anchors: Seq<AnchorRowView>,
) -> SyncLedgerView {
    SyncLedgerView {
        codex: fresh_result(codex),
        qoder: fresh_result(qoder),
        bindings,
        anchors: anchors_of(anchors),
        grouped: Seq::empty(),
    }
}

/// Opens the ledger on what the scans found.
pub fn begin_sync(
    codex: Result<Vec<NativeSession>, String>,
    qoder: Result<Vec<NativeSession>, String>,
    bindings: Vec<BindingRow>,
    anchors: &Vec<AnchorRow>,
) -> (r: (SyncLedger, Vec<NativeSession>))
    ensures
        r.0@ == opened(codex, qoder, views(bindings@), views(anchors@)),
        views(r.1@) == agenda(codex, qoder),
{
    let codex_result = new_result(&codex);
    let qoder_result = new_result(&qoder);
    let ghost first = found_in(codex);
    let ghost second = found_in(qoder);
    let mut sessions: Vec<NativeSession> = match codex {
        Ok(v) => v,
        Err(_) => Vec::new(),
    };
    assert(views(sessions@) =~= first);
    let mut more: Vec<NativeSession> = match qoder {
        Ok(v) => v,
        Err(_) => Vec::new(),
    };
    assert(views(more@) =~= second);
    sessions.append(&mut more);
    assert(views(sessions@) =~= first + second);
    merge_orphaned_worktrees(&mut sessions);
    let n: usize = sessions.len();
    let ordered = newest(&sessions, n);
    proof {
        law_desc_order_is_stable(times(views(sessions@)));
        assert(newest_first(views(sessions@)).len() == n);
    }
    let grouped: Vec<String> = Vec::new();
    assert(views(grouped@) =~= Seq::empty());
    (
        SyncLedger {
            codex: codex_result,
            qoder: qoder_result,
            bindings,
            anchors: read_anchors(anchors),
            grouped,
        },
        ordered,
    )
}

// ---------------------------------------------------------------------
// Deciding
// ---------------------------------------------------------------------

/// What is to be done with a session.
#[derive(Debug, Clone, PartialEq, Eq)]
pub enum SyncAction {
    /// Its conversation was deleted on purpose: keep the binding up to date, and nothing
    /// else.
    Tombstone,
    /// It has a conversation: keep the binding and the project up to date.
    Refresh { conversation_id: String },
    /// A conversation already speaks to it: bind it to that one.
    Link { conversation_id: String },
    /// It is new: create a conversation for it.
    Import,
}

/// The model of [`SyncAction`].
#[verifier::ext_equal]
pub enum SyncActionView {
    Tombstone,
    Refresh { conversation_id: Seq<char> },
    Link { conversation_id: Seq<char> },
    Import,
}

impl View for SyncAction {
    type V = SyncActionView;

    open spec fn view(&self) -> SyncActionView {
        match *self {
            SyncAction::Tombstone => SyncActionView::Tombstone,
            SyncAction::Refresh { conversation_id } => SyncActionView::Refresh { conversation_id: conversation_id@ },
            SyncAction::Link { conversation_id } => SyncActionView::Link { conversation_id: conversation_id@ },
            SyncAction::Import => SyncActionView::Import,
        }
    }
}

/// The binding of a session, the last one where there are several.
pub open spec fn binding_for(bindings: Seq<BindingRowView>, provider: Seq<char>, id: Seq<char>) -> Option<
    BindingRowView,
>
    decreases bindings.len(),
{
    if bindings.len() == 0 {
        None
    } else if bindings.last().provider == provider && bindings.last().native_session_id == id {
        Some(bindings.last())
    } else {
        binding_for(bindings.drop_last(), provider, id)
    }
}

/// The conversation that already speaks to a session, the last one where there are several.
pub open spec fn anchor_for(anchors: Seq<NativeAnchorView>, provider: Seq<char>, id: Seq<char>) -> Option<Seq<char>>
    decreases anchors.len(),
{
    if anchors.len() == 0 {
        None
    } else if anchors.last().backend == provider && anchors.last().session_id == id {
        Some(anchors.last().conversation_id)
    } else {
        anchor_for(anchors.drop_last(), provider, id)
    }
}

/// What is to be done with a session.
pub open spec fn action_for(ledger: SyncLedgerView, s: NativeSessionView) -> SyncActionView {
    match binding_for(ledger.bindings, provider_key(s.provider), s.native_id) {
        Some(b) => if b.conversation_exists {
            SyncActionView::Refresh { conversation_id: b.conversation_id }
        } else {
            SyncActionView::Tombstone
        },
        None => match anchor_for(ledger.anchors, provider_key(s.provider), s.native_id) {
            Some(id) => SyncActionView::Link { conversation_id: id },
            None => SyncActionView::Import,
        },
    }
}

fn find_binding<'a>(bindings: &'a Vec<BindingRow>, provider: &str, id: &str) -> (r: Option<&'a BindingRow>)
    ensures
        opt_view(r) == binding_for(views(bindings@), provider@, id@),
{
    let ghost all = views(bindings@);
    let mut i: usize = bindings.len();
    assert(all.take(i as int) =~= all);
    while 0 < i
        invariant
            i <= bindings@.len(),
            all == views(bindings@),
            binding_for(all, provider@, id@) == binding_for(all.take(i as int), provider@, id@),
        decreases i,
    {
        i -= 1;
        assert(all.take(i + 1).drop_last() =~= all.take(i as int));
        assert(all.take(i + 1).last() == bindings@[i as int]@);
        if same(bindings[i].provider.as_str(), provider) && same(bindings[i].native_session_id.as_str(), id) {
            return Some(&bindings[i]);
        }
    }
    None
}

fn find_anchor<'a>(anchors: &'a Vec<NativeAnchor>, provider: &str, id: &str) -> (r: Option<&'a str>)
    ensures
        opt_view(r) == anchor_for(views(anchors@), provider@, id@),
{
    let ghost all = views(anchors@);
    let mut i: usize = anchors.len();
    assert(all.take(i as int) =~= all);
    while 0 < i
        invariant
            i <= anchors@.len(),
            all == views(anchors@),
            anchor_for(all, provider@, id@) == anchor_for(all.take(i as int), provider@, id@),
        decreases i,
    {
        i -= 1;
        assert(all.take(i + 1).drop_last() =~= all.take(i as int));
        assert(all.take(i + 1).last() == anchors@[i as int]@);
        if same(anchors[i].backend.as_str(), provider) && same(anchors[i].session_id.as_str(), id) {
            return Some(anchors[i].conversation_id.as_str());
        }
    }
    None
}

/// Decides what is to be done with a session.
pub fn next_action(ledger: &SyncLedger, session: &NativeSession) -> (r: SyncAction)
    ensures
        r@ == action_for(ledger@, session@),
{
    let provider = session.provider.as_str();
    match find_binding(&ledger.bindings, provider, session.native_id.as_str()) {
        Some(b) => if b.conversation_exists {
            SyncAction::Refresh { conversation_id: b.conversation_id.clone() }
        } else {
            SyncAction::Tombstone
        },
        None => match find_anchor(&ledger.anchors, provider, session.native_id.as_str()) {
            Some(id) => SyncAction::Link { conversation_id: id.to_owned() },
            None => SyncAction::Import,
        },
    }
}

// ---------------------------------------------------------------------
// Recording
// ---------------------------------------------------------------------

/// What came of dealing with a session.
#[derive(Debug, Clone, PartialEq, Eq)]
pub enum SyncOutcome {
    Tombstoned,
    /// Its binding is up to date; whether its project is, too.
    Refreshed { grouped: bool },
    Linked,
    Imported { conversation_id: String },
    Failed { error: String },
    TimedOut,
}

/// The model of [`SyncOutcome`].
#[verifier::ext_equal]
pub enum SyncOutcomeView {
    Tombstoned,
    Refreshed { grouped: bool },
    Linked,
    Imported { conversation_id: Seq<char> },
    Failed { error: Seq<char> },
    TimedOut,
}

impl View for SyncOutcome {
    type V = SyncOutcomeView;

    open spec fn view(&self) -> SyncOutcomeView {
        match *self {
            SyncOutcome::Tombstoned => SyncOutcomeView::Tombstoned,
            SyncOutcome::Refreshed { grouped } => SyncOutcomeView::Refreshed { grouped },
            SyncOutcome::Linked => SyncOutcomeView::Linked,
            SyncOutcome::Imported { conversation_id } => SyncOutcomeView::Imported {
                conversation_id: conversation_id@,
            },
            SyncOutcome::Failed { error } => SyncOutcomeView::Failed { error: error@ },
            SyncOutcome::TimedOut => SyncOutcomeView::TimedOut,
        }
    }
}

/// One more, as far as a count can go.
pub open spec fn counted(n: usize) -> usize {
    if n == usize::MAX {
        n
    } else {
        (n + 1) as usize
    }
}

/// The errors with one more, as long as there are fewer than ten.
pub open spec fn noted(errors: Seq<Seq<char>>, id: Seq<char>, error: Seq<char>) -> Seq<Seq<char>> {
    if errors.len() < 10 {
        errors.push(short_of(id) + ": "@ + error)
    } else {
        errors
    }
}

/// The counts of a provider after a session was dealt with.
pub open spec fn tallied(
    result: ProviderSyncResultView,
    id: Seq<char>,
    outcome: SyncOutcomeView,
) -> ProviderSyncResultView {
    match outcome {
        SyncOutcomeView::Tombstoned => ProviderSyncResultView { tombstoned: counted(result.tombstoned), ..result },
        SyncOutcomeView::Refreshed { .. } => ProviderSyncResultView {
            already_synced: counted(result.already_synced),
            ..result
        },
        SyncOutcomeView::Linked => ProviderSyncResultView {
            linked_existing: counted(result.linked_existing),
            ..result
        },
        SyncOutcomeView::Imported { .. } => ProviderSyncResultView { imported: counted(result.imported), ..result },
        SyncOutcomeView::Failed { error } => ProviderSyncResultView {
            skipped: counted(result.skipped),
            errors: noted(result.errors, id, error),
            ..result
        },
        SyncOutcomeView::TimedOut => ProviderSyncResultView {
            skipped: counted(result.skipped),
            errors: noted(result.errors, id, "adoption timed out"@),
            ..result
        },
    }
}

/// Whether the outcome put the session's project in order.
pub open spec fn groups(outcome: SyncOutcomeView) -> bool {
    match outcome {
        SyncOutcomeView::Refreshed { grouped } => grouped,
        SyncOutcomeView::Linked | SyncOutcomeView::Imported { .. } => true,
        _ => false,
    }
}

/// `keys` with `key`, once.
pub open spec fn with_key(keys: Seq<Seq<char>>, key: Seq<char>) -> Seq<Seq<char>> {
    if keys.contains(key) {
        keys
    } else {
        keys.push(key)
    }
}

/// The ledger after a session was dealt with.
pub open spec fn recorded(ledger: SyncLedgerView, s: NativeSessionView, outcome: SyncOutcomeView) -> SyncLedgerView {
    SyncLedgerView {
        codex: if s.provider is Codex {
            tallied(ledger.codex, s.native_id, outcome)
        } else {
            ledger.codex
        },
        qoder: if s.provider is Qoder {
            tallied(ledger.qoder, s.native_id, outcome)
        } else {
            ledger.qoder
        },
        bindings: match outcome {
            SyncOutcomeView::Imported { conversation_id } => ledger.bindings.push(
                BindingRowView {
                    provider: provider_key(s.provider),
                    native_session_id: s.native_id,
                    conversation_id,
                    conversation_exists: true,
                },
            ),
            _ => ledger.bindings,
        },
        anchors: ledger.anchors,
        grouped: if groups(outcome) {
            with_key(ledger.grouped, s.project_key)
        } else {
            ledger.grouped
        },
    }
}

fn count(n: usize) -> (r: usize)
    ensures
        r == counted(n),
{
    if n == usize::MAX {
        n
    } else {
        n + 1
    }
}

fn note(errors: &mut Vec<String>, id: &str, error: &str)
    ensures
        views(final(errors)@) == noted(views(old(errors)@), id@, error@),
{
    let ghost before = views(errors@);
    if errors.len() < 10 {
        let mut line = short_id(id).to_owned();
        line.append(": ");
        line.append(error);
        errors.push(line);
        assert(views(errors@) =~= before.push(errors@.last()@));
    }
}

fn tally(result: ProviderSyncResult, id: &str, outcome: &SyncOutcome) -> (r: ProviderSyncResult)
    ensures
        r@ == tallied(result@, id@, outcome@),
{
    let mut result = result;
    match outcome {
        SyncOutcome::Tombstoned => {
            result.tombstoned = count(result.tombstoned);
        },
        SyncOutcome::Refreshed { .. } => {
            result.already_synced = count(result.already_synced);
        },
        SyncOutcome::Linked => {
            result.linked_existing = count(result.linked_existing);
        },
        SyncOutcome::Imported { .. } => {
            result.imported = count(result.imported);
        },
        SyncOutcome::Failed { error } => {
            result.skipped = count(result.skipped);
            note(&mut result.errors, id, error.as_str());
        },
        SyncOutcome::TimedOut => {
            result.skipped = count(result.skipped);
            note(&mut result.errors, id, "adoption timed out");
        },
    }
    result
}

fn put_key(keys: &mut Vec<String>, key: &str)
    ensures
        views(final(keys)@) == with_key(views(old(keys)@), key@),
{
    let ghost start = views(keys@);
    let mut i: usize = 0;
    while i < keys.len()
        invariant
            i <= keys@.len(),
            start == views(keys@),
            forall|k: int| 0 <= k < i ==> #[trigger] start[k] != key@,
        decreases keys@.len() - i,
    {
        if same(keys[i].as_str(), key) {
            assert(start[i as int] == key@);
            return ;
        }
        i += 1;
    }
    assert(!start.contains(key@));
    keys.push(key.to_owned());
    assert(views(keys@) =~= start.push(key@));
}

/// Records what came of dealing with a session.
pub fn record(ledger: SyncLedger, session: &NativeSession, outcome: &SyncOutcome) -> (r: SyncLedger)
    ensures
        r@ == recorded(ledger@, session@, outcome@),
{
    let mut ledger = ledger;
    let ghost before = ledger@;
    match session.provider {
        NativeProvider::Codex => {
            ledger.codex = tally(ledger.codex, session.native_id.as_str(), outcome);
        },
        NativeProvider::Qoder => {
            ledger.qoder = tally(ledger.qoder, session.native_id.as_str(), outcome);
        },
    }
    if let SyncOutcome::Imported { conversation_id } = outcome {
        ledger.bindings.push(
            BindingRow {
                provider: session.provider.as_str().to_owned(),
                native_session_id: session.native_id.clone(),
                conversation_id: conversation_id.clone(),
                conversation_exists: true,
            },
        );
        assert(views(ledger.bindings@) =~= recorded(before, session@, outcome@).bindings);
    }
    let in_order = match outcome {
        SyncOutcome::Refreshed { grouped } => *grouped,
        SyncOutcome::Linked | SyncOutcome::Imported { .. } => true,
        _ => false,
    };
    if in_order {
        put_key(&mut ledger.grouped, session.project_key.as_str());
    }
    ledger
}

/// What is told of a synchronisation at its end.
pub open spec fn sync_summary(ledger: SyncLedgerView, now: i64) -> SyncResponseView {
    SyncResponseView {
        codex: ledger.codex,
        qoder: ledger.qoder,
        projects_grouped: ledger.grouped.len() as usize,
        synced_at: now,
    }
}

/// Closes the ledger.
pub fn finish_sync(ledger: SyncLedger, now: i64) -> (r: SyncResponse)
    ensures
        r@ == (SyncResponseView {
            codex: ledger@.codex,
            qoder: ledger@.qoder,
            projects_grouped: ledger@.grouped.len() as usize,
            synced_at: now,
        }),
        r@ == sync_summary(ledger@, now),
{
    SyncResponse {
        codex: ledger.codex,
        qoder: ledger.qoder,
        projects_grouped: ledger.grouped.len(),
        synced_at: now,
    }
}

// ---------------------------------------------------------------------
// A whole run
// ---------------------------------------------------------------------

/// What can come of an action.
pub open spec fn can_come_of(action: SyncActionView, outcome: SyncOutcomeView) -> bool {
    match action {
        SyncActionView::Tombstone => outcome is Tombstoned,
        SyncActionView::Refresh { .. } => outcome is Refreshed,
        SyncActionView::Link { .. } => outcome is Linked,
        SyncActionView::Import => outcome is Imported || outcome is Failed || outcome is TimedOut,
    }
}

/// The ledger after sessions were dealt with one after the other.
pub open spec fn worked_off(
    ledger: SyncLedgerView,
    steps: Seq<(NativeSessionView, SyncOutcomeView)>,
) -> SyncLedgerView
    decreases steps.len(),
{
    if steps.len() == 0 {
        ledger
    } else {
        recorded(worked_off(ledger, steps.drop_last()), steps.last().0, steps.last().1)
    }
}

/// Whether each outcome can have come of what was decided for its session at that point.
pub open spec fn is_run(ledger: SyncLedgerView, steps: Seq<(NativeSessionView, SyncOutcomeView)>) -> bool
    decreases steps.len(),
{
    steps.len() > 0 ==> {
        &&& is_run(ledger, steps.drop_last())
        &&& can_come_of(
            action_for(worked_off(ledger, steps.drop_last()), steps.last().0),
            steps.last().1,
        )
    }
}

/// The sessions with what came of each.
pub open spec fn with_outcomes(
    sessions: Seq<NativeSessionView>,
    outcomes: Seq<SyncOutcomeView>,
) -> Seq<(NativeSessionView, SyncOutcomeView)> {
    Seq::new(sessions.len(), |i: int| (sessions[i], outcomes[i]))
}

/// How many of the sessions are a provider's.
pub open spec fn sessions_of(sessions: Seq<NativeSessionView>, provider: NativeProvider) -> nat
    decreases sessions.len(),
{
    if sessions.len() == 0 {
        0
    } else {
        sessions_of(sessions.drop_last(), provider) + if sessions.last().provider == provider {
            1nat
        } else {
            0
        }
    }
}

/// How many of a provider's sessions were dealt with.
pub open spec fn dealt_with(r: ProviderSyncResultView) -> int {
    r.imported + r.linked_existing + r.already_synced + r.tombstoned + r.skipped
}

/// Whether a scan found sessions of one provider only.
pub open spec fn found_only(scan: Result<Vec<NativeSession>, String>, provider: NativeProvider) -> bool {
    forall|i: int| 0 <= i < found_in(scan).len() ==> (#[trigger] found_in(scan)[i]).provider == provider
}

proof fn lemma_sessions_of_sum(a: Seq<NativeSessionView>, b: Seq<NativeSessionView>, provider: NativeProvider)
    ensures
        sessions_of(a + b, provider) == sessions_of(a, provider) + sessions_of(b, provider),
    decreases b.len(),
{
    if b.len() == 0 {
        assert(a + b =~= a);
    } else {
        lemma_sessions_of_sum(a, b.drop_last(), provider);
        assert((a + b).drop_last() =~= a + b.drop_last());
    }
}

proof fn lemma_sessions_of_insert(a: Seq<NativeSessionView>, p: int, s: NativeSessionView, provider: NativeProvider)
    requires
        0 <= p <= a.len(),
    ensures
        sessions_of(a.insert(p, s), provider) == sessions_of(a.push(s), provider),
{
    let head = a.take(p);
    let tail = a.skip(p);
    assert(a.insert(p, s) =~= head + seq![s] + tail);
    assert(a =~= head + tail);
    lemma_sessions_of_sum(head + seq![s], tail, provider);
    lemma_sessions_of_sum(head, seq![s], provider);
    lemma_sessions_of_sum(head, tail, provider);
    lemma_sessions_of_sum(a, seq![s], provider);
    assert(a.push(s) =~= a + seq![s]);
}

proof fn lemma_sessions_of_same(
    a: Seq<NativeSessionView>,
    b: Seq<NativeSessionView>,
    provider: NativeProvider,
)
    requires
        a.len() == b.len(),
        forall|i: int| 0 <= i < a.len() ==> (#[trigger] a[i]).provider == b[i].provider,
    ensures
        sessions_of(a, provider) == sessions_of(b, provider),
    decreases a.len(),
{
    if a.len() > 0 {
        lemma_sessions_of_same(a.drop_last(), b.drop_last(), provider);
    }
}

proof fn lemma_sessions_of_one_provider(a: Seq<NativeSessionView>, all: NativeProvider, provider: NativeProvider)
    requires
        forall|i: int| 0 <= i < a.len() ==> (#[trigger] a[i]).provider == all,
    ensures
        sessions_of(a, provider) == if provider == all {
            a.len()
        } else {
            0
        },
    decreases a.len(),
{
    if a.len() > 0 {
        lemma_sessions_of_one_provider(a.drop_last(), all, provider);
    }
}

proof fn lemma_sessions_of_ranked(s: Seq<NativeSessionView>, keys: Seq<i64>, provider: NativeProvider)
    requires
        s.len() == keys.len(),
    ensures
        sessions_of(ranked(s, keys), provider) == sessions_of(s, provider),
    decreases s.len(),
{
    let init = s.drop_last();
    if s.len() == 0 {
        assert(ranked(s, keys) =~= s);
    } else {
        lemma_sessions_of_ranked(init, keys.drop_last(), provider);
        let order = desc_order(keys.drop_last());
        law_desc_order_is_stable(keys.drop_last());
        let p = lemma_insert_into_order(keys);
        let before = ranked(init, keys.drop_last());
        assert(ranked(s, keys) =~= before.insert(p, s.last())) by {
            assert(desc_order(keys) == order.insert(p, keys.len() - 1));
        }
        lemma_sessions_of_insert(before, p, s.last(), provider);
        assert(before.push(s.last()).drop_last() =~= before);
    }
}

proof fn lemma_run_counts(ledger: SyncLedgerView, sessions: Seq<NativeSessionView>, outcomes: Seq<SyncOutcomeView>)
    requires
        outcomes.len() == sessions.len(),
        dealt_with(ledger.codex) + sessions_of(sessions, NativeProvider::Codex) <= usize::MAX,
        dealt_with(ledger.qoder) + sessions_of(sessions, NativeProvider::Qoder) <= usize::MAX,
    ensures
        ({
            let end = worked_off(ledger, with_outcomes(sessions, outcomes));
            &&& dealt_with(end.codex) == dealt_with(ledger.codex) + sessions_of(sessions, NativeProvider::Codex)
            &&& dealt_with(end.qoder) == dealt_with(ledger.qoder) + sessions_of(sessions, NativeProvider::Qoder)
            &&& end.codex.discovered == ledger.codex.discovered
            &&& end.qoder.discovered == ledger.qoder.discovered
        }),
    decreases sessions.len(),
{
    if sessions.len() > 0 {
        lemma_run_counts(ledger, sessions.drop_last(), outcomes.drop_last());
        assert(with_outcomes(sessions, outcomes).drop_last() =~= with_outcomes(
            sessions.drop_last(),
            outcomes.drop_last(),
        ));
    }
}

/// Every session that was found is accounted for: when the whole agenda has been dealt with,
/// whatever came of it, the counts of each provider add up to what was discovered of it.
pub proof fn law_every_session_is_counted_once(
    codex: Result<Vec<NativeSession>, String>,
    qoder: Result<Vec<NativeSession>, String>,
    bindings: Seq<BindingRowView>,
    anchors: Seq<AnchorRowView>,
    outcomes: Seq<SyncOutcomeView>,
)
    requires
        found_only(codex, NativeProvider::Codex),
        found_only(qoder, NativeProvider::Qoder),
        outcomes.len() == agenda(codex, qoder).len(),
    ensures
        ({
            let end = worked_off(
                opened(codex, qoder, bindings, anchors),
                with_outcomes(agenda(codex, qoder), outcomes),
            );
            &&& dealt_with(end.codex) == end.codex.discovered == found_in(codex).len()
            &&& dealt_with(end.qoder) == end.qoder.discovered == found_in(qoder).len()
        }),
{
    let all = found_in(codex) + found_in(qoder);
    let merged = all_rejoined(all);
    lemma_size_of_scan(codex);
    lemma_size_of_scan(qoder);
    assert forall|provider: NativeProvider| #[trigger]
        sessions_of(agenda(codex, qoder), provider) == sessions_of(found_in(codex), provider) + sessions_of(
            found_in(qoder),
            provider,
        ) by {
        lemma_sessions_of_ranked(merged, times(merged), provider);
        lemma_sessions_of_same(merged, all, provider);
        lemma_sessions_of_sum(found_in(codex), found_in(qoder), provider);
    }
    lemma_sessions_of_one_provider(found_in(codex), NativeProvider::Codex, NativeProvider::Codex);
    lemma_sessions_of_one_provider(found_in(codex), NativeProvider::Codex, NativeProvider::Qoder);
    lemma_sessions_of_one_provider(found_in(qoder), NativeProvider::Qoder, NativeProvider::Codex);
    lemma_sessions_of_one_provider(found_in(qoder), NativeProvider::Qoder, NativeProvider::Qoder);
    lemma_run_counts(opened(codex, qoder, bindings, anchors), agenda(codex, qoder), outcomes);
}

proof fn lemma_size_of_scan(scan: Result<Vec<NativeSession>, String>)
    ensures
        found_in(scan).len() <= usize::MAX,
{
    if let Ok(v) = scan {
        assert(v.len() == v@.len());
    }
}

/// No more than ten errors of a provider are kept, and a project is counted once, however many
/// of its sessions were put in order.
pub proof fn law_a_run_is_summed_up(
    codex: Result<Vec<NativeSession>, String>,
    qoder: Result<Vec<NativeSession>, String>,
    bindings: Seq<BindingRowView>,
    anchors: Seq<AnchorRowView>,
    steps: Seq<(NativeSessionView, SyncOutcomeView)>,
)
    ensures
        ({
            let end = worked_off(opened(codex, qoder, bindings, anchors), steps);
            &&& end.codex.errors.len() <= 10
            &&& end.qoder.errors.len() <= 10
            &&& end.grouped.no_duplicates()
            &&& forall|key: Seq<char>| #[trigger]
                end.grouped.contains(key) <==> exists|i: int|
                    0 <= i < steps.len() && groups((#[trigger] steps[i]).1) && steps[i].0.project_key == key
        }),
    decreases steps.len(),
{
    let ledger = opened(codex, qoder, bindings, anchors);
    let end = worked_off(ledger, steps);
    if steps.len() > 0 {
        let init = steps.drop_last();
        let (s, outcome) = steps.last();
        let before = worked_off(ledger, init);
        law_a_run_is_summed_up(codex, qoder, bindings, anchors, init);
        assert(steps[steps.len() - 1] == (s, outcome));
        assert forall|key: Seq<char>| #[trigger]
            end.grouped.contains(key) <==> exists|i: int|
                0 <= i < steps.len() && groups((#[trigger] steps[i]).1) && steps[i].0.project_key == key by {
            assert(before.grouped.contains(key) <==> exists|i: int|
                0 <= i < init.len() && groups((#[trigger] init[i]).1) && init[i].0.project_key == key);
            if groups(outcome) && !before.grouped.contains(s.project_key) {
                assert(end.grouped == before.grouped.push(s.project_key));
                assert(end.grouped[before.grouped.len() as int] == s.project_key);
                if before.grouped.contains(key) {
                    let k = before.grouped.index_of(key);
                    assert(end.grouped[k] == key);
                }
            }
            if exists|i: int| 0 <= i < steps.len() && groups((#[trigger] steps[i]).1) && steps[i].0.project_key
                == key {
                let i = choose|i: int|
                    0 <= i < steps.len() && groups((#[trigger] steps[i]).1) && steps[i].0.project_key == key;
                if i < init.len() {
                    assert(init[i] == steps[i]);
                }
            }
            if before.grouped.contains(key) {
                let i = choose|i: int|
                    0 <= i < init.len() && groups((#[trigger] init[i]).1) && init[i].0.project_key == key;
                assert(steps[i] == init[i]);
            }
        }
    }
}

proof fn lemma_other_sessions_keep_their_binding(
    ledger: SyncLedgerView,
    s: NativeSessionView,
    other: NativeSessionView,
    outcome: SyncOutcomeView,
)
    requires
        other.provider != s.provider || other.native_id != s.native_id,
    ensures
        binding_for(recorded(ledger, other, outcome).bindings, provider_key(s.provider), s.native_id)
            == binding_for(ledger.bindings, provider_key(s.provider), s.native_id),
{
    reveal_strlit("codex");
    reveal_strlit("qoder");
    assert("codex"@[0] != "qoder"@[0]);
    if let SyncOutcomeView::Imported { conversation_id } = outcome {
        let row = BindingRowView {
            provider: provider_key(other.provider),
            native_session_id: other.native_id,
            conversation_id,
            conversation_exists: true,
        };
        assert(ledger.bindings.push(row).drop_last() =~= ledger.bindings);
    }
}

proof fn lemma_a_run_keeps_bindings(
    ledger: SyncLedgerView,
    steps: Seq<(NativeSessionView, SyncOutcomeView)>,
    s: NativeSessionView,
)
    requires
        is_run(ledger, steps),
        binding_for(ledger.bindings, provider_key(s.provider), s.native_id) is Some,
    ensures
        binding_for(worked_off(ledger, steps).bindings, provider_key(s.provider), s.native_id) == binding_for(
            ledger.bindings,
            provider_key(s.provider),
            s.native_id,
        ),
    decreases steps.len(),
{
    if steps.len() > 0 {
        lemma_a_run_keeps_bindings(ledger, steps.drop_last(), s);
        let (other, outcome) = steps.last();
        if other.provider != s.provider || other.native_id != s.native_id {
            lemma_other_sessions_keep_their_binding(worked_off(ledger, steps.drop_last()), s, other, outcome);
        }
    }
}

/// A conversation that was deleted is never brought back: a session whose binding says so is
/// left alone, and so it stays in the whole run.
pub proof fn law_deleted_conversations_stay_deleted(
    ledger: SyncLedgerView,
    steps: Seq<(NativeSessionView, SyncOutcomeView)>,
    s: NativeSessionView,
)
    requires
        is_run(ledger, steps),
        binding_for(ledger.bindings, provider_key(s.provider), s.native_id) matches Some(b)
            && !b.conversation_exists,
    ensures
        action_for(worked_off(ledger, steps), s) is Tombstone,
{
    lemma_a_run_keeps_bindings(ledger, steps, s);
}

proof fn lemma_worked_off_sum(
    ledger: SyncLedgerView,
    a: Seq<(NativeSessionView, SyncOutcomeView)>,
    b: Seq<(NativeSessionView, SyncOutcomeView)>,
)
    ensures
        worked_off(ledger, a + b) == worked_off(worked_off(ledger, a), b),
        is_run(ledger, a + b) ==> is_run(ledger, a) && is_run(worked_off(ledger, a), b),
    decreases b.len(),
{
    if b.len() == 0 {
        assert(a + b =~= a);
    } else {
        assert((a + b).drop_last() =~= a + b.drop_last());
        lemma_worked_off_sum(ledger, a, b.drop_last());
    }
}

/// A session that was imported is not imported again: from then on, and to the end of the
/// run, it has its conversation.
pub proof fn law_imported_once(
    ledger: SyncLedgerView,
    steps: Seq<(NativeSessionView, SyncOutcomeView)>,
    j: int,
    id: Seq<char>,
)
    requires
        is_run(ledger, steps),
        0 <= j < steps.len(),
        steps[j].1 == (SyncOutcomeView::Imported { conversation_id: id }),
    ensures
        action_for(worked_off(ledger, steps), steps[j].0) == (SyncActionView::Refresh { conversation_id: id }),
{
    let head = steps.take(j + 1);
    let tail = steps.skip(j + 1);
    assert(steps =~= head + tail);
    lemma_worked_off_sum(ledger, head, tail);
    assert(head.last() == steps[j]);
    let then = worked_off(ledger, head);
    assert(binding_for(then.bindings, provider_key(steps[j].0.provider), steps[j].0.native_id) is Some);
    lemma_a_run_keeps_bindings(then, tail, steps[j].0);
}

// ---------------------------------------------------------------------
// Importing
// ---------------------------------------------------------------------

/// The error for a session whose workspace is gone.
pub fn workspace_unavailable(cwd: &str) -> (r: String)
    ensures
        r@ == "workspace is unavailable: "@ + cwd@,
{
    let mut r = "workspace is unavailable: ".to_owned();
    r.append(cwd);
    r
}

/// The extra data of the conversation of an imported session.
pub open spec fn import_extra(s: NativeSessionView) -> JsonView {
    let provider = JsonView::Text(provider_key(s.provider));
    object_of(
        seq![
            ("backend"@, provider),
            ("agent_source"@, JsonView::Text("builtin"@)),
            ("workspace"@, JsonView::Text(s.cwd)),
            (
                "native_history"@,
                object_of(
                    seq![
                        ("provider"@, provider),
                        ("session_id"@, JsonView::Text(s.native_id)),
                        ("source_path"@, text_or_null(s.source_path)),
                        ("project_root"@, JsonView::Text(s.project_root)),
                        ("imported"@, JsonView::Bool(true)),
                    ],
                ),
            ),
        ],
    )
}

/// The extra data of the conversation of an imported session.
pub fn import_session(session: &NativeSession) -> (r: Json)
    ensures
        r@ == import_extra(session@),
{
    let mut native: Vec<(String, Json)> = Vec::new();
    native.push(("provider".to_owned(), Json::text(session.provider.as_str())));
    native.push(("session_id".to_owned(), Json::text(session.native_id.as_str())));
    native.push(("source_path".to_owned(), Json::opt_text(as_text(&session.source_path))));
    native.push(("project_root".to_owned(), Json::text(session.project_root.as_str())));
    native.push(("imported".to_owned(), Json::Bool(true)));
    assert(entry_views(native@) =~= seq![
        ("provider"@, JsonView::Text(provider_key(session.provider))),
        ("session_id"@, JsonView::Text(session@.native_id)),
        ("source_path"@, text_or_null(session@.source_path)),
        ("project_root"@, JsonView::Text(session@.project_root)),
        ("imported"@, JsonView::Bool(true)),
    ]);
    Json::object4(
        "backend",
        Json::text(session.provider.as_str()),
        "agent_source",
        Json::text("builtin"),
        "workspace",
        Json::text(session.cwd.as_str()),
        "native_history",
        Json::object(native),
    )
}

/// When a session was archived, if it is: at its last change.
pub open spec fn archive_time(session: NativeSessionView) -> Option<i64> {
    if session.archived {
        Some(session.updated_at)
    } else {
        None
    }
}

/// When the conversation of an imported session counts as archived.
pub fn archived_at(session: &NativeSession) -> (r: Option<i64>)
    ensures
        r == if session.archived {
            Some(session.updated_at)
        } else {
            None
        },
        r == archive_time(session@),
{
    if session.archived {
        Some(session.updated_at)
    } else {
        None
    }
}

/// What is said in the conversation of an imported session.
pub open spec fn import_words(s: NativeSessionView) -> Seq<char> {
    let name = provider_title(s.provider);
    let preview = match s.preview {
        Some(p) => p,
        None => s.title,
    };
    "已从 "@ + name + " 同步原生任务。历史仍由 "@ + name
        + " 保存；下一条消息会直接续接原会话。\n\n最近请求："@ + shortened(preview, 500)
}

/// The message that marks the conversation of an imported session.
pub open spec fn import_marker(id: Seq<char>, conversation_id: Seq<char>, s: NativeSessionView) -> MessageRowView {
    MessageRowView {
        id,
        conversation_id,
        msg_id: None,
        message_type: "tips"@,
        content: json_text(
            object_of(
                seq![
                    ("content"@, JsonView::Text(import_words(s))),
                    ("type"@, JsonView::Text("info"@)),
                    ("code"@, JsonView::Text("NATIVE_HISTORY_IMPORTED"@)),
                    (
                        "params"@,
                        object_of(
                            seq![
                                ("provider"@, JsonView::Text(provider_key(s.provider))),
                                ("native_session_id"@, JsonView::Text(s.native_id)),
                            ],
                        ),
                    ),
                ],
            ),
        ),
        position: Some("center"@),
        status: Some("finish"@),
        hidden: false,
        created_at: s.updated_at,
        backend_turn_id: None,
    }
}

/// The message that marks the conversation of an imported session.
pub fn import_message(id: String, conversation_id: &str, session: &NativeSession) -> (r: MessageRow)
    ensures
        r@ == import_marker(id@, conversation_id@, session@),
{
    let name = session.provider.provider_name();
    let preview = match as_text(&session.preview) {
        Some(p) => p,
        None => session.title.as_str(),
    };
    let mut words = "已从 ".to_owned();
    words.append(name);
    words.append(" 同步原生任务。历史仍由 ");
    words.append(name);
    words.append(" 保存；下一条消息会直接续接原会话。\n\n最近请求：");
    words.append(truncate(preview, 500).as_str());
    assert(words@ =~= import_words(session@));
    let content = Json::object4(
        "content",
        Json::Text(words),
        "type",
        Json::text("info"),
        "code",
        Json::text("NATIVE_HISTORY_IMPORTED"),
        "params",
        Json::object2(
            "provider",
            Json::text(session.provider.as_str()),
            "native_session_id",
            Json::text(session.native_id.as_str()),
        ),
    );
    MessageRow {
        id,
        conversation_id: conversation_id.to_owned(),
        msg_id: None,
        message_type: "tips".to_owned(),
        content: content.to_text(),
        position: Some("center".to_owned()),
        status: Some("finish".to_owned()),
        hidden: false,
        created_at: session.updated_at,
        backend_turn_id: None,
    }
}

// ---------------------------------------------------------------------
// The folder of a conversation
// ---------------------------------------------------------------------

/// Whether a session works in the root of its project, whose folder then is its own.
pub fn works_in_project_root(session: &NativeSession) -> (r: bool)
    ensures
        r == are_same(session@.cwd, session@.project_root),
{
    same_path(session.cwd.as_str(), session.project_root.as_str())
}

/// The folder of a session after its directory was attached to the project. A directory that
/// the project already has leaves the session with the project's own folder.
pub open spec fn attached_folder(
    attached: Result<String, (String, String)>,
    project_folder: Seq<char>,
) -> Result<Seq<char>, Seq<char>> {
    match attached {
        Ok(folder) => Ok(folder@),
        Err((code, error)) => if code@ == "project_explorer_duplicate"@ {
            Ok(project_folder)
        } else {
            Err(error@)
        },
    }
}

/// The folder of a session after its directory was attached, or the attempt failed with a
/// code and an error.
pub fn bind_conversation_project(attached: Result<String, (String, String)>, project_folder: &str) -> (r: Result<
    String,
    String,
>)
    ensures
        match r {
            Ok(f) => attached_folder(attached, project_folder@) == Ok::<Seq<char>, Seq<char>>(f@),
            Err(e) => attached_folder(attached, project_folder@) == Err::<Seq<char>, Seq<char>>(e@),
        },
{
    match attached {
        Ok(folder) => Ok(folder),
        Err((code, error)) => if same(code.as_str(), "project_explorer_duplicate") {
            Ok(project_folder.to_owned())
        } else {
            Err(error)
        },
    }
}

// ---------------------------------------------------------------------
// What decides
// ---------------------------------------------------------------------

/// The last binding of a session decides: while its conversation is there the binding is
/// kept up to date, and once the conversation is gone the session stays deleted.
pub proof fn law_the_last_binding_decides(
    ledger: SyncLedgerView,
    s: NativeSessionView,
    name: Seq<char>,
    k: int,
)
    requires
        name == if s.provider is Codex {
            "codex"@
        } else {
            "qoder"@
        },
        0 <= k < ledger.bindings.len(),
        ledger.bindings[k].provider == name,
        ledger.bindings[k].native_session_id == s.native_id,
        forall|i: int|
            k < i < ledger.bindings.len() ==> (#[trigger] ledger.bindings[i]).provider != name
                || ledger.bindings[i].native_session_id != s.native_id,
    ensures
        ledger.bindings[k].conversation_exists ==> action_for(ledger, s) == (SyncActionView::Refresh {
            conversation_id: ledger.bindings[k].conversation_id,
        }),
        !ledger.bindings[k].conversation_exists ==> action_for(ledger, s) == SyncActionView::Tombstone,
{
    lemma_last_binding(ledger.bindings, name, s.native_id, k);
}

/// A session without a binding to which a conversation already speaks is bound to that
/// conversation, the last one where there are several, whichever provider it is of.
pub proof fn law_anchored_sessions_are_linked(
    ledger: SyncLedgerView,
    s: NativeSessionView,
    name: Seq<char>,
    k: int,
)
    requires
        name == if s.provider is Codex {
            "codex"@
        } else {
            "qoder"@
        },
        forall|i: int|
            0 <= i < ledger.bindings.len() ==> (#[trigger] ledger.bindings[i]).provider != name
                || ledger.bindings[i].native_session_id != s.native_id,
        0 <= k < ledger.anchors.len(),
        ledger.anchors[k].backend == name,
        ledger.anchors[k].session_id == s.native_id,
        forall|i: int|
            k < i < ledger.anchors.len() ==> (#[trigger] ledger.anchors[i]).backend != name
                || ledger.anchors[i].session_id != s.native_id,
    ensures
        action_for(ledger, s) == (SyncActionView::Link { conversation_id: ledger.anchors[k].conversation_id }),
{
    lemma_no_binding(ledger.bindings, name, s.native_id);
    lemma_last_anchor(ledger.anchors, name, s.native_id, k);
}

/// A conversation is created for exactly those sessions that nothing knows: no binding and
/// no anchor of their provider has their identifier.
pub proof fn law_only_unknown_sessions_are_imported(ledger: SyncLedgerView, s: NativeSessionView, name: Seq<char>)
    requires
        name == if s.provider is Codex {
            "codex"@
        } else {
            "qoder"@
        },
    ensures
        action_for(ledger, s) is Import <==> {
            &&& forall|i: int|
                0 <= i < ledger.bindings.len() ==> (#[trigger] ledger.bindings[i]).provider != name
                    || ledger.bindings[i].native_session_id != s.native_id
            &&& forall|i: int|
                0 <= i < ledger.anchors.len() ==> (#[trigger] ledger.anchors[i]).backend != name
                    || ledger.anchors[i].session_id != s.native_id
        },
{
    lemma_no_binding(ledger.bindings, name, s.native_id);
    lemma_no_anchor(ledger.anchors, name, s.native_id);
}

proof fn lemma_last_binding(bindings: Seq<BindingRowView>, name: Seq<char>, id: Seq<char>, k: int)
    requires
        0 <= k < bindings.len(),
        bindings[k].provider == name,
        bindings[k].native_session_id == id,
        forall|i: int|
            k < i < bindings.len() ==> (#[trigger] bindings[i]).provider != name || bindings[i].native_session_id
                != id,
    ensures
        binding_for(bindings, name, id) == Some(bindings[k]),
    decreases bindings.len(),
{
    if k < bindings.len() - 1 {
        let init = bindings.drop_last();
        assert forall|i: int| k < i < init.len() implies (#[trigger] init[i]).provider != name
            || init[i].native_session_id != id by {
            assert(init[i] == bindings[i]);
        }
        assert(bindings[bindings.len() - 1] == bindings.last());
        lemma_last_binding(init, name, id, k);
    }
}

proof fn lemma_no_binding(bindings: Seq<BindingRowView>, name: Seq<char>, id: Seq<char>)
    ensures
        binding_for(bindings, name, id) is None <==> forall|i: int|
            0 <= i < bindings.len() ==> (#[trigger] bindings[i]).provider != name || bindings[i].native_session_id
                != id,
    decreases bindings.len(),
{
    if bindings.len() > 0 {
        let init = bindings.drop_last();
        lemma_no_binding(init, name, id);
        assert(bindings[bindings.len() - 1] == bindings.last());
        assert(forall|i: int| 0 <= i < init.len() ==> #[trigger] init[i] == bindings[i]);
        assert(forall|i: int| 0 <= i < init.len() ==> #[trigger] bindings[i] == init[i]);
    }
}

proof fn lemma_last_anchor(anchors: Seq<NativeAnchorView>, name: Seq<char>, id: Seq<char>, k: int)
    requires
        0 <= k < anchors.len(),
        anchors[k].backend == name,
        anchors[k].session_id == id,
        forall|i: int|
            k < i < anchors.len() ==> (#[trigger] anchors[i]).backend != name || anchors[i].session_id != id,
    ensures
        anchor_for(anchors, name, id) == Some(anchors[k].conversation_id),
    decreases anchors.len(),
{
    if k < anchors.len() - 1 {
        let init = anchors.drop_last();
        assert forall|i: int| k < i < init.len() implies (#[trigger] init[i]).backend != name || init[i].session_id
            != id by {
            assert(init[i] == anchors[i]);
        }
        assert(anchors[anchors.len() - 1] == anchors.last());
        lemma_last_anchor(init, name, id, k);
    }
}

proof fn lemma_no_anchor(anchors: Seq<NativeAnchorView>, name: Seq<char>, id: Seq<char>)
    ensures
        anchor_for(anchors, name, id) is None <==> forall|i: int|
            0 <= i < anchors.len() ==> (#[trigger] anchors[i]).backend != name || anchors[i].session_id != id,
    decreases anchors.len(),
{
    if anchors.len() > 0 {
        let init = anchors.drop_last();
        lemma_no_anchor(init, name, id);
        assert(anchors[anchors.len() - 1] == anchors.last());
        assert(forall|i: int| 0 <= i < init.len() ==> #[trigger] init[i] == anchors[i]);
        assert(forall|i: int| 0 <= i < init.len() ==> #[trigger] anchors[i] == init[i]);
    }
}

// ---------------------------------------------------------------------
// What is recorded
// ---------------------------------------------------------------------

/// Each outcome moves one count of the session's own provider by one, and no other: a
/// session that was linked counts as linked, an imported one as imported, one that was kept
/// up to date as already synced, a deleted one as tombstoned, and what failed or took too
/// long as skipped.
pub proof fn law_outcomes_move_their_own_count(ledger: SyncLedgerView, s: NativeSessionView, outcome: SyncOutcomeView)
    ensures
        ({
            let after = recorded(ledger, s, outcome);
            let was = if s.provider is Codex {
                ledger.codex
            } else {
                ledger.qoder
            };
            let is = if s.provider is Codex {
                after.codex
            } else {
                after.qoder
            };
            &&& s.provider is Codex ==> after.qoder == ledger.qoder
            &&& s.provider is Qoder ==> after.codex == ledger.codex
            &&& is.discovered == was.discovered
            &&& outcome is Tombstoned && was.tombstoned < usize::MAX ==> is.tombstoned == was.tombstoned + 1
            &&& !(outcome is Tombstoned) ==> is.tombstoned == was.tombstoned
            &&& outcome is Refreshed && was.already_synced < usize::MAX ==> is.already_synced == was.already_synced + 1
            &&& !(outcome is Refreshed) ==> is.already_synced == was.already_synced
            &&& outcome is Linked && was.linked_existing < usize::MAX ==> is.linked_existing == was.linked_existing + 1
            &&& !(outcome is Linked) ==> is.linked_existing == was.linked_existing
            &&& outcome is Imported && was.imported < usize::MAX ==> is.imported == was.imported + 1
            &&& !(outcome is Imported) ==> is.imported == was.imported
            &&& (outcome is Failed || outcome is TimedOut) && was.skipped < usize::MAX ==> is.skipped == was.skipped
                + 1
            &&& !(outcome is Failed) && !(outcome is TimedOut) ==> is.skipped == was.skipped && is.errors
                == was.errors
            &&& outcome matches SyncOutcomeView::Failed { error } ==> (was.errors.len() < 10 ==> is.errors.len()
                == was.errors.len() + 1 && is.errors.drop_last() == was.errors && has_suffix(
                is.errors.last(),
                ": "@ + error,
            ))
            &&& outcome is TimedOut && was.errors.len() < 10 ==> is.errors.len() == was.errors.len() + 1
                && has_suffix(is.errors.last(), ": "@ + "adoption timed out"@)
        }),
{
    let was = if s.provider is Codex {
        ledger.codex
    } else {
        ledger.qoder
    };
    if let SyncOutcomeView::Failed { error } = outcome {
        let line = short_of(s.native_id) + ": "@ + error;
        let tail = ": "@ + error;
        assert(line.skip(line.len() - tail.len()) =~= tail);
        assert(was.errors.push(line).drop_last() =~= was.errors);
    }
    if outcome is TimedOut {
        let line = short_of(s.native_id) + ": "@ + "adoption timed out"@;
        let tail = ": "@ + "adoption timed out"@;
        assert(line.skip(line.len() - tail.len()) =~= tail);
    }
}

/// An imported session is bound to its new conversation, after all the bindings there were;
/// no other outcome changes a binding, and none an anchor. A session that was linked or
/// imported, or kept up to date with its project, counts its project as grouped.
pub proof fn law_imports_are_bound(ledger: SyncLedgerView, s: NativeSessionView, outcome: SyncOutcomeView)
    ensures
        recorded(ledger, s, outcome).anchors == ledger.anchors,
        !(outcome is Imported) ==> recorded(ledger, s, outcome).bindings == ledger.bindings,
        outcome matches SyncOutcomeView::Imported { conversation_id } ==> {
            let after = recorded(ledger, s, outcome).bindings;
            &&& after.len() == ledger.bindings.len() + 1
            &&& after.drop_last() == ledger.bindings
            &&& after.last().native_session_id == s.native_id
            &&& after.last().conversation_id == conversation_id
            &&& after.last().conversation_exists
            &&& s.provider is Codex ==> after.last().provider == "codex"@
            &&& s.provider is Qoder ==> after.last().provider == "qoder"@
        },
        outcome is Linked || outcome is Imported || outcome == (SyncOutcomeView::Refreshed { grouped: true })
            ==> recorded(ledger, s, outcome).grouped.contains(s.project_key),
        outcome is Tombstoned || outcome is Failed || outcome is TimedOut || outcome == (SyncOutcomeView::Refreshed {
            grouped: false,
        }) ==> recorded(ledger, s, outcome).grouped == ledger.grouped,
        forall|key: Seq<char>| #[trigger]
            recorded(ledger, s, outcome).grouped.contains(key) ==> ledger.grouped.contains(key) || key
                == s.project_key,
        forall|key: Seq<char>| #[trigger]
            ledger.grouped.contains(key) ==> recorded(ledger, s, outcome).grouped.contains(key),
{
    let grouped = recorded(ledger, s, outcome).grouped;
    if groups(outcome) && !ledger.grouped.contains(s.project_key) {
        assert(grouped[grouped.len() - 1] == s.project_key);
        assert forall|key: Seq<char>| #[trigger] ledger.grouped.contains(key) implies grouped.contains(key) by {
            let i = ledger.grouped.index_of(key);
            assert(grouped[i] == key);
        }
    }
    if let SyncOutcomeView::Imported { conversation_id } = outcome {
        assert(recorded(ledger, s, outcome).bindings.drop_last() =~= ledger.bindings);
    }
}

/// The ledger opens with what each scan found, nothing dealt with yet, and the error of a
/// scan that failed.
pub proof fn law_the_ledger_opens_clean(
    codex: Result<Vec<NativeSession>, String>,
    qoder: Result<Vec<NativeSession>, String>,
    bindings: Seq<BindingRowView>,
    anchors: Seq<AnchorRowView>,
)
    ensures
        ({
            let ledger = opened(codex, qoder, bindings, anchors);
            &&& codex matches Ok(v) ==> ledger.codex.discovered == v@.len() && ledger.codex.errors.len() == 0
            &&& qoder matches Ok(v) ==> ledger.qoder.discovered == v@.len() && ledger.qoder.errors.len() == 0
            &&& codex matches Err(e) ==> ledger.codex.discovered == 0 && ledger.codex.errors == seq![e@]
            &&& qoder matches Err(e) ==> ledger.qoder.discovered == 0 && ledger.qoder.errors == seq![e@]
            &&& ledger.codex.imported == 0 && ledger.codex.linked_existing == 0 && ledger.codex.already_synced == 0
                && ledger.codex.tombstoned == 0 && ledger.codex.skipped == 0
            &&& ledger.qoder.imported == 0 && ledger.qoder.linked_existing == 0 && ledger.qoder.already_synced == 0
                && ledger.qoder.tombstoned == 0 && ledger.qoder.skipped == 0
            &&& ledger.bindings == bindings
            &&& ledger.grouped.len() == 0
        }),
{
    if let Ok(v) = codex {
        assert(v.len() == v@.len());
    }
    if let Ok(v) = qoder {
        assert(v.len() == v@.len());
    }
}

/// All that the scans found is on the agenda, the newest first, and nothing else is.
pub proof fn law_the_agenda_is_complete(
    codex: Result<Vec<NativeSession>, String>,
    qoder: Result<Vec<NativeSession>, String>,
)
    ensures
        agenda(codex, qoder).len() == found_in(codex).len() + found_in(qoder).len(),
        forall|i: int, j: int|
            0 <= i < j < agenda(codex, qoder).len() ==> (#[trigger] agenda(codex, qoder)[i]).updated_at >= (
            #[trigger] agenda(codex, qoder)[j]).updated_at,
        forall|k: int|
            0 <= k < found_in(codex).len() ==> exists|i: int|
                0 <= i < agenda(codex, qoder).len() && (#[trigger] agenda(codex, qoder)[i]).native_id == (
                #[trigger] found_in(codex)[k]).native_id && agenda(codex, qoder)[i].provider
                    == found_in(codex)[k].provider,
        forall|k: int|
            0 <= k < found_in(qoder).len() ==> exists|i: int|
                0 <= i < agenda(codex, qoder).len() && (#[trigger] agenda(codex, qoder)[i]).native_id == (
                #[trigger] found_in(qoder)[k]).native_id && agenda(codex, qoder)[i].provider
                    == found_in(qoder)[k].provider,
{
    let all = found_in(codex) + found_in(qoder);
    let merged = all_rejoined(all);
    law_the_newest_come_first(merged);
    let listed = agenda(codex, qoder);
    assert forall|k: int| 0 <= k < found_in(codex).len() implies exists|i: int|
        0 <= i < listed.len() && (#[trigger] listed[i]).native_id == (#[trigger] found_in(codex)[k]).native_id
            && listed[i].provider == found_in(codex)[k].provider by {
        assert(all[k] == found_in(codex)[k]);
        assert(listed.contains(merged[k]));
    }
    assert forall|k: int| 0 <= k < found_in(qoder).len() implies exists|i: int|
        0 <= i < listed.len() && (#[trigger] listed[i]).native_id == (#[trigger] found_in(qoder)[k]).native_id
            && listed[i].provider == found_in(qoder)[k].provider by {
        let n = found_in(codex).len() + k;
        assert(all[n] == found_in(qoder)[k]);
        assert(listed.contains(merged[n]));
    }
}

/// An anchor is read from each row whose data name a backend, with the row's own session and
/// conversation, and from no other.
pub proof fn law_anchors_are_read_from_their_rows(rows: Seq<AnchorRowView>, anchor: NativeAnchorView)
    ensures
        anchors_of(rows).contains(anchor) <==> exists|i: int|
            0 <= i < rows.len() && (#[trigger] rows[i]).session_id == anchor.session_id && rows[i].conversation_id
                == anchor.conversation_id && (json_parsed(rows[i].extra) matches Some(x) && text_field(x, "backend"@)
                == Some(anchor.backend)),
    decreases rows.len(),
{
    if rows.len() > 0 {
        let init = rows.drop_last();
        law_anchors_are_read_from_their_rows(init, anchor);
        let before = anchors_of(init);
        let after = anchors_of(rows);
        let row = rows.last();
        assert(rows[rows.len() - 1] == row);
        assert(forall|i: int| 0 <= i < init.len() ==> #[trigger] init[i] == rows[i]);
        if exists|i: int|
            0 <= i < rows.len() && (#[trigger] rows[i]).session_id == anchor.session_id && rows[i].conversation_id
                == anchor.conversation_id && (json_parsed(rows[i].extra) matches Some(x) && text_field(x, "backend"@)
                == Some(anchor.backend)) {
            let i = choose|i: int|
                0 <= i < rows.len() && (#[trigger] rows[i]).session_id == anchor.session_id
                    && rows[i].conversation_id == anchor.conversation_id && (json_parsed(rows[i].extra) matches Some(
                    x,
                ) && text_field(x, "backend"@) == Some(anchor.backend));
            if i < init.len() {
                assert(init[i] == rows[i]);
                assert(before.contains(anchor));
            }
        }
        if before.contains(anchor) {
            let k = before.index_of(anchor);
            assert(after[k] == anchor);
            let i = choose|i: int|
                0 <= i < init.len() && (#[trigger] init[i]).session_id == anchor.session_id
                    && init[i].conversation_id == anchor.conversation_id && (json_parsed(init[i].extra) matches Some(
                    x,
                ) && text_field(x, "backend"@) == Some(anchor.backend));
            assert(rows[i] == init[i]);
        }
        if after.contains(anchor) && !before.contains(anchor) {
            let k = after.index_of(anchor);
            if k < before.len() {
                assert(before[k] == anchor);
            }
        }
        if row.session_id == anchor.session_id && row.conversation_id == anchor.conversation_id && (json_parsed(
            row.extra,
        ) matches Some(x) && text_field(x, "backend"@) == Some(anchor.backend)) {
            assert(after[after.len() - 1] == anchor);
        }
    }
}

/// The conversation of an imported session knows its backend, its workspace, and the native
/// session that it continues.
pub proof fn law_an_import_knows_its_session(s: NativeSessionView)
    ensures
        s.provider is Codex ==> text_field(import_extra(s), "backend"@) == Some("codex"@),
        s.provider is Qoder ==> text_field(import_extra(s), "backend"@) == Some("qoder"@),
        text_field(import_extra(s), "workspace"@) == Some(s.cwd),
        field(import_extra(s), "native_history"@) matches Some(h) && text_field(h, "session_id"@) == Some(s.native_id)
            && text_field(h, "project_root"@) == Some(s.project_root) && text_field(h, "provider"@) == text_field(
            import_extra(s),
            "backend"@,
        ) && (s.source_path matches Some(p) ==> text_field(h, "source_path"@) == Some(p)) && bool_field(h, "imported"@)
            == Some(true),
{
    let provider = JsonView::Text(provider_key(s.provider));
    let inner = seq![
        ("provider"@, provider),
        ("session_id"@, JsonView::Text(s.native_id)),
        ("source_path"@, text_or_null(s.source_path)),
        ("project_root"@, JsonView::Text(s.project_root)),
        ("imported"@, JsonView::Bool(true)),
    ];
    let pairs = seq![
        ("backend"@, provider),
        ("agent_source"@, JsonView::Text("builtin"@)),
        ("workspace"@, JsonView::Text(s.cwd)),
        ("native_history"@, object_of(inner)),
    ];
    reveal_strlit("backend");
    reveal_strlit("agent_source");
    reveal_strlit("workspace");
    reveal_strlit("native_history");
    reveal_strlit("provider");
    reveal_strlit("session_id");
    reveal_strlit("source_path");
    reveal_strlit("project_root");
    reveal_strlit("imported");
    assert("backend"@.len() == 7 && "agent_source"@.len() == 12 && "workspace"@.len() == 9 && "native_history"@.len()
        == 14);
    assert("provider"@.len() == 8 && "session_id"@.len() == 10 && "source_path"@.len() == 11 && "project_root"@.len()
        == 12 && "imported"@.len() == 8);
    assert("provider"@[0] == 'p' && "imported"@[0] == 'i');
    law_object_holds_its_entries(pairs, 0, "backend"@);
    law_object_holds_its_entries(pairs, 2, "workspace"@);
    law_object_holds_its_entries(pairs, 3, "native_history"@);
    law_object_holds_its_entries(inner, 0, "provider"@);
    law_object_holds_its_entries(inner, 1, "session_id"@);
    law_object_holds_its_entries(inner, 2, "source_path"@);
    law_object_holds_its_entries(inner, 3, "project_root"@);
    law_object_holds_its_entries(inner, 4, "imported"@);
}

/// The message in an imported conversation names the provider and ends in the last request,
/// or in the title where no request is known, cut at 500 characters.
pub proof fn law_an_import_shows_the_last_request(id: Seq<char>, conversation_id: Seq<char>, s: NativeSessionView)
    ensures
        s.preview matches Some(p) ==> has_suffix(import_words(s), "最近请求："@ + shortened(p, 500)),
        s.preview is None ==> has_suffix(import_words(s), "最近请求："@ + shortened(s.title, 500)),
        s.provider is Codex ==> has_prefix(import_words(s), "已从 "@ + "Codex"@),
        s.provider is Qoder ==> has_prefix(import_words(s), "已从 "@ + "Qoder"@),
        exists|x: JsonView|
            #[trigger] json_text(x) == import_marker(id, conversation_id, s).content && text_field(x, "content"@)
                == Some(import_words(s)),
        import_marker(id, conversation_id, s).id == id,
        import_marker(id, conversation_id, s).conversation_id == conversation_id,
        import_marker(id, conversation_id, s).created_at == s.updated_at,
        !import_marker(id, conversation_id, s).hidden,
{
    let name = provider_title(s.provider);
    let preview = match s.preview {
        Some(p) => p,
        None => s.title,
    };
    let words = import_words(s);
    let head = "已从 "@ + name;
    assert(words.take(head.len() as int) =~= head);
    reveal_strlit(" 保存；下一条消息会直接续接原会话。\n\n最近请求：");
    reveal_strlit("最近请求：");
    let last = " 保存；下一条消息会直接续接原会话。\n\n最近请求："@;
    let label = "最近请求："@;
    assert(last.skip(last.len() - label.len()) =~= label);
    let tail = label + shortened(preview, 500);
    let front = "已从 "@ + name + " 同步原生任务。历史仍由 "@ + name + last.take(last.len() - label.len());
    assert(last =~= last.take(last.len() - label.len()) + label);
    assert(words =~= front + tail);
    assert(words.skip(words.len() - tail.len()) =~= tail);
    let params = object_of(
        seq![
            ("provider"@, JsonView::Text(provider_key(s.provider))),
            ("native_session_id"@, JsonView::Text(s.native_id)),
        ],
    );
    let pairs = seq![
        ("content"@, JsonView::Text(import_words(s))),
        ("type"@, JsonView::Text("info"@)),
        ("code"@, JsonView::Text("NATIVE_HISTORY_IMPORTED"@)),
        ("params"@, params),
    ];
    reveal_strlit("content");
    reveal_strlit("type");
    reveal_strlit("code");
    reveal_strlit("params");
    assert("content"@.len() == 7 && "type"@.len() == 4 && "code"@.len() == 4 && "params"@.len() == 6);
    law_object_holds_its_entries(pairs, 0, "content"@);
    assert(json_text(object_of(pairs)) == import_marker(id, conversation_id, s).content);
}

/// A directory that could be attached gives the session its own folder; one that the project
/// already has leaves it with the project's, and any other failure is handed on.
pub proof fn law_a_known_directory_is_no_failure(attached: Result<String, (String, String)>, project_folder: Seq<char>)
    ensures
        attached matches Ok(folder) ==> attached_folder(attached, project_folder) == Ok::<Seq<char>, Seq<char>>(
            folder@,
        ),
        attached is Err && attached->Err_0.0@ == "project_explorer_duplicate"@ ==> attached_folder(
            attached,
            project_folder,
        ) == Ok::<Seq<char>, Seq<char>>(project_folder),
        attached is Err && attached->Err_0.0@ != "project_explorer_duplicate"@ ==> attached_folder(
            attached,
            project_folder,
        ) == Err::<Seq<char>, Seq<char>>(attached->Err_0.1@),
{
}

/// The end of a synchronisation tells what was counted for each provider, as many projects
/// as were given a conversation, and the time.
pub proof fn law_the_summary_tells_what_was_counted(ledger: SyncLedgerView, project: Seq<char>, now: i64)
    requires
        ledger.grouped.len() < usize::MAX,
    ensures
        sync_summary(ledger, now).codex == ledger.codex,
        sync_summary(ledger, now).qoder == ledger.qoder,
        sync_summary(ledger, now).synced_at == now,
        ledger.grouped.len() == 0 ==> sync_summary(ledger, now).projects_grouped == 0,
        sync_summary(SyncLedgerView { grouped: ledger.grouped.push(project), ..ledger }, now).projects_grouped
            == sync_summary(ledger, now).projects_grouped + 1,
{
}

/// A session that is archived was so since it last changed; any other session is open.
pub proof fn law_an_archived_session_stays_archived(session: NativeSessionView)
    ensures
        archive_time(session) is Some <==> session.archived,
        archive_time(NativeSessionView { archived: true, ..session }) == Some(session.updated_at),
        archive_time(NativeSessionView { archived: false, ..session }) is None,
{
}

} // verus!
