//! Adopting the histories that providers keep on this machine.
use vstd::prelude::*;
use crate::candidates::at_most;
use crate::order::{as_ints, desc_order, law_desc_order_is_stable, lemma_order_is_onto, order_desc, ranked};
use crate::paths::{are_same, file_name, file_name_of, same_path};
use crate::text::{
    ascii_lower, ascii_lowered, contains, copy_opt, copy_texts, has_prefix, has_text, join, joined, opt_view, same,
    starts_with, views,
};

verus! {

/// Who keeps a native session.
#[derive(Debug, Clone, Copy, PartialEq, Eq, Structural)]
pub enum NativeProvider {
    Codex,
    Qoder,
}

/// The stored name of a provider.
pub open spec fn provider_key(p: NativeProvider) -> Seq<char> {
    match p {
        NativeProvider::Codex => "codex"@,
        NativeProvider::Qoder => "qoder"@,
    }
}

/// The name of a provider as it is shown.
pub open spec fn provider_title(p: NativeProvider) -> Seq<char> {
    match p {
        NativeProvider::Codex => "Codex"@,
        NativeProvider::Qoder => "Qoder"@,
    }
}

impl NativeProvider {
    /// The stored name of this provider.
    pub fn as_str(&self) -> (r: &'static str)
        ensures
            r@ == provider_key(*self),
    {
        match self {
            NativeProvider::Codex => "codex",
            NativeProvider::Qoder => "qoder",
        }
    }

    /// The name of this provider as it is shown.
    pub fn provider_name(&self) -> (r: &'static str)
        ensures
            r@ == provider_title(*self),
    {
        match self {
            NativeProvider::Codex => "Codex",
            NativeProvider::Qoder => "Qoder",
        }
    }
}

/// A session that a provider keeps on this machine.
#[derive(Debug, Clone)]
pub struct NativeSession {
    pub provider: NativeProvider,
    pub native_id: String,
    pub title: String,
    pub preview: Option<String>,
    pub cwd: String,
    pub source_path: Option<String>,
    pub updated_at: i64,
    pub created_at: i64,
    pub archived: bool,
    pub project_key: String,
    pub project_root: String,
}

/// The model of [`NativeSession`].
#[verifier::ext_equal]
pub struct NativeSessionView {
    pub provider: NativeProvider,
    pub native_id: Seq<char>,
    pub title: Seq<char>,
    pub preview: Option<Seq<char>>,
    pub cwd: Seq<char>,
    pub source_path: Option<Seq<char>>,
    pub updated_at: i64,
    pub created_at: i64,
    pub archived: bool,
    pub project_key: Seq<char>,
    pub project_root: Seq<char>,
}

impl View for NativeSession {
    type V = NativeSessionView;

    open spec fn view(&self) -> NativeSessionView {
        NativeSessionView {
            provider: self.provider,
            native_id: self.native_id@,
            title: self.title@,
            preview: opt_view(self.preview),
            cwd: self.cwd@,
            source_path: opt_view(self.source_path),
            updated_at: self.updated_at,
            created_at: self.created_at,
            archived: self.archived,
            project_key: self.project_key@,
            project_root: self.project_root@,
        }
    }
}

impl NativeSession {
    /// A copy with the same content.
    pub fn copy(&self) -> (r: NativeSession)
        ensures
            r@ == self@,
    {
        NativeSession {
            provider: self.provider,
            native_id: self.native_id.clone(),
            title: self.title.clone(),
            preview: copy_opt(&self.preview),
            cwd: self.cwd.clone(),
            source_path: copy_opt(&self.source_path),
            updated_at: self.updated_at,
            created_at: self.created_at,
            archived: self.archived,
            project_key: self.project_key.clone(),
            project_root: self.project_root.clone(),
        }
    }
}

/// Which histories are to be adopted.
#[derive(Debug, Clone)]
pub struct SyncRequest {
    pub providers: Vec<String>,
    pub max_sessions_per_provider: Option<usize>,
}

/// The model of [`SyncRequest`].
#[verifier::ext_equal]
pub struct SyncRequestView {
    pub providers: Seq<Seq<char>>,
    pub max_sessions_per_provider: Option<usize>,
}

impl View for SyncRequest {
    type V = SyncRequestView;

    open spec fn view(&self) -> SyncRequestView {
        SyncRequestView {
            providers: views(self.providers@),
            max_sessions_per_provider: self.max_sessions_per_provider,
        }
    }
}

/// What came of adopting the history of one provider.
#[derive(Debug, Clone)]
pub struct ProviderSyncResult {
    pub discovered: usize,
    pub imported: usize,
    pub linked_existing: usize,
    pub already_synced: usize,
    pub tombstoned: usize,
    pub skipped: usize,
    pub errors: Vec<String>,
}

/// The model of [`ProviderSyncResult`].
#[verifier::ext_equal]
pub struct ProviderSyncResultView {
    pub discovered: usize,
    pub imported: usize,
    pub linked_existing: usize,
    pub already_synced: usize,
    pub tombstoned: usize,
    pub skipped: usize,
    pub errors: Seq<Seq<char>>,
}

impl View for ProviderSyncResult {
    type V = ProviderSyncResultView;

    open spec fn view(&self) -> ProviderSyncResultView {
        ProviderSyncResultView {
            discovered: self.discovered,
            imported: self.imported,
            linked_existing: self.linked_existing,
            already_synced: self.already_synced,
            tombstoned: self.tombstoned,
            skipped: self.skipped,
            errors: views(self.errors@),
        }
    }
}

impl ProviderSyncResult {
    /// A copy with the same content.
    pub fn copy(&self) -> (r: ProviderSyncResult)
        ensures
            r@ == self@,
    {
        ProviderSyncResult {
            discovered: self.discovered,
            imported: self.imported,
            linked_existing: self.linked_existing,
            already_synced: self.already_synced,
            tombstoned: self.tombstoned,
            skipped: self.skipped,
            errors: copy_texts(&self.errors),
        }
    }
}

/// What came of adopting histories.
#[derive(Debug, Clone)]
pub struct SyncResponse {
    pub codex: ProviderSyncResult,
    pub qoder: ProviderSyncResult,
    pub projects_grouped: usize,
    pub synced_at: i64,
}

/// The model of [`SyncResponse`].
#[verifier::ext_equal]
pub struct SyncResponseView {
    pub codex: ProviderSyncResultView,
    pub qoder: ProviderSyncResultView,
    pub projects_grouped: usize,
    pub synced_at: i64,
}

impl View for SyncResponse {
    type V = SyncResponseView;

    open spec fn view(&self) -> SyncResponseView {
        SyncResponseView {
            codex: self.codex@,
            qoder: self.qoder@,
            projects_grouped: self.projects_grouped,
            synced_at: self.synced_at,
        }
    }
}

/// A native session that is bound to a conversation, whether or not that still exists.
#[derive(Debug, Clone)]
pub struct BindingRow {
    pub provider: String,
    pub native_session_id: String,
    pub conversation_id: String,
    pub conversation_exists: bool,
}

/// The model of [`BindingRow`].
#[verifier::ext_equal]
pub struct BindingRowView {
    pub provider: Seq<char>,
    pub native_session_id: Seq<char>,
    pub conversation_id: Seq<char>,
    pub conversation_exists: bool,
}

impl View for BindingRow {
    type V = BindingRowView;

    open spec fn view(&self) -> BindingRowView {
        BindingRowView {
            provider: self.provider@,
            native_session_id: self.native_session_id@,
            conversation_id: self.conversation_id@,
            conversation_exists: self.conversation_exists,
        }
    }
}

/// A conversation that already speaks to a native session.
#[derive(Debug, Clone)]
pub struct AnchorRow {
    pub session_id: String,
    pub conversation_id: String,
    pub extra: String,
}

/// The model of [`AnchorRow`].
#[verifier::ext_equal]
pub struct AnchorRowView {
    pub session_id: Seq<char>,
    pub conversation_id: Seq<char>,
    pub extra: Seq<char>,
}

impl View for AnchorRow {
    type V = AnchorRowView;

    open spec fn view(&self) -> AnchorRowView {
        AnchorRowView {
            session_id: self.session_id@,
            conversation_id: self.conversation_id@,
            extra: self.extra@,
        }
    }
}

/// A conversation that already speaks to a native session of a backend.
#[derive(Debug, Clone)]
pub struct NativeAnchor {
    pub backend: String,
    pub session_id: String,
    pub conversation_id: String,
}

/// The model of [`NativeAnchor`].
#[verifier::ext_equal]
pub struct NativeAnchorView {
    pub backend: Seq<char>,
    pub session_id: Seq<char>,
    pub conversation_id: Seq<char>,
}

impl View for NativeAnchor {
    type V = NativeAnchorView;

    open spec fn view(&self) -> NativeAnchorView {
        NativeAnchorView {
            backend: self.backend@,
            session_id: self.session_id@,
            conversation_id: self.conversation_id@,
        }
    }
}

// ---------------------------------------------------------------------
// What is asked for
// ---------------------------------------------------------------------

/// Whether the request asks for a provider: by its name in any case, or by naming none.
pub open spec fn asks_for(providers: Seq<Seq<char>>, key: Seq<char>) -> bool {
    providers.len() == 0 || exists|i: int| 0 <= i < providers.len() && ascii_lowered(#[trigger] providers[i]) == key
}

/// Whether a provider's history is to be adopted.
pub fn wants_provider(request: &SyncRequest, provider: NativeProvider) -> (r: bool)
    ensures
        r == asks_for(request@.providers, provider_key(provider)),
{
    if request.providers.is_empty() {
        return true;
    }
    let mut i: usize = 0;
    while i < request.providers.len()
        invariant
            i <= request.providers@.len(),
            forall|k: int|
                0 <= k < i ==> ascii_lowered(#[trigger] views(request.providers@)[k]) != provider_key(provider),
        decreases request.providers@.len() - i,
    {
        if same(ascii_lower(request.providers[i].as_str()).as_str(), provider.as_str()) {
            assert(ascii_lowered(views(request.providers@)[i as int]) == provider_key(provider));
            return true;
        }
        i += 1;
    }
    false
}

/// How many sessions of a provider are adopted when nothing else is asked for.
pub const DEFAULT_MAX_SESSIONS_PER_PROVIDER: usize = 2000;

/// How many sessions of a provider are adopted.
pub open spec fn session_limit_of(asked: Option<usize>) -> int {
    match asked {
        Some(n) => if n < 1 {
            1
        } else if n > 10000 {
            10000
        } else {
            n as int
        },
        None => 2000,
    }
}

/// How many sessions of a provider are adopted.
pub fn session_limit(request: &SyncRequest) -> (r: usize)
    ensures
        r == session_limit_of(request.max_sessions_per_provider),
{
    match request.max_sessions_per_provider {
        Some(n) => if n < 1 {
            1
        } else if n > 10000 {
            10000
        } else {
            n
        },
        None => DEFAULT_MAX_SESSIONS_PER_PROVIDER,
    }
}

// ---------------------------------------------------------------------
// The newest sessions
// ---------------------------------------------------------------------

/// When the sessions were last active.
pub open spec fn times(sessions: Seq<NativeSessionView>) -> Seq<i64> {
    Seq::new(sessions.len(), |i: int| sessions[i].updated_at)
}

/// The sessions from the newest to the oldest.
pub open spec fn newest_first(sessions: Seq<NativeSessionView>) -> Seq<NativeSessionView> {
    ranked(sessions, times(sessions))
}

/// The `limit` newest sessions, newest first.
pub fn newest(sessions: &Vec<NativeSession>, limit: usize) -> (r: Vec<NativeSession>)
    ensures
        views(r@) == at_most(newest_first(views(sessions@)), limit as int),
{
    let mut keys: Vec<i64> = Vec::new();
    let mut i: usize = 0;
    while i < sessions.len()
        invariant
            i <= sessions@.len(),
            keys@ == times(views(sessions@)).take(i as int),
        decreases sessions@.len() - i,
    {
        keys.push(sessions[i].updated_at);
        i += 1;
        assert(keys@ =~= times(views(sessions@)).take(i as int));
    }
    assert(keys@ =~= times(views(sessions@)));
    let order = order_desc(&keys);
    let n: usize = if order.len() > limit {
        limit
    } else {
        order.len()
    };
    let ghost all = newest_first(views(sessions@));
    let mut r: Vec<NativeSession> = Vec::new();
    let mut k: usize = 0;
    while k < n
        invariant
            k <= n <= order@.len(),
            as_ints(order@) == desc_order(keys@),
            order@.len() == keys@.len() == sessions@.len(),
            forall|j: int| 0 <= j < order@.len() ==> #[trigger] order@[j] < keys@.len(),
            all == ranked(views(sessions@), keys@),
            views(r@) == all.take(k as int),
        decreases n - k,
    {
        let ghost before = views(r@);
        assert(as_ints(order@)[k as int] == order@[k as int] as int);
        r.push(sessions[order[k]].copy());
        k += 1;
        assert(views(r@) =~= before.push(r@.last()@));
        assert(views(r@) =~= all.take(k as int));
    }
    assert(all.len() == order@.len());
    assert(all.take(all.len() as int) =~= all);
    r
}

// ---------------------------------------------------------------------
// Worktrees without a repository
// ---------------------------------------------------------------------

/// Whether a path lies in a worktree that a provider made.
pub open spec fn in_native_worktree(path: Seq<char>) -> bool {
    has_text(path, "/.codex/worktrees/"@) || has_text(path, "/.qoder/worktrees/"@)
}

/// Whether a path lies in a worktree that a provider made.
pub fn is_native_worktree_path(path: &str) -> (r: bool)
    ensures
        r == in_native_worktree(path@),
{
    contains(path, "/.codex/worktrees/") || contains(path, "/.qoder/worktrees/")
}

/// What is known of the repositories that are checked out under one name.
#[verifier::ext_equal]
pub enum RepoState {
    Unknown,
    One(Seq<char>, Seq<char>),
    Many,
}

/// Whether a session belongs to a repository that is checked out under this name.
pub open spec fn is_checkout(s: NativeSessionView, name: Seq<char>) -> bool {
    has_prefix(s.project_key, "git:"@) && file_name_of(s.project_root) == Some(name)
}

/// What was known, together with one more checkout.
pub open spec fn with_checkout(before: RepoState, key: Seq<char>, root: Seq<char>) -> RepoState {
    match before {
        RepoState::Unknown => RepoState::One(key, root),
        RepoState::One(k, r) => if k == key && are_same(r, root) {
            before
        } else {
            RepoState::Many
        },
        RepoState::Many => RepoState::Many,
    }
}

/// What the sessions tell of the repositories that are checked out under one name.
pub open spec fn repo_state(sessions: Seq<NativeSessionView>, name: Seq<char>) -> RepoState
    decreases sessions.len(),
{
    if sessions.len() == 0 {
        RepoState::Unknown
    } else {
        let before = repo_state(sessions.drop_last(), name);
        if is_checkout(sessions.last(), name) {
            with_checkout(before, sessions.last().project_key, sessions.last().project_root)
        } else {
            before
        }
    }
}

/// Whether a session lies in a provider's worktree that has lost its repository.
pub open spec fn is_orphan(s: NativeSessionView) -> bool {
    has_prefix(s.project_key, "path:"@) && in_native_worktree(s.cwd)
}

/// The session, in the one repository that is checked out under its directory's name if it
/// has lost its own.
pub open spec fn rejoined(s: NativeSessionView, sessions: Seq<NativeSessionView>) -> NativeSessionView {
    if is_orphan(s) {
        match file_name_of(s.cwd) {
            Some(name) => match repo_state(sessions, name) {
                RepoState::One(key, root) => NativeSessionView { project_key: key, project_root: root, ..s },
                _ => s,
            },
            None => s,
        }
    } else {
        s
    }
}

/// The sessions, each in its repository.
pub open spec fn all_rejoined(sessions: Seq<NativeSessionView>) -> Seq<NativeSessionView> {
    Seq::new(sessions.len(), |i: int| rejoined(sessions[i], sessions))
}

/// What is known of the repositories under a name. `None` stands for more than one.
struct RepoEntry {
    name: String,
    identity: Option<(String, String)>,
}

spec fn entry_state(e: RepoEntry) -> RepoState {
    match e.identity {
        Some((key, root)) => RepoState::One(key@, root@),
        None => RepoState::Many,
    }
}

/// The last entry under a name counts.
spec fn table_state(table: Seq<RepoEntry>, name: Seq<char>) -> RepoState
    decreases table.len(),
{
    if table.len() == 0 {
        RepoState::Unknown
    } else if table.last().name@ == name {
        entry_state(table.last())
    } else {
        table_state(table.drop_last(), name)
    }
}

fn find_entry<'a>(table: &'a Vec<RepoEntry>, name: &str) -> (r: Option<&'a RepoEntry>)
    ensures
        table_state(table@, name@) == match r {
            Some(e) => entry_state(*e),
            None => RepoState::Unknown,
        },
{
    let mut i: usize = table.len();
    assert(table@.take(i as int) =~= table@);
    while 0 < i
        invariant
            i <= table@.len(),
            table_state(table@, name@) == table_state(table@.take(i as int), name@),
        decreases i,
    {
        i -= 1;
        assert(table@.take(i + 1).drop_last() =~= table@.take(i as int));
        if same(table[i].name.as_str(), name) {
            return Some(&table[i]);
        }
    }
    None
}

fn repo_table(sessions: &Vec<NativeSession>) -> (r: Vec<RepoEntry>)
    ensures
        forall|name: Seq<char>| #[trigger] table_state(r@, name) == repo_state(views(sessions@), name),
{
    let ghost all = views(sessions@);
    let mut table: Vec<RepoEntry> = Vec::new();
    let mut i: usize = 0;
    assert(all.take(0) =~= Seq::empty());
    while i < sessions.len()
        invariant
            i <= sessions@.len(),
            all == views(sessions@),
            forall|name: Seq<char>| #[trigger] table_state(table@, name) == repo_state(all.take(i as int), name),
        decreases sessions@.len() - i,
    {
        let s = &sessions[i];
        proof {
            assert(all.take(i + 1).drop_last() =~= all.take(i as int));
            assert(all.take(i + 1).last() == s@);
        }
        let ghost before = table@;
        if starts_with(s.project_key.as_str(), "git:") {
            if let Some(name) = file_name(s.project_root.as_str()) {
                let change = match find_entry(&table, name.as_str()) {
                    None => Some(Some((s.project_key.clone(), s.project_root.clone()))),
                    Some(e) => match &e.identity {
                        Some((key, root)) => if same(key.as_str(), s.project_key.as_str()) && same_path(
                            root.as_str(),
                            s.project_root.as_str(),
                        ) {
                            None
                        } else {
                            Some(None)
                        },
                        None => None,
                    },
                };
                if let Some(identity) = change {
                    let ghost known = name@;
                    table.push(RepoEntry { name, identity });
                    assert(table@.drop_last() =~= before);
                }
                assert forall|n: Seq<char>| #[trigger] table_state(table@, n) == repo_state(
                    all.take(i + 1),
                    n,
                ) by {
                    assert(table_state(before, n) == repo_state(all.take(i as int), n));
                }
            } else {
                assert forall|n: Seq<char>| #[trigger] table_state(table@, n) == repo_state(
                    all.take(i + 1),
                    n,
                ) by {
                    assert(table_state(before, n) == repo_state(all.take(i as int), n));
                }
            }
        } else {
            assert forall|n: Seq<char>| #[trigger] table_state(table@, n) == repo_state(all.take(i + 1), n) by {
                assert(table_state(before, n) == repo_state(all.take(i as int), n));
            }
        }
        i += 1;
    }
    assert(all.take(i as int) =~= all);
    table
}

fn rejoin(s: &NativeSession, table: &Vec<RepoEntry>, Ghost(all): Ghost<Seq<NativeSessionView>>) -> (r: NativeSession)
    requires
        forall|name: Seq<char>| #[trigger] table_state(table@, name) == repo_state(all, name),
    ensures
        r@ == rejoined(s@, all),
{
    let mut r = s.copy();
    if starts_with(s.project_key.as_str(), "path:") && is_native_worktree_path(s.cwd.as_str()) {
        if let Some(name) = file_name(s.cwd.as_str()) {
            if let Some(e) = find_entry(table, name.as_str()) {
                if let Some((key, root)) = &e.identity {
                    r.project_key = key.clone();
                    r.project_root = root.clone();
                }
            }
        }
    }
    r
}

/// Puts the sessions of worktrees that lost their repository back into it, where exactly one
/// repository is checked out under the same name. A worktree without its link to the
/// repository would otherwise show up as a second project of that name.
pub fn merge_orphaned_worktrees(sessions: &mut Vec<NativeSession>)
    ensures
        views(final(sessions)@) == all_rejoined(views(old(sessions)@)),
{
    let ghost all = views(sessions@);
    let table = repo_table(sessions);
    let mut out: Vec<NativeSession> = Vec::new();
    let mut i: usize = 0;
    while i < sessions.len()
        invariant
            i <= sessions@.len(),
            all == views(sessions@),
            forall|name: Seq<char>| #[trigger] table_state(table@, name) == repo_state(all, name),
            out@.len() == i,
            forall|k: int| 0 <= k < i ==> #[trigger] out@[k]@ == rejoined(all[k], all),
        decreases sessions@.len() - i,
    {
        let next = rejoin(&sessions[i], &table, Ghost(all));
        out.push(next);
        i += 1;
    }
    assert(views(out@) =~= all_rejoined(all));
    *sessions = out;
}

/// A session changes its project only if it lies in a provider's worktree without a
/// repository, and nothing else of a session ever changes.
pub proof fn law_only_orphans_move(sessions: Seq<NativeSessionView>, i: int)
    requires
        0 <= i < sessions.len(),
    ensures
        all_rejoined(sessions).len() == sessions.len(),
        !is_orphan(sessions[i]) ==> all_rejoined(sessions)[i] == sessions[i],
        all_rejoined(sessions)[i] == (NativeSessionView {
            project_key: all_rejoined(sessions)[i].project_key,
            project_root: all_rejoined(sessions)[i].project_root,
            ..sessions[i]
        }),
{
}

/// Where a session moves to, some session of that repository was found, and every session
/// that is checked out under the same name belongs to that repository.
pub proof fn law_orphans_join_an_unambiguous_repository(sessions: Seq<NativeSessionView>, name: Seq<char>)
    ensures
        repo_state(sessions, name) matches RepoState::One(key, root) ==> {
            &&& exists|i: int|
                0 <= i < sessions.len() && is_checkout(#[trigger] sessions[i], name) && sessions[i].project_key
                    == key && sessions[i].project_root == root
            &&& forall|i: int|
                0 <= i < sessions.len() && is_checkout(#[trigger] sessions[i], name) ==> sessions[i].project_key
                    == key && are_same(root, sessions[i].project_root)
        },
        repo_state(sessions, name) is Unknown ==> forall|i: int|
            0 <= i < sessions.len() ==> !is_checkout(#[trigger] sessions[i], name),
    decreases sessions.len(),
{
    if sessions.len() > 0 {
        let init = sessions.drop_last();
        law_orphans_join_an_unambiguous_repository(init, name);
        let last = sessions.last();
        assert(sessions[sessions.len() - 1] == last);
        if let RepoState::One(key, root) = repo_state(sessions, name) {
            if repo_state(init, name) is One {
                let k = choose|i: int|
                    0 <= i < init.len() && is_checkout(#[trigger] init[i], name) && init[i].project_key == key
                        && init[i].project_root == root;
                assert(sessions[k] == init[k]);
            }
            assert forall|i: int| 0 <= i < sessions.len() && is_checkout(#[trigger] sessions[i], name) implies
                sessions[i].project_key == key && are_same(root, sessions[i].project_root) by {
                if i < init.len() {
                    assert(sessions[i] == init[i]);
                }
            }
        }
        if repo_state(sessions, name) is Unknown {
            assert forall|i: int| 0 <= i < sessions.len() implies !is_checkout(#[trigger] sessions[i], name) by {
                if i < init.len() {
                    assert(sessions[i] == init[i]);
                }
            }
        }
    }
}

// ---------------------------------------------------------------------
// What two scans found together
// ---------------------------------------------------------------------

/// Whether one of the sessions has this identifier.
pub open spec fn has_id(sessions: Seq<NativeSessionView>, id: Seq<char>) -> bool {
    exists|i: int| 0 <= i < sessions.len() && (#[trigger] sessions[i]).native_id == id
}

/// `sessions` with `s`: in the place of the session with its identifier, else at the end.
pub open spec fn with_session(sessions: Seq<NativeSessionView>, s: NativeSessionView) -> Seq<NativeSessionView> {
    if has_id(sessions, s.native_id) {
        Seq::new(
            sessions.len(),
            |i: int|
                if sessions[i].native_id == s.native_id {
                    s
                } else {
                    sessions[i]
                },
        )
    } else {
        sessions.push(s)
    }
}

/// `sessions` with all of `more`, one after the other.
pub open spec fn with_sessions(sessions: Seq<NativeSessionView>, more: Seq<NativeSessionView>) -> Seq<
    NativeSessionView,
>
    decreases more.len(),
{
    if more.len() == 0 {
        sessions
    } else {
        with_session(with_sessions(sessions, more.drop_last()), more.last())
    }
}

/// The sessions that a scan found, none where it failed.
pub open spec fn found_in(scan: Result<Vec<NativeSession>, String>) -> Seq<NativeSessionView> {
    match scan {
        Ok(v) => views(v@),
        Err(_) => Seq::empty(),
    }
}

/// What went wrong with a scan, if anything.
pub open spec fn failure_in(scan: Result<Vec<NativeSession>, String>) -> Seq<Seq<char>> {
    match scan {
        Ok(_) => Seq::empty(),
        Err(e) => seq![e@],
    }
}

/// What the two scans of one provider found together. What the provider itself says takes
/// the place of what its files say. Nothing but failures is a failure.
pub open spec fn codex_found(
    files: Result<Vec<NativeSession>, String>,
    app_server: Result<Vec<NativeSession>, String>,
    limit: usize,
) -> Result<Seq<NativeSessionView>, Seq<char>> {
    let merged = with_sessions(with_sessions(Seq::empty(), found_in(files)), found_in(app_server));
    let errors = failure_in(files) + failure_in(app_server);
    if merged.len() == 0 && errors.len() > 0 {
        Err(joined(errors, "; "@))
    } else {
        Ok(at_most(newest_first(merged), limit as int))
    }
}

fn put_session(sessions: &mut Vec<NativeSession>, s: NativeSession)
    ensures
        views(final(sessions)@) == with_session(views(old(sessions)@), s@),
{
    let ghost start = views(sessions@);
    let mut found = false;
    let mut i: usize = 0;
    while i < sessions.len()
        invariant
            i <= sessions@.len() == start.len(),
            found == exists|k: int| 0 <= k < i && (#[trigger] start[k]).native_id == s@.native_id,
            forall|k: int|
                0 <= k < i ==> #[trigger] views(sessions@)[k] == if start[k].native_id == s@.native_id {
                    s@
                } else {
                    start[k]
                },
            forall|k: int| i <= k < start.len() ==> #[trigger] views(sessions@)[k] == start[k],
        decreases sessions@.len() - i,
    {
        assert(views(sessions@)[i as int] == start[i as int]);
        if same(sessions[i].native_id.as_str(), s.native_id.as_str()) {
            assert(start[i as int].native_id == s@.native_id);
            found = true;
            let ghost before = views(sessions@);
            sessions.set(i, s.copy());
            assert(views(sessions@) =~= before.update(i as int, s@));
        }
        i += 1;
    }
    if found {
        assert(has_id(start, s@.native_id));
        assert(views(sessions@) =~= with_session(start, s@));
    } else {
        assert(views(sessions@) =~= start);
        sessions.push(s);
        assert(views(sessions@) =~= start.push(s@));
    }
}

fn put_sessions(sessions: &mut Vec<NativeSession>, more: &Vec<NativeSession>)
    ensures
        views(final(sessions)@) == with_sessions(views(old(sessions)@), views(more@)),
{
    let ghost start = views(sessions@);
    let ghost all = views(more@);
    let mut i: usize = 0;
    assert(all.take(0) =~= Seq::empty());
    while i < more.len()
        invariant
            i <= more@.len(),
            all == views(more@),
            views(sessions@) == with_sessions(start, all.take(i as int)),
        decreases more@.len() - i,
    {
        proof {
            assert(all.take(i + 1).drop_last() =~= all.take(i as int));
            assert(all.take(i + 1).last() == more@[i as int]@);
        }
        put_session(sessions, more[i].copy());
        i += 1;
    }
    assert(all.take(i as int) =~= all);
}

/// Puts together what the two scans of one provider found.
pub fn scan_codex(
    files: &Result<Vec<NativeSession>, String>,
    app_server: &Result<Vec<NativeSession>, String>,
    limit: usize,
) -> (r: Result<Vec<NativeSession>, String>)
    ensures
        match r {
            Ok(v) => codex_found(*files, *app_server, limit) == Ok::<Seq<NativeSessionView>, Seq<char>>(views(v@)),
            Err(e) => codex_found(*files, *app_server, limit) == Err::<Seq<NativeSessionView>, Seq<char>>(e@),
        },
{
    let mut merged: Vec<NativeSession> = Vec::new();
    let mut errors: Vec<String> = Vec::new();
    assert(views(merged@) =~= Seq::empty());
    match files {
        Ok(v) => {
            put_sessions(&mut merged, v);
        },
        Err(e) => {
            errors.push(e.clone());
        },
    }
    assert(views(errors@) =~= failure_in(*files));
    let ghost first = views(errors@);
    match app_server {
        Ok(v) => {
            put_sessions(&mut merged, v);
        },
        Err(e) => {
            errors.push(e.clone());
        },
    }
    assert(views(errors@) =~= first + failure_in(*app_server));
    assert(views(merged@).len() == merged@.len());
    assert(views(errors@).len() == errors@.len());
    if merged.is_empty() && !errors.is_empty() {
        return Err(join(&errors, "; "));
    }
    Ok(newest(&merged, limit))
}

proof fn lemma_with_session_distinct(sessions: Seq<NativeSessionView>, s: NativeSessionView)
    requires
        ids_differ(sessions),
    ensures
        ids_differ(with_session(sessions, s)),
{
    let after = with_session(sessions, s);
    assert forall|i: int, j: int| 0 <= i < j < after.len() implies (#[trigger] after[i]).native_id != (
    #[trigger] after[j]).native_id by {
        if j < sessions.len() {
            assert(sessions[i].native_id != sessions[j].native_id);
        }
    }
}

/// Whether no two sessions have one identifier.
pub open spec fn ids_differ(sessions: Seq<NativeSessionView>) -> bool {
    forall|i: int, j: int|
        0 <= i < j < sessions.len() ==> (#[trigger] sessions[i]).native_id != (#[trigger] sessions[j]).native_id
}

/// However often the scans found a session, it is adopted once.
pub proof fn law_scans_are_merged_by_identifier(sessions: Seq<NativeSessionView>, more: Seq<NativeSessionView>)
    requires
        ids_differ(sessions),
    ensures
        ids_differ(with_sessions(sessions, more)),
    decreases more.len(),
{
    if more.len() > 0 {
        law_scans_are_merged_by_identifier(sessions, more.drop_last());
        lemma_with_session_distinct(with_sessions(sessions, more.drop_last()), more.last());
    }
}

// ---------------------------------------------------------------------
// What a scan comes to
// ---------------------------------------------------------------------

/// Each provider goes by its own name, in storage and as it is shown.
pub proof fn law_providers_go_by_their_names(p: NativeProvider, q: NativeProvider)
    ensures
        p is Codex ==> provider_key(p) == "codex"@ && provider_title(p) == "Codex"@,
        p is Qoder ==> provider_key(p) == "qoder"@ && provider_title(p) == "Qoder"@,
        provider_key(p) == provider_key(q) <==> p == q,
        provider_title(p) == provider_title(q) <==> p == q,
{
    reveal_strlit("codex");
    reveal_strlit("qoder");
    assert("codex"@[0] != "qoder"@[0]);
    reveal_strlit("Codex");
    reveal_strlit("Qoder");
    assert("Codex"@[0] != "Qoder"@[0]);
}

/// A request that names no provider asks for all of them; one that names some asks for
/// those, in whatever case of ASCII letters, and for no other.
pub proof fn law_a_request_asks_for_what_it_names(providers: Seq<Seq<char>>, provider: NativeProvider)
    ensures
        providers.len() == 0 ==> asks_for(providers, provider_key(provider)),
        (exists|i: int|
            0 <= i < providers.len() && ascii_lowered(#[trigger] providers[i]) == if provider is Codex {
                "codex"@
            } else {
                "qoder"@
            }) ==> asks_for(providers, provider_key(provider)),
        providers.len() > 0 && (forall|i: int|
            0 <= i < providers.len() ==> ascii_lowered(#[trigger] providers[i]) != if provider is Codex {
                "codex"@
            } else {
                "qoder"@
            }) ==> !asks_for(providers, provider_key(provider)),
{
}

/// The limit that is asked for holds where it lies between 1 and 10000; without one it is
/// 2000.
pub proof fn law_the_session_limit_is_the_one_asked_for(n: usize)
    ensures
        session_limit_of(None) == 2000,
        1 <= n <= 10000 ==> session_limit_of(Some(n)) == n,
        n > 10000 ==> session_limit_of(Some(n)) == 10000,
        n == 0 ==> session_limit_of(Some(n)) == 1,
{
}

/// Sessions are put in order of their time, the newest first, and none is lost or added.
pub proof fn law_the_newest_come_first(sessions: Seq<NativeSessionView>)
    ensures
        newest_first(sessions).len() == sessions.len(),
        forall|i: int, j: int|
            0 <= i < j < sessions.len() ==> (#[trigger] newest_first(sessions)[i]).updated_at >= (
            #[trigger] newest_first(sessions)[j]).updated_at,
        forall|i: int| 0 <= i < sessions.len() ==> sessions.contains(#[trigger] newest_first(sessions)[i]),
        forall|i: int| 0 <= i < sessions.len() ==> newest_first(sessions).contains(#[trigger] sessions[i]),
{
    let keys = times(sessions);
    let order = desc_order(keys);
    law_desc_order_is_stable(keys);
    let all = newest_first(sessions);
    assert forall|i: int, j: int| 0 <= i < j < sessions.len() implies (#[trigger] all[i]).updated_at >= (
    #[trigger] all[j]).updated_at by {
        assert(all[i] == sessions[order[i]]);
        assert(all[j] == sessions[order[j]]);
        assert(keys[order[i]] >= keys[order[j]]);
    }
    assert forall|i: int| 0 <= i < sessions.len() implies sessions.contains(#[trigger] all[i]) by {
        assert(all[i] == sessions[order[i]]);
    }
    assert forall|i: int| 0 <= i < sessions.len() implies all.contains(#[trigger] sessions[i]) by {
        lemma_order_is_onto(keys, i);
        let p = choose|p: int| 0 <= p < order.len() && #[trigger] order[p] == i;
        assert(all[p] == sessions[i]);
    }
}

proof fn lemma_merged_last(sessions: Seq<NativeSessionView>, more: Seq<NativeSessionView>, k: int)
    requires
        0 <= k < more.len(),
        forall|j: int| k < j < more.len() ==> (#[trigger] more[j]).native_id != more[k].native_id,
    ensures
        with_sessions(sessions, more).contains(more[k]),
    decreases more.len(),
{
    let init = more.drop_last();
    let s = more.last();
    let before = with_sessions(sessions, init);
    let after = with_sessions(sessions, more);
    if k == more.len() - 1 {
        if has_id(before, s.native_id) {
            let i = choose|i: int| 0 <= i < before.len() && (#[trigger] before[i]).native_id == s.native_id;
            assert(after[i] == s);
        } else {
            assert(after[before.len() as int] == s);
        }
    } else {
        assert forall|j: int| k < j < init.len() implies (#[trigger] init[j]).native_id != init[k].native_id by {
            assert(more[j].native_id != more[k].native_id);
        }
        assert(more[more.len() - 1].native_id != more[k].native_id);
        lemma_merged_last(sessions, init, k);
        let i = before.index_of(init[k]);
        assert(after[i] == more[k]);
    }
}

proof fn lemma_merged_kept(sessions: Seq<NativeSessionView>, more: Seq<NativeSessionView>, x: NativeSessionView)
    requires
        sessions.contains(x),
        forall|j: int| 0 <= j < more.len() ==> (#[trigger] more[j]).native_id != x.native_id,
    ensures
        with_sessions(sessions, more).contains(x),
    decreases more.len(),
{
    if more.len() > 0 {
        let init = more.drop_last();
        assert forall|j: int| 0 <= j < init.len() implies (#[trigger] init[j]).native_id != x.native_id by {
            assert(more[j].native_id != x.native_id);
        }
        assert(more[more.len() - 1].native_id != x.native_id);
        lemma_merged_kept(sessions, init, x);
        let i = with_sessions(sessions, init).index_of(x);
        assert(with_sessions(sessions, more)[i] == x);
    }
}

proof fn lemma_merged_from(sessions: Seq<NativeSessionView>, more: Seq<NativeSessionView>, x: NativeSessionView)
    requires
        with_sessions(sessions, more).contains(x),
    ensures
        more.contains(x) || (sessions.contains(x) && forall|j: int|
            0 <= j < more.len() ==> (#[trigger] more[j]).native_id != x.native_id),
    decreases more.len(),
{
    if more.len() > 0 {
        let init = more.drop_last();
        let s = more.last();
        let before = with_sessions(sessions, init);
        let after = with_sessions(sessions, more);
        if x == s {
            assert(more[more.len() - 1] == x);
        } else {
            let i = after.index_of(x);
            assert(before[i] == x);
            assert(x.native_id != s.native_id) by {
                if x.native_id == s.native_id {
                    assert(has_id(before, s.native_id));
                }
            }
            lemma_merged_from(sessions, init, x);
            if init.contains(x) {
                let k = init.index_of(x);
                assert(more[k] == x);
            } else {
                assert forall|j: int| 0 <= j < more.len() implies (#[trigger] more[j]).native_id != x.native_id by {
                    if j < init.len() {
                        assert(init[j].native_id != x.native_id);
                    }
                }
            }
        }
    }
}

/// What the provider itself says of a session takes the place of what its files say: the
/// last word on each identifier counts.
pub proof fn law_the_provider_knows_best(files: Seq<NativeSessionView>, app_server: Seq<NativeSessionView>, k: int)
    requires
        0 <= k < app_server.len(),
        forall|j: int| k < j < app_server.len() ==> (#[trigger] app_server[j]).native_id != app_server[k].native_id,
    ensures
        with_sessions(with_sessions(Seq::empty(), files), app_server).contains(app_server[k]),
{
    lemma_merged_last(with_sessions(Seq::empty(), files), app_server, k);
}

/// What only the files of a provider know is kept.
pub proof fn law_what_only_files_know_is_kept(
    files: Seq<NativeSessionView>,
    app_server: Seq<NativeSessionView>,
    k: int,
)
    requires
        0 <= k < files.len(),
        forall|j: int| k < j < files.len() ==> (#[trigger] files[j]).native_id != files[k].native_id,
        forall|j: int| 0 <= j < app_server.len() ==> (#[trigger] app_server[j]).native_id != files[k].native_id,
    ensures
        with_sessions(with_sessions(Seq::empty(), files), app_server).contains(files[k]),
{
    lemma_merged_last(Seq::empty(), files, k);
    lemma_merged_kept(with_sessions(Seq::empty(), files), app_server, files[k]);
}

/// Nothing is adopted that neither scan found, and nothing of the files that the provider
/// itself says otherwise of.
pub proof fn law_nothing_is_adopted_unfound(
    files: Seq<NativeSessionView>,
    app_server: Seq<NativeSessionView>,
    x: NativeSessionView,
)
    requires
        with_sessions(with_sessions(Seq::empty(), files), app_server).contains(x),
    ensures
        app_server.contains(x) || (files.contains(x) && forall|j: int|
            0 <= j < app_server.len() ==> (#[trigger] app_server[j]).native_id != x.native_id),
{
    let first = with_sessions(Seq::empty(), files);
    lemma_merged_from(first, app_server, x);
    if first.contains(x) {
        lemma_merged_from(Seq::empty(), files, x);
    }
}

/// A scan that found something succeeds, whatever else went wrong; one that found nothing
/// fails if anything went wrong. What it gives is the newest of all that was found, no more
/// than the limit.
pub proof fn law_a_scan_fails_only_without_a_session(
    files: Result<Vec<NativeSession>, String>,
    app_server: Result<Vec<NativeSession>, String>,
    limit: usize,
)
    ensures
        files is Ok && app_server is Ok ==> codex_found(files, app_server, limit) is Ok,
        files matches Ok(v) && v@.len() > 0 ==> codex_found(files, app_server, limit) is Ok,
        app_server matches Ok(v) && v@.len() > 0 ==> codex_found(files, app_server, limit) is Ok,
        files is Err && app_server is Err ==> codex_found(files, app_server, limit) == Err::<
            Seq<NativeSessionView>,
            Seq<char>,
        >(files->Err_0@ + "; "@ + app_server->Err_0@),
        codex_found(files, app_server, limit) matches Ok(found) ==> {
            &&& found.len() <= limit
            &&& forall|i: int, j: int|
                0 <= i < j < found.len() ==> (#[trigger] found[i]).updated_at >= (#[trigger] found[j]).updated_at
            &&& forall|i: int|
                0 <= i < found.len() ==> found_in(files).contains(#[trigger] found[i]) || found_in(
                    app_server,
                ).contains(found[i])
        },
{
    let first = with_sessions(Seq::empty(), found_in(files));
    let merged = with_sessions(first, found_in(app_server));
    law_the_newest_come_first(merged);
    if found_in(app_server).len() > 0 {
        lemma_merged_last(first, found_in(app_server), found_in(app_server).len() - 1);
        assert(merged.len() > 0);
    } else if found_in(files).len() > 0 {
        lemma_merged_last(Seq::empty(), found_in(files), found_in(files).len() - 1);
        assert(merged == first);
        assert(merged.len() > 0);
    }
    if files is Err && app_server is Err {
        let errors = failure_in(files) + failure_in(app_server);
        assert(errors =~= seq![files->Err_0@, app_server->Err_0@]);
        assert(errors.drop_last() =~= seq![files->Err_0@]);
        assert(seq![files->Err_0@].drop_last() =~= Seq::empty());
        assert(errors.drop_first() =~= seq![app_server->Err_0@]);
        assert(seq![app_server->Err_0@].drop_first() =~= Seq::empty());
        reveal_with_fuel(joined, 3);
        assert(joined(errors, "; "@) =~= files->Err_0@ + "; "@ + app_server->Err_0@);
    }
    if let Ok(found) = codex_found(files, app_server, limit) {
        let all = newest_first(merged);
        assert forall|i: int| 0 <= i < found.len() implies found_in(files).contains(#[trigger] found[i]) || found_in(
            app_server,
        ).contains(found[i]) by {
            assert(found[i] == all[i]);
            assert(merged.contains(all[i]));
            law_nothing_is_adopted_unfound(found_in(files), found_in(app_server), all[i]);
        }
    }
}

/// A session in a provider's worktree that lost its repository goes to the repository that is
/// checked out under the same name, if there is one and all that are found under that name
/// agree with the first; where they do not, or there is none, it stays where it is.
pub proof fn law_orphans_come_home(sessions: Seq<NativeSessionView>, i: int, name: Seq<char>, k: int)
    requires
        0 <= i < sessions.len(),
        has_prefix(sessions[i].project_key, "path:"@),
        has_text(sessions[i].cwd, "/.codex/worktrees/"@) || has_text(sessions[i].cwd, "/.qoder/worktrees/"@),
        file_name_of(sessions[i].cwd) == Some(name),
        0 <= k < sessions.len(),
        has_prefix(sessions[k].project_key, "git:"@),
        file_name_of(sessions[k].project_root) == Some(name),
        forall|j: int|
            0 <= j < k ==> !has_prefix((#[trigger] sessions[j]).project_key, "git:"@) || file_name_of(
                sessions[j].project_root,
            ) != Some(name),
    ensures
        (forall|j: int|
            0 <= j < sessions.len() && has_prefix((#[trigger] sessions[j]).project_key, "git:"@) && file_name_of(
                sessions[j].project_root,
            ) == Some(name) && j != k ==> sessions[j].project_key == sessions[k].project_key && are_same(
                sessions[k].project_root,
                sessions[j].project_root,
            )) ==> all_rejoined(sessions)[i].project_key == sessions[k].project_key && all_rejoined(
            sessions,
        )[i].project_root == sessions[k].project_root,
        (exists|j: int|
            0 <= j < sessions.len() && has_prefix((#[trigger] sessions[j]).project_key, "git:"@) && file_name_of(
                sessions[j].project_root,
            ) == Some(name) && j != k && (sessions[j].project_key != sessions[k].project_key || !are_same(
                sessions[k].project_root,
                sessions[j].project_root,
            ))) ==> all_rejoined(sessions)[i] == sessions[i],
{
    lemma_first_checkout(sessions, name, k);
}

proof fn lemma_first_checkout(sessions: Seq<NativeSessionView>, name: Seq<char>, k: int)
    requires
        0 <= k < sessions.len(),
        is_checkout(sessions[k], name),
        forall|j: int| 0 <= j < k ==> !is_checkout(#[trigger] sessions[j], name),
    ensures
        (forall|j: int|
            0 <= j < sessions.len() && is_checkout(#[trigger] sessions[j], name) && j != k ==> sessions[j].project_key
                == sessions[k].project_key && are_same(sessions[k].project_root, sessions[j].project_root))
            ==> repo_state(sessions, name) == RepoState::One(sessions[k].project_key, sessions[k].project_root),
        (exists|j: int|
            0 <= j < sessions.len() && is_checkout(#[trigger] sessions[j], name) && j != k && (
            sessions[j].project_key != sessions[k].project_key || !are_same(
                sessions[k].project_root,
                sessions[j].project_root,
            ))) ==> repo_state(sessions, name) is Many,
    decreases sessions.len(),
{
    let init = sessions.drop_last();
    assert(forall|j: int| 0 <= j < init.len() ==> #[trigger] init[j] == sessions[j]);
    assert(sessions[sessions.len() - 1] == sessions.last());
    if k == sessions.len() - 1 {
        assert forall|j: int| 0 <= j < init.len() implies !is_checkout(#[trigger] init[j], name) by {
            assert(!is_checkout(sessions[j], name));
        }
        lemma_no_checkout(init, name);
    } else {
        lemma_first_checkout(init, name, k);
        if exists|j: int|
            0 <= j < sessions.len() && is_checkout(#[trigger] sessions[j], name) && j != k && (
            sessions[j].project_key != sessions[k].project_key || !are_same(
                sessions[k].project_root,
                sessions[j].project_root,
            )) {
            let j = choose|j: int|
                0 <= j < sessions.len() && is_checkout(#[trigger] sessions[j], name) && j != k && (
                sessions[j].project_key != sessions[k].project_key || !are_same(
                    sessions[k].project_root,
                    sessions[j].project_root,
                ));
            if j < init.len() {
                assert(init[j] == sessions[j]);
            } else {
                if forall|i: int|
                    0 <= i < init.len() && is_checkout(#[trigger] init[i], name) && i != k ==> init[i].project_key
                        == init[k].project_key && are_same(init[k].project_root, init[i].project_root) {
                } else {
                    assert(repo_state(init, name) is Many);
                }
            }
        }
    }
}

proof fn lemma_no_checkout(sessions: Seq<NativeSessionView>, name: Seq<char>)
    requires
        forall|j: int| 0 <= j < sessions.len() ==> !is_checkout(#[trigger] sessions[j], name),
    ensures
        repo_state(sessions, name) is Unknown,
    decreases sessions.len(),
{
    if sessions.len() > 0 {
        let init = sessions.drop_last();
        assert(!is_checkout(sessions[sessions.len() - 1], name));
        assert forall|j: int| 0 <= j < init.len() implies !is_checkout(#[trigger] init[j], name) by {
            assert(init[j] == sessions[j]);
        }
        lemma_no_checkout(init, name);
    }
}

/// Whatever is no worktree of a provider's, or has a repository of its own, stays where it
/// is, and so does one whose name no repository is checked out under.
pub proof fn law_the_others_stay(sessions: Seq<NativeSessionView>, i: int)
    requires
        0 <= i < sessions.len(),
    ensures
        !has_prefix(sessions[i].project_key, "path:"@) ==> all_rejoined(sessions)[i] == sessions[i],
        !has_text(sessions[i].cwd, "/.codex/worktrees/"@) && !has_text(sessions[i].cwd, "/.qoder/worktrees/"@)
            ==> all_rejoined(sessions)[i] == sessions[i],
        file_name_of(sessions[i].cwd) matches Some(name) ==> ((forall|j: int|
            0 <= j < sessions.len() ==> !has_prefix((#[trigger] sessions[j]).project_key, "git:"@) || file_name_of(
                sessions[j].project_root,
            ) != Some(name)) ==> all_rejoined(sessions)[i] == sessions[i]),
{
    if let Some(name) = file_name_of(sessions[i].cwd) {
        if forall|j: int|
            0 <= j < sessions.len() ==> !has_prefix((#[trigger] sessions[j]).project_key, "git:"@) || file_name_of(
                sessions[j].project_root,
            ) != Some(name) {
            lemma_no_checkout(sessions, name);
        }
    }
}

} // verus!
