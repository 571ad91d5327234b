//! The sessions that the other provider keeps, and the workspaces they belong to.
use vstd::prelude::*;
use crate::candidates::at_most;
use crate::history::{NativeProvider, NativeSession, NativeSessionView};
use crate::order::{as_ints, desc_order, law_desc_order_is_stable, order_desc, ranked};
use crate::paths::{below, extension, extension_of, file_stem, file_stem_of, join_path};
use crate::text::{as_text, chars_of, has_prefix, occurs, occurs_at, opt_view, same_opt, shortened, truncate, views};
use crate::titles::{is_uuid, looks_like_uuid, short_id, short_of, QoderTitles};

verus! {

/// A file that holds a session.
#[derive(Debug, Clone)]
pub struct QoderSessionFile {
    pub id: String,
    pub path: String,
    pub updated_at: i64,
}

/// The model of [`QoderSessionFile`].
#[verifier::ext_equal]
pub struct QoderSessionFileView {
    pub id: Seq<char>,
    pub path: Seq<char>,
    pub updated_at: i64,
}

impl View for QoderSessionFile {
    type V = QoderSessionFileView;

    open spec fn view(&self) -> QoderSessionFileView {
        QoderSessionFileView {
            id: self.id@,
            path: self.path@,
            updated_at: self.updated_at,
        }
    }
}

impl QoderSessionFile {
    /// A copy with the same content.
    pub fn copy(&self) -> (r: QoderSessionFile)
        ensures
            r@ == self@,
    {
        QoderSessionFile {
            id: self.id.clone(),
            path: self.path.clone(),
            updated_at: self.updated_at,
        }
    }
}

/// A workspace with the files of its sessions.
#[derive(Debug, Clone)]
pub struct QoderProjectCandidate {
    pub workspace: String,
    pub sessions: Vec<QoderSessionFile>,
}

/// The model of [`QoderProjectCandidate`].
#[verifier::ext_equal]
pub struct QoderProjectCandidateView {
    pub workspace: Seq<char>,
    pub sessions: Seq<QoderSessionFileView>,
}

impl View for QoderProjectCandidate {
    type V = QoderProjectCandidateView;

    open spec fn view(&self) -> QoderProjectCandidateView {
        QoderProjectCandidateView {
            workspace: self.workspace@,
            sessions: views(self.sessions@),
        }
    }
}

/// A directory that is still to be looked into: `remaining` of the encoded path is left, `depth` directories were passed.
#[derive(Debug, Clone)]
pub struct SearchFrame {
    pub path: String,
    pub remaining: String,
    pub depth: usize,
}

/// The model of [`SearchFrame`].
#[verifier::ext_equal]
pub struct SearchFrameView {
    pub path: Seq<char>,
    pub remaining: Seq<char>,
    pub depth: usize,
}

impl View for SearchFrame {
    type V = SearchFrameView;

    open spec fn view(&self) -> SearchFrameView {
        SearchFrameView {
            path: self.path@,
            remaining: self.remaining@,
            depth: self.depth,
        }
    }
}

/// The session of a file: none unless it is a list of lines whose name is an identifier.
pub open spec fn session_file_of(path: Seq<char>, updated_at: i64) -> Option<QoderSessionFileView> {
    match file_stem_of(path) {
        Some(id) => if extension_of(path) == Some("jsonl"@) && is_uuid(id) {
            Some(QoderSessionFileView { id, path, updated_at })
        } else {
            None
        },
        None => None,
    }
}

/// Decides whether a file holds a session.
pub fn session_file(path: &str, updated_at: i64) -> (r: Option<QoderSessionFile>)
    ensures
        opt_view(r) == session_file_of(path@, updated_at),
{
    let ending = extension(path);
    if !same_opt(as_text(&ending), Some("jsonl")) {
        return None;
    }
    match file_stem(path) {
        Some(id) => {
            if looks_like_uuid(id.as_str()) {
                Some(QoderSessionFile { id, path: path.to_owned(), updated_at })
            } else {
                None
            }
        },
        None => None,
    }
}

// ---------------------------------------------------------------------
// Which sessions are adopted
// ---------------------------------------------------------------------

/// When the files were last changed.
pub open spec fn file_times(files: Seq<QoderSessionFileView>) -> Seq<i64> {
    Seq::new(files.len(), |i: int| files[i].updated_at)
}

/// The time of the last change to any of the files, 0 where there are none.
pub open spec fn last_change(files: Seq<QoderSessionFileView>) -> i64
    decreases files.len(),
{
    if files.len() == 0 {
        0
    } else if files.len() == 1 {
        files[0].updated_at
    } else {
        let before = last_change(files.drop_last());
        if files.last().updated_at > before {
            files.last().updated_at
        } else {
            before
        }
    }
}

/// When the candidates last changed.
pub open spec fn candidate_times(candidates: Seq<QoderProjectCandidateView>) -> Seq<i64> {
    Seq::new(candidates.len(), |i: int| last_change(candidates[i].sessions))
}

/// The candidate with its `n` newest sessions.
pub open spec fn cut_to(c: QoderProjectCandidateView, n: int) -> QoderProjectCandidateView {
    QoderProjectCandidateView {
        workspace: c.workspace,
        sessions: at_most(ranked(c.sessions, file_times(c.sessions)), n),
    }
}

/// As many sessions as there is room for, candidate by candidate.
pub open spec fn filled_up(candidates: Seq<QoderProjectCandidateView>, room: int) -> Seq<QoderProjectCandidateView>
    decreases candidates.len(),
{
    if candidates.len() == 0 || room <= 0 {
        Seq::empty()
    } else {
        let c = cut_to(candidates[0], room);
        seq![c] + filled_up(candidates.drop_first(), room - c.sessions.len())
    }
}

/// The candidates that are adopted: the one that changed last first, each with its newest
/// sessions, until there are `limit` sessions in all.
pub open spec fn selected(candidates: Seq<QoderProjectCandidateView>, limit: int) -> Seq<QoderProjectCandidateView> {
    filled_up(ranked(candidates, candidate_times(candidates)), limit)
}

fn find_last_change(files: &Vec<QoderSessionFile>) -> (r: i64)
    ensures
        r == last_change(views(files@)),
{
    let ghost all = views(files@);
    if files.len() == 0 {
        return 0;
    }
    let mut best: i64 = files[0].updated_at;
    let mut i: usize = 1;
    assert(all.take(1)[0] == all[0]);
    while i < files.len()
        invariant
            1 <= i <= files@.len(),
            all == views(files@),
            best == last_change(all.take(i as int)),
        decreases files@.len() - i,
    {
        proof {
            assert(all.take(i + 1).drop_last() =~= all.take(i as int));
            assert(all.take(i + 1).last() == files@[i as int]@);
        }
        if files[i].updated_at > best {
            best = files[i].updated_at;
        }
        i += 1;
    }
    assert(all.take(i as int) =~= all);
    best
}

fn newest_files(files: &Vec<QoderSessionFile>, limit: usize) -> (r: Vec<QoderSessionFile>)
    ensures
        views(r@) == at_most(ranked(views(files@), file_times(views(files@))), limit as int),
{
    let mut keys: Vec<i64> = Vec::new();
    let mut i: usize = 0;
    while i < files.len()
        invariant
            i <= files@.len(),
            keys@ == file_times(views(files@)).take(i as int),
        decreases files@.len() - i,
    {
        keys.push(files[i].updated_at);
        i += 1;
        assert(keys@ =~= file_times(views(files@)).take(i as int));
    }
    assert(keys@ =~= file_times(views(files@)));
    let order = order_desc(&keys);
    let n: usize = if order.len() > limit {
        limit
    } else {
        order.len()
    };
    let ghost all = ranked(views(files@), keys@);
    let mut r: Vec<QoderSessionFile> = Vec::new();
    let mut k: usize = 0;
    while k < n
        invariant
            k <= n <= order@.len(),
            as_ints(order@) == desc_order(keys@),
            order@.len() == keys@.len() == files@.len(),
            forall|j: int| 0 <= j < order@.len() ==> #[trigger] order@[j] < keys@.len(),
            all == ranked(views(files@), keys@),
            views(r@) == all.take(k as int),
        decreases n - k,
    {
        let ghost before = views(r@);
        assert(as_ints(order@)[k as int] == order@[k as int] as int);
        r.push(files[order[k]].copy());
        k += 1;
        assert(views(r@) =~= before.push(r@.last()@));
        assert(views(r@) =~= all.take(k as int));
    }
    assert(all.len() == order@.len());
    assert(all.take(all.len() as int) =~= all);
    r
}

/// Selects the sessions that are adopted.
pub fn scan_qoder(candidates: &Vec<QoderProjectCandidate>, limit: usize) -> (r: Vec<QoderProjectCandidate>)
    ensures
        views(r@) == selected(views(candidates@), limit as int),
{
    let ghost all = views(candidates@);
    let mut keys: Vec<i64> = Vec::new();
    let mut i: usize = 0;
    while i < candidates.len()
        invariant
            i <= candidates@.len(),
            all == views(candidates@),
            keys@ == candidate_times(all).take(i as int),
        decreases candidates@.len() - i,
    {
        keys.push(find_last_change(&candidates[i].sessions));
        i += 1;
        assert(keys@ =~= candidate_times(all).take(i as int));
    }
    assert(keys@ =~= candidate_times(all));
    let order = order_desc(&keys);
    let ghost ordered = ranked(all, keys@);
    let mut r: Vec<QoderProjectCandidate> = Vec::new();
    let mut room: usize = limit;
    let mut k: usize = 0;
    assert(ordered.skip(0) =~= ordered);
    assert(views(r@) + filled_up(ordered, limit as int) =~= filled_up(ordered, limit as int));
    while k < order.len() && room > 0
        invariant
            k <= order@.len(),
            all == views(candidates@),
            as_ints(order@) == desc_order(keys@),
            order@.len() == keys@.len() == candidates@.len(),
            forall|j: int| 0 <= j < order@.len() ==> #[trigger] order@[j] < keys@.len(),
            ordered == ranked(all, keys@),
            views(r@) + filled_up(ordered.skip(k as int), room as int) == filled_up(ordered, limit as int),
        decreases order@.len() - k,
    {
        let ghost before = views(r@);
        assert(as_ints(order@)[k as int] == order@[k as int] as int);
        let c = &candidates[order[k]];
        assert(ordered[k as int] == c@);
        let ghost rest = ordered.skip(k as int);
        assert(rest[0] == c@);
        let sessions = newest_files(&c.sessions, room);
        let taken: usize = sessions.len();
        assert(views(sessions@).len() == taken);
        let ghost kept = cut_to(c@, room as int);
        r.push(QoderProjectCandidate { workspace: c.workspace.clone(), sessions });
        proof {
            assert(views(r@) =~= before.push(kept));
            assert(rest.drop_first() =~= ordered.skip(k + 1));
            assert(before + (seq![kept] + filled_up(ordered.skip(k + 1), room - taken)) =~= before.push(kept)
                + filled_up(ordered.skip(k + 1), room - taken));
        }
        room -= taken;
        k += 1;
    }
    assert(filled_up(ordered.skip(k as int), room as int) =~= Seq::empty());
    assert(views(r@) + Seq::<QoderProjectCandidateView>::empty() =~= views(r@));
    r
}

/// How many sessions the candidates have together.
pub open spec fn total(candidates: Seq<QoderProjectCandidateView>) -> nat
    decreases candidates.len(),
{
    if candidates.len() == 0 {
        0
    } else {
        candidates[0].sessions.len() + total(candidates.drop_first())
    }
}

/// No more sessions are selected than the limit allows.
pub proof fn law_selection_keeps_the_limit(candidates: Seq<QoderProjectCandidateView>, room: int)
    requires
        room >= 0,
    ensures
        total(filled_up(candidates, room)) <= room,
    decreases candidates.len(),
{
    if candidates.len() > 0 && room > 0 {
        let c = cut_to(candidates[0], room);
        law_selection_keeps_the_limit(candidates.drop_first(), room - c.sessions.len());
        let rest = filled_up(candidates.drop_first(), room - c.sessions.len());
        assert((seq![c] + rest).drop_first() =~= rest);
    }
}

/// The title of a session: the one that the provider lists, else a short form of its
/// identifier.
pub open spec fn listed_title(titles: Map<Seq<char>, Seq<char>>, id: Seq<char>) -> Seq<char> {
    if titles.contains_key(id) {
        titles[id]
    } else {
        "Qoder "@ + short_of(id)
    }
}

/// The session of a file in a workspace.
pub open spec fn qoder_session(
    workspace: Seq<char>,
    file: QoderSessionFileView,
    titles: Map<Seq<char>, Seq<char>>,
    project_key: Seq<char>,
    project_root: Seq<char>,
) -> NativeSessionView {
    NativeSessionView {
        provider: NativeProvider::Qoder,
        native_id: file.id,
        title: shortened(listed_title(titles, file.id), 160),
        preview: Some(listed_title(titles, file.id)),
        cwd: workspace,
        source_path: Some(file.path),
        updated_at: file.updated_at,
        created_at: file.updated_at,
        archived: false,
        project_key,
        project_root,
    }
}

/// Makes the sessions of a workspace.
pub fn scan_qoder_project(
    candidate: &QoderProjectCandidate,
    titles: &QoderTitles,
    project_key: &str,
    project_root: &str,
) -> (r: Vec<NativeSession>)
    ensures
        views(r@) == Seq::new(
            candidate@.sessions.len(),
            |i: int|
                qoder_session(candidate@.workspace, candidate@.sessions[i], titles@, project_key@, project_root@),
        ),
{
    let mut out: Vec<NativeSession> = Vec::new();
    let mut i: usize = 0;
    while i < candidate.sessions.len()
        invariant
            i <= candidate.sessions@.len(),
            out@.len() == i,
            forall|k: int|
                0 <= k < i ==> #[trigger] out@[k]@ == qoder_session(
                    candidate@.workspace,
                    candidate@.sessions[k],
                    titles@,
                    project_key@,
                    project_root@,
                ),
        decreases candidate.sessions@.len() - i,
    {
        let file = &candidate.sessions[i];
        let title = match titles.get(file.id.as_str()) {
            Some(t) => t.clone(),
            None => {
                let mut t = "Qoder ".to_owned();
                t.append(short_id(file.id.as_str()));
                t
            },
        };
        out.push(
            NativeSession {
                provider: NativeProvider::Qoder,
                native_id: file.id.clone(),
                title: truncate(title.as_str(), 160),
                preview: Some(title),
                cwd: candidate.workspace.clone(),
                source_path: Some(file.path.clone()),
                updated_at: file.updated_at,
                created_at: file.updated_at,
                archived: false,
                project_key: project_key.to_owned(),
                project_root: project_root.to_owned(),
            },
        );
        i += 1;
    }
    assert(views(out@) =~= Seq::new(
        candidate@.sessions.len(),
        |i: int|
            qoder_session(candidate@.workspace, candidate@.sessions[i], titles@, project_key@, project_root@),
    ));
    out
}

// ---------------------------------------------------------------------
// The workspace that a name stands for
// ---------------------------------------------------------------------

/// A search for the directory that an encoded path stands for.
#[derive(Debug, Clone)]
pub struct WorkspaceSearch {
    pub frames: Vec<SearchFrame>,
}

/// What is to be done next in a search.
#[derive(Debug, Clone)]
pub enum SearchAction {
    /// This is the directory, if it is one; else search on.
    Check(String),
    /// Look into this directory.
    List(SearchFrame),
    /// There is no such directory.
    NotFound,
}

/// The model of [`SearchAction`].
#[verifier::ext_equal]
pub enum SearchActionView {
    Check(Seq<char>),
    List(SearchFrameView),
    NotFound,
}

impl View for SearchAction {
    type V = SearchActionView;

    open spec fn view(&self) -> SearchActionView {
        match *self {
            SearchAction::Check(p) => SearchActionView::Check(p@),
            SearchAction::List(f) => SearchActionView::List(f@),
            SearchAction::NotFound => SearchActionView::NotFound,
        }
    }
}

/// The next action of a search, and the frames that are left after it. Of the frames, the
/// last one is next.
pub open spec fn search_next(frames: Seq<SearchFrameView>) -> (Seq<SearchFrameView>, SearchActionView)
    decreases frames.len(),
{
    if frames.len() == 0 {
        (frames, SearchActionView::NotFound)
    } else {
        let f = frames.last();
        let rest = frames.drop_last();
        if f.remaining.len() == 0 {
            (rest, SearchActionView::Check(f.path))
        } else if f.depth > 24 || f.remaining[0] != '-' {
            search_next(rest)
        } else {
            (rest, SearchActionView::List(f))
        }
    }
}

/// Whether a directory of this name can be the next on the way: it comes next in what is
/// left, and ends there.
pub open spec fn leads_on(remaining: Seq<char>, name: Seq<char>) -> bool {
    let part = "-"@ + name;
    &&& name.len() > 0
    &&& has_prefix(remaining, part)
    &&& remaining.len() == part.len() || remaining[part.len() as int] == '-'
}

/// The frame of a directory below another.
pub open spec fn frame_below(f: SearchFrameView, name: Seq<char>) -> SearchFrameView {
    SearchFrameView {
        path: below(f.path, name),
        remaining: f.remaining.skip((name.len() + 1) as int),
        depth: (f.depth + 1) as usize,
    }
}

/// The frames of the directories that lead on, the first of them last.
pub open spec fn frames_reversed(f: SearchFrameView, names: Seq<Seq<char>>) -> Seq<SearchFrameView>
    decreases names.len(),
{
    if names.len() == 0 {
        Seq::empty()
    } else if leads_on(f.remaining, names[0]) {
        frames_reversed(f, names.drop_first()).push(frame_below(f, names[0]))
    } else {
        frames_reversed(f, names.drop_first())
    }
}

fn name_leads_on(remaining: &str, name: &str) -> (r: bool)
    ensures
        r == leads_on(remaining@, name@),
{
    let left = chars_of(remaining);
    let part = chars_of(name);
    proof {
        reveal_strlit("-");
        assert("-"@ =~= seq!['-']);
    }
    let n: usize = left.len();
    if part.len() == 0 || n == 0 || left[0] != '-' {
        proof {
            if has_prefix(remaining@, "-"@ + name@) {
                assert(remaining@.take((1 + name@.len()) as int)[0] == ("-"@ + name@)[0]);
            }
        }
        return false;
    }
    let fits = occurs(left.as_slice(), part.as_slice(), 1);
    proof {
        let whole = "-"@ + name@;
        if fits {
            assert(remaining@.take(whole.len() as int) =~= whole) by {
                assert forall|k: int| 0 <= k < whole.len() implies remaining@[k] == whole[k] by {
                    if k > 0 {
                        assert(remaining@.subrange(1, (1 + name@.len()) as int)[k - 1] == name@[k - 1]);
                    }
                }
            }
        } else if has_prefix(remaining@, whole) {
            assert(remaining@.subrange(1, (1 + name@.len()) as int) =~= name@) by {
                assert forall|k: int| 0 <= k < name@.len() implies remaining@.subrange(1, (1 + name@.len()) as int)[k]
                    == name@[k] by {
                    assert(remaining@.take(whole.len() as int)[k + 1] == whole[k + 1]);
                }
            }
            assert(occurs_at(remaining@, name@, 1));
        }
    }
    if !fits {
        return false;
    }
    n == 1 + part.len() || left[1 + part.len()] == '-'
}

impl WorkspaceSearch {
    /// Begins a search at the root.
    pub fn begin(encoded: &str) -> (r: WorkspaceSearch)
        ensures
            views(r.frames@) == seq![
                SearchFrameView { path: "/"@, remaining: encoded@, depth: 0 },
            ],
    {
        let mut frames: Vec<SearchFrame> = Vec::new();
        frames.push(SearchFrame { path: "/".to_owned(), remaining: encoded.to_owned(), depth: 0 });
        assert(views(frames@) =~= seq![SearchFrameView { path: "/"@, remaining: encoded@, depth: 0 }]);
        WorkspaceSearch { frames }
    }

    /// What is to be done next.
    pub fn resolve_qoder_workspace(&mut self) -> (r: SearchAction)
        ensures
            (views(final(self).frames@), r@) == search_next(views(old(self).frames@)),
    {
        let ghost start = views(self.frames@);
        loop
            invariant
                search_next(start) == search_next(views(self.frames@)),
                start == views(old(self).frames@),
            decreases self.frames@.len(),
        {
            let ghost before = views(self.frames@);
            let frame = match self.frames.pop() {
                Some(f) => f,
                None => {
                    assert(views(self.frames@) =~= before);
                    return SearchAction::NotFound;
                },
            };
            assert(views(self.frames@) =~= before.drop_last());
            assert(before.last() == frame@);
            if frame.remaining.as_str().is_empty() {
                return SearchAction::Check(frame.path);
            }
            let first: char = frame.remaining.as_str().get_char(0);
            if frame.depth <= 24 && first == '-' {
                return SearchAction::List(frame);
            }
        }
    }

    /// Takes in the names of the directories in a directory that was to be looked into.
    pub fn listed(&mut self, frame: &SearchFrame, names: &Vec<String>)
        requires
            frame.depth < usize::MAX,
        ensures
            views(final(self).frames@) == views(old(self).frames@) + frames_reversed(frame@, views(names@)),
    {
        let ghost start = views(self.frames@);
        let ghost all = views(names@);
        let mut i: usize = names.len();
        assert(all.skip(i as int) =~= Seq::empty());
        assert(start + frames_reversed(frame@, all.skip(i as int)) =~= start);
        while 0 < i
            invariant
                i <= names@.len(),
                all == views(names@),
                frame.depth < usize::MAX,
                views(self.frames@) == start + frames_reversed(frame@, all.skip(i as int)),
            decreases i,
        {
            i -= 1;
            let ghost before = views(self.frames@);
            assert(all.skip(i as int).drop_first() =~= all.skip(i + 1));
            assert(all.skip(i as int)[0] == names@[i as int]@);
            let name = names[i].as_str();
            if name_leads_on(frame.remaining.as_str(), name) {
                proof {
                    reveal_strlit("-");
                }
                let n: usize = frame.remaining.as_str().unicode_len();
                let k: usize = name.unicode_len();
                let rest = frame.remaining.as_str().substring_char(k + 1, n);
                assert(rest@ =~= frame@.remaining.skip(k + 1));
                self.frames.push(
                    SearchFrame {
                        path: join_path(frame.path.as_str(), name),
                        remaining: rest.to_owned(),
                        depth: frame.depth + 1,
                    },
                );
                assert(views(self.frames@) =~= before.push(frame_below(frame@, name@)));
                assert(before.push(frame_below(frame@, name@)) =~= start + frames_reversed(
                    frame@,
                    all.skip(i + 1),
                ).push(frame_below(frame@, name@)));
            }
        }
        assert(all.skip(0) =~= all);
    }
}

/// A path with a hyphen in the place of each slash; the root has none.
pub open spec fn encoding(path: Seq<char>) -> Seq<char> {
    if path == seq!['/'] {
        Seq::empty()
    } else {
        Seq::new(
            path.len(),
            |i: int|
                if path[i] == '/' {
                    '-'
                } else {
                    path[i]
                },
        )
    }
}

/// Whether a frame is on the way to a directory that the encoded path stands for.
pub open spec fn is_on_the_way(f: SearchFrameView, encoded: Seq<char>) -> bool {
    &&& encoding(f.path) + f.remaining == encoded
    &&& f.path.len() > 0
    &&& f.path == seq!['/'] || f.path.last() != '/'
}

/// Whether all the frames are on the way.
pub open spec fn all_on_the_way(frames: Seq<SearchFrameView>, encoded: Seq<char>) -> bool {
    forall|i: int| 0 <= i < frames.len() ==> is_on_the_way(#[trigger] frames[i], encoded)
}

proof fn lemma_frame_below(f: SearchFrameView, name: Seq<char>, encoded: Seq<char>)
    requires
        is_on_the_way(f, encoded),
        leads_on(f.remaining, name),
        !encoded.contains('/'),
    ensures
        is_on_the_way(frame_below(f, name), encoded),
{
    reveal_strlit("-");
    reveal_strlit("/");
    assert("-"@ =~= seq!['-']);
    assert("/"@ =~= seq!['/']);
    let part = "-"@ + name;
    let g = frame_below(f, name);
    let head = encoding(f.path);
    assert(f.remaining =~= part + f.remaining.skip(part.len() as int)) by {
        assert(f.remaining.take(part.len() as int) =~= part);
    }
    assert forall|k: int| 0 <= k < name.len() implies name[k] != '/' by {
        assert(part[k + 1] == name[k]);
        assert(f.remaining[k + 1] == part[k + 1]);
        assert(encoded[head.len() + k + 1] == f.remaining[k + 1]);
    }
    assert(g.path.last() == name.last());
    if f.path == seq!['/'] {
        assert(g.path =~= seq!['/'] + name);
        assert(encoding(g.path) =~= part);
        assert(encoding(g.path) + g.remaining =~= encoded);
    } else {
        assert(g.path =~= f.path + seq!['/'] + name);
        assert(encoding(g.path) =~= head + part);
        assert(encoding(g.path) + g.remaining =~= encoded);
    }
}

proof fn lemma_frames_reversed(f: SearchFrameView, names: Seq<Seq<char>>, encoded: Seq<char>)
    requires
        is_on_the_way(f, encoded),
        !encoded.contains('/'),
    ensures
        all_on_the_way(frames_reversed(f, names), encoded),
    decreases names.len(),
{
    if names.len() > 0 {
        lemma_frames_reversed(f, names.drop_first(), encoded);
        if leads_on(f.remaining, names[0]) {
            lemma_frame_below(f, names[0], encoded);
        }
    }
}

/// A search begins on the way to what it looks for.
pub proof fn law_search_begins_on_the_way(encoded: Seq<char>)
    ensures
        all_on_the_way(seq![SearchFrameView { path: "/"@, remaining: encoded, depth: 0 }], encoded),
{
    reveal_strlit("/");
    assert("/"@ =~= seq!['/']);
    assert(encoding("/"@) + encoded =~= encoded);
}

/// A search stays on the way, and what it proposes encodes to what it looks for: no hyphen is
/// ever taken for a slash that is not one. The encoded path itself holds no slash.
pub proof fn law_search_stays_on_the_way(
    frames: Seq<SearchFrameView>,
    names: Seq<Seq<char>>,
    encoded: Seq<char>,
)
    requires
        all_on_the_way(frames, encoded),
        !encoded.contains('/'),
    ensures
        all_on_the_way(search_next(frames).0, encoded),
        search_next(frames).1 matches SearchActionView::Check(path) ==> encoding(path) == encoded,
        search_next(frames).1 matches SearchActionView::List(f) ==> is_on_the_way(f, encoded) && all_on_the_way(
            search_next(frames).0 + frames_reversed(f, names),
            encoded,
        ),
    decreases frames.len(),
{
    if frames.len() > 0 {
        let f = frames.last();
        let rest = frames.drop_last();
        assert(is_on_the_way(frames[frames.len() - 1], encoded));
        assert forall|i: int| 0 <= i < rest.len() implies is_on_the_way(#[trigger] rest[i], encoded) by {
            assert(is_on_the_way(frames[i], encoded));
        }
        if f.remaining.len() == 0 {
            assert(encoding(f.path) + f.remaining =~= encoding(f.path));
        } else if f.depth > 24 || f.remaining[0] != '-' {
            law_search_stays_on_the_way(rest, names, encoded);
        } else {
            lemma_frames_reversed(f, names, encoded);
        }
    }
}

// ---------------------------------------------------------------------
// What is read
// ---------------------------------------------------------------------

/// A file holds a session if it is named by an identifier and ends in `.jsonl`; the session
/// has that identifier.
pub proof fn law_session_files_are_named_by_their_session(path: Seq<char>, updated_at: i64, id: Seq<char>)
    ensures
        file_stem_of(path) == Some(id) && extension_of(path) == Some("jsonl"@) && is_uuid(id) ==> session_file_of(
            path,
            updated_at,
        ) == Some(QoderSessionFileView { id, path, updated_at }),
        extension_of(path) != Some("jsonl"@) ==> session_file_of(path, updated_at) is None,
        file_stem_of(path) is None ==> session_file_of(path, updated_at) is None,
        file_stem_of(path) == Some(id) && !is_uuid(id) ==> session_file_of(path, updated_at) is None,
{
}

/// The last change of a project is that of its latest session.
pub proof fn law_a_project_is_as_new_as_its_newest_session(files: Seq<QoderSessionFileView>, k: int)
    requires
        0 <= k < files.len(),
    ensures
        last_change(files) >= files[k].updated_at,
        exists|i: int| 0 <= i < files.len() && (#[trigger] files[i]).updated_at == last_change(files),
    decreases files.len(),
{
    if files.len() > 1 {
        let init = files.drop_last();
        law_a_project_is_as_new_as_its_newest_session(
            init,
            if k < init.len() {
                k
            } else {
                0
            },
        );
        let i = choose|i: int| 0 <= i < init.len() && (#[trigger] init[i]).updated_at == last_change(init);
        assert(files[i] == init[i]);
        assert(files[files.len() - 1] == files.last());
        assert(k < init.len() ==> init[k] == files[k]);
    } else {
        assert(files[0].updated_at == last_change(files));
    }
}

/// A session goes by the title that is listed for it, and by the beginning of its identifier
/// where none is; it belongs to the workspace of its project.
pub proof fn law_a_session_goes_by_its_listed_title(
    workspace: Seq<char>,
    file: QoderSessionFileView,
    titles: Map<Seq<char>, Seq<char>>,
    project_key: Seq<char>,
    project_root: Seq<char>,
)
    ensures
        ({
            let s = qoder_session(workspace, file, titles, project_key, project_root);
            &&& s.provider is Qoder
            &&& s.native_id == file.id && s.source_path == Some(file.path) && s.cwd == workspace
            &&& s.updated_at == file.updated_at && s.created_at == file.updated_at && !s.archived
            &&& s.project_key == project_key && s.project_root == project_root
            &&& titles.contains_key(file.id) ==> s.title == shortened(titles[file.id], 160) && s.preview == Some(
                titles[file.id],
            )
            &&& !titles.contains_key(file.id) ==> s.title == shortened("Qoder "@ + short_of(file.id), 160)
        }),
{
}

/// Where there is room for all sessions all are selected: each project is there, the one that
/// changed last first, and each has its sessions, the newest first.
pub proof fn law_all_are_selected_where_there_is_room(candidates: Seq<QoderProjectCandidateView>, limit: int)
    requires
        total(ranked(candidates, candidate_times(candidates))) < limit,
    ensures
        selected(candidates, limit).len() == candidates.len(),
        forall|i: int, j: int|
            0 <= i < j < candidates.len() ==> last_change(
                ranked(candidates, candidate_times(candidates))[i].sessions,
            ) >= last_change(ranked(candidates, candidate_times(candidates))[j].sessions),
        forall|i: int|
            0 <= i < candidates.len() ==> {
                let project = ranked(candidates, candidate_times(candidates))[i];
                let chosen = #[trigger] selected(candidates, limit)[i];
                &&& chosen.workspace == project.workspace
                &&& chosen.sessions == ranked(project.sessions, file_times(project.sessions))
            },
{
    let keys = candidate_times(candidates);
    law_desc_order_is_stable(keys);
    let all = ranked(candidates, keys);
    let order = desc_order(keys);
    assert forall|i: int, j: int| 0 <= i < j < candidates.len() implies last_change(all[i].sessions) >= last_change(
        all[j].sessions,
    ) by {
        assert(all[i] == candidates[order[i]] && all[j] == candidates[order[j]]);
        assert(keys[order[i]] >= keys[order[j]]);
    }
    lemma_filled_with_room(all, limit);
}

proof fn lemma_filled_with_room(candidates: Seq<QoderProjectCandidateView>, room: int)
    requires
        total(candidates) < room,
    ensures
        filled_up(candidates, room).len() == candidates.len(),
        forall|i: int|
            0 <= i < candidates.len() ==> {
                &&& (#[trigger] filled_up(candidates, room)[i]).workspace == candidates[i].workspace
                &&& filled_up(candidates, room)[i].sessions == ranked(
                    candidates[i].sessions,
                    file_times(candidates[i].sessions),
                )
            },
    decreases candidates.len(),
{
    if candidates.len() > 0 {
        let first = candidates[0];
        law_desc_order_is_stable(file_times(first.sessions));
        let c = cut_to(first, room);
        assert(c.sessions.len() == first.sessions.len());
        let rest = candidates.drop_first();
        lemma_filled_with_room(rest, room - c.sessions.len());
        let all = filled_up(candidates, room);
        assert forall|i: int| 0 <= i < candidates.len() implies (#[trigger] all[i]).workspace
            == candidates[i].workspace && all[i].sessions == ranked(
            candidates[i].sessions,
            file_times(candidates[i].sessions),
        ) by {
            if i > 0 {
                assert(all[i] == filled_up(rest, room - c.sessions.len())[i - 1]);
                assert(rest[i - 1] == candidates[i]);
            }
        }
    }
}

/// Where there is less room it is filled to the limit, project by project, and of the project
/// that no longer fits the newest sessions are taken.
pub proof fn law_room_is_filled_from_the_front(candidates: Seq<QoderProjectCandidateView>, room: int)
    requires
        room > 0,
        candidates.len() > 0,
    ensures
        filled_up(candidates, room).len() > 0,
        filled_up(candidates, room)[0].workspace == candidates[0].workspace,
        candidates[0].sessions.len() <= room ==> filled_up(candidates, room)[0].sessions == ranked(
            candidates[0].sessions,
            file_times(candidates[0].sessions),
        ) && filled_up(candidates, room).drop_first() == filled_up(
            candidates.drop_first(),
            room - candidates[0].sessions.len(),
        ),
        candidates[0].sessions.len() > room ==> filled_up(candidates, room).len() == 1 && filled_up(
            candidates,
            room,
        )[0].sessions == ranked(candidates[0].sessions, file_times(candidates[0].sessions)).take(room),
{
    law_desc_order_is_stable(file_times(candidates[0].sessions));
    let c = cut_to(candidates[0], room);
    let rest = filled_up(candidates.drop_first(), room - c.sessions.len());
    assert((seq![c] + rest).drop_first() =~= rest);
}

/// A name leads on if it is what the rest of the encoded path begins with, after a hyphen and
/// up to the end or to the next hyphen; the search then goes on below it with what is left.
pub proof fn law_a_name_leads_on_by_a_whole_part(f: SearchFrameView, name: Seq<char>, left: Seq<char>)
    requires
        name.len() > 0,
        f.depth < usize::MAX,
    ensures
        f.remaining == seq!['-'] + name + left && (left.len() == 0 || left[0] == '-') ==> leads_on(f.remaining, name)
            && frame_below(f, name).remaining == left && frame_below(f, name).depth == f.depth + 1 && frame_below(
            f,
            name,
        ).path == below(f.path, name),
        f.remaining == seq!['-'] + name + left && left.len() > 0 && left[0] != '-' ==> !leads_on(f.remaining, name),
        f.remaining.len() == 0 || f.remaining[0] != '-' ==> !leads_on(f.remaining, name),
{
    reveal_strlit("-");
    assert("-"@ =~= seq!['-']);
    let part = "-"@ + name;
    if f.remaining == seq!['-'] + name + left {
        assert(f.remaining =~= part + left);
        assert(f.remaining.take(part.len() as int) =~= part);
        assert(f.remaining.skip((name.len() + 1) as int) =~= left);
    }
    if leads_on(f.remaining, name) {
        assert(f.remaining.take(part.len() as int)[0] == f.remaining[0]);
        assert(part[0] == '-');
    }
}

/// Names that lead on are looked into in the order in which they are listed, before what was
/// left to be looked into.
pub proof fn law_the_first_name_is_looked_into_first(f: SearchFrameView, names: Seq<Seq<char>>, k: int)
    requires
        0 <= k < names.len(),
        leads_on(f.remaining, names[k]),
        forall|i: int| 0 <= i < k ==> !leads_on(f.remaining, #[trigger] names[i]),
    ensures
        frames_reversed(f, names).len() > 0,
        frames_reversed(f, names).last() == frame_below(f, names[k]),
    decreases k,
{
    if k > 0 {
        let rest = names.drop_first();
        assert(!leads_on(f.remaining, names[0]));
        assert(rest[k - 1] == names[k]);
        assert forall|i: int| 0 <= i < k - 1 implies !leads_on(f.remaining, #[trigger] rest[i]) by {
            assert(rest[i] == names[i + 1]);
        }
        law_the_first_name_is_looked_into_first(f, rest, k - 1);
    }
}

/// The next place to look at is the last that was noted and is not too deep: it is checked
/// where nothing of the path is left, and listed otherwise. What leads nowhere is passed
/// over.
pub proof fn law_the_last_place_is_looked_at_next(frames: Seq<SearchFrameView>, f: SearchFrameView)
    ensures
        frames.len() == 0 ==> search_next(frames).1 is NotFound,
        f.remaining.len() == 0 ==> search_next(frames.push(f)) == (frames, SearchActionView::Check(f.path)),
        f.remaining.len() > 0 && f.remaining[0] == '-' && f.depth <= 24 ==> search_next(frames.push(f)) == (
            frames,
            SearchActionView::List(f),
        ),
        f.remaining.len() > 0 && (f.remaining[0] != '-' || f.depth > 24) ==> search_next(frames.push(f))
            == search_next(frames),
{
    assert(frames.push(f).drop_last() =~= frames);
}

} // verus!
