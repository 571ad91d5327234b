//! What one of the providers tells of its sessions, by itself and in its files.
use vstd::prelude::*;
use crate::candidates::at_most;
use crate::display::law_joined_holds_its_parts;
use crate::history::{newest, newest_first, NativeProvider, NativeSession, NativeSessionView};
use crate::json::{
    bool_field, field, i64_in, json_parsed, json_text, law_object_holds_its_entries, number_of, object_of, text_field,
    text_in, Json, JsonView,
};
use crate::order::{as_ints, desc_order, order_desc};
use crate::text::{
    as_text, blank, byte_prefix, copy_opt, first_bytes, has_prefix, has_text, is_blank, join, joined,
    lemma_trimmed_shape, lines_of, opt_view, replace, replaced, same_opt, shortened, strip_prefix, to_owned_opt,
    trimmed, truncate, views,
};
use crate::titles::{first_filled, first_nonempty_line, prompt_title, short_id, short_of, title_from_codex_prompt};

verus! {

// ---------------------------------------------------------------------
// Threads
// ---------------------------------------------------------------------

/// A thread as the provider lists it.
#[derive(Debug, Clone)]
pub struct CodexThread {
    pub id: String,
    pub name: Option<String>,
    pub preview: Option<String>,
    pub cwd: String,
    pub path: Option<String>,
    pub created_at: i64,
    pub updated_at: i64,
    pub ephemeral: bool,
    pub parent_thread_id: Option<String>,
}

/// The model of [`CodexThread`].
#[verifier::ext_equal]
pub struct CodexThreadView {
    pub id: Seq<char>,
    pub name: Option<Seq<char>>,
    pub preview: Option<Seq<char>>,
    pub cwd: Seq<char>,
    pub path: Option<Seq<char>>,
    pub created_at: i64,
    pub updated_at: i64,
    pub ephemeral: bool,
    pub parent_thread_id: Option<Seq<char>>,
}

impl View for CodexThread {
    type V = CodexThreadView;

    open spec fn view(&self) -> CodexThreadView {
        CodexThreadView {
            id: self.id@,
            name: opt_view(self.name),
            preview: opt_view(self.preview),
            cwd: self.cwd@,
            path: opt_view(self.path),
            created_at: self.created_at,
            updated_at: self.updated_at,
            ephemeral: self.ephemeral,
            parent_thread_id: opt_view(self.parent_thread_id),
        }
    }
}

/// Whether a thread can be adopted: it is not passing, has no parent and names a directory.
pub open spec fn is_eligible(t: CodexThreadView) -> bool {
    !t.ephemeral && t.parent_thread_id is None && !blank(t.cwd)
}

/// Whether a thread can be adopted.
pub fn thread_is_eligible(thread: &CodexThread) -> (r: bool)
    ensures
        r == is_eligible(thread@),
{
    !thread.ephemeral && thread.parent_thread_id.is_none() && !is_blank(thread.cwd.as_str())
}

/// The title of a thread: its name, else the first line of its preview, else a short form of
/// its identifier.
pub open spec fn thread_title(t: CodexThreadView) -> Seq<char> {
    let named = match t.name {
        Some(n) => if blank(n) {
            None
        } else {
            Some(n)
        },
        None => None,
    };
    let first = match named {
        Some(n) => Some(n),
        None => match t.preview {
            Some(p) => Some(first_filled(lines_of(p))),
            None => None,
        },
    };
    match first {
        Some(n) => if n.len() > 0 {
            n
        } else {
            "Codex "@ + short_of(t.id)
        },
        None => "Codex "@ + short_of(t.id),
    }
}

/// The time in milliseconds of a time in seconds, as far as it can be told.
pub open spec fn in_ms(seconds: i64) -> i64 {
    if seconds * 1000 > i64::MAX {
        i64::MAX
    } else if seconds * 1000 < i64::MIN {
        i64::MIN
    } else {
        (seconds * 1000) as i64
    }
}

/// The session of a thread in a project.
pub open spec fn thread_session(
    t: CodexThreadView,
    archived: bool,
    project_key: Seq<char>,
    project_root: Seq<char>,
) -> NativeSessionView {
    NativeSessionView {
        provider: NativeProvider::Codex,
        native_id: t.id,
        title: shortened(thread_title(t), 160),
        preview: t.preview,
        cwd: t.cwd,
        source_path: t.path,
        updated_at: in_ms(t.updated_at),
        created_at: in_ms(t.created_at),
        archived,
        project_key,
        project_root,
    }
}

fn to_ms(seconds: i64) -> (r: i64)
    ensures
        r == in_ms(seconds),
{
    if seconds > i64::MAX / 1000 {
        i64::MAX
    } else if seconds < -9223372036854775 {
        i64::MIN
    } else {
        seconds * 1000
    }
}

fn title_of_thread(thread: &CodexThread) -> (r: String)
    ensures
        r@ == thread_title(thread@),
{
    if let Some(n) = as_text(&thread.name) {
        if !is_blank(n) {
            proof {
                crate::text::lemma_trimmed_shape(n@);
            }
            return n.to_owned();
        }
    }
    if let Some(p) = as_text(&thread.preview) {
        let line = first_nonempty_line(p);
        if !line.as_str().is_empty() {
            return line;
        }
    }
    let mut title = "Codex ".to_owned();
    title.append(short_id(thread.id.as_str()));
    title
}

/// Makes a session of a thread.
pub fn codex_thread_session(
    thread: &CodexThread,
    archived: bool,
    project_key: &str,
    project_root: &str,
) -> (r: NativeSession)
    ensures
        r@ == thread_session(thread@, archived, project_key@, project_root@),
{
    let title = title_of_thread(thread);
    NativeSession {
        provider: NativeProvider::Codex,
        native_id: thread.id.clone(),
        title: truncate(title.as_str(), 160),
        preview: copy_opt(&thread.preview),
        cwd: thread.cwd.clone(),
        source_path: copy_opt(&thread.path),
        updated_at: to_ms(thread.updated_at),
        created_at: to_ms(thread.created_at),
        archived,
        project_key: project_key.to_owned(),
        project_root: project_root.to_owned(),
    }
}

// ---------------------------------------------------------------------
// Talking to the provider
// ---------------------------------------------------------------------

/// The request that begins a conversation with the provider.
pub fn initialize_request() -> (r: Json)
    ensures
        r@ == object_of(
            seq![
                ("jsonrpc"@, JsonView::Text("2.0"@)),
                ("id"@, JsonView::Number(number_of(1))),
                ("method"@, JsonView::Text("initialize"@)),
                (
                    "params"@,
                    object_of(
                        seq![
                            (
                                "clientInfo"@,
                                object_of(
                                    seq![
                                        ("name"@, JsonView::Text("AionUi local history"@)),
                                        ("version"@, JsonView::Text("1"@)),
                                    ],
                                ),
                            ),
                            ("capabilities"@, object_of(seq![("experimentalApi"@, JsonView::Bool(true))])),
                        ],
                    ),
                ),
            ],
        ),
{
    let client = Json::object2(
        "name",
        Json::text("AionUi local history"),
        "version",
        Json::text("1"),
    );
    let params = Json::object2(
        "clientInfo",
        client,
        "capabilities",
        Json::object1("experimentalApi", Json::Bool(true)),
    );
    Json::object4(
        "jsonrpc",
        Json::text("2.0"),
        "id",
        Json::from_i64(1),
        "method",
        Json::text("initialize"),
        "params",
        params,
    )
}

/// The notice that the conversation with the provider has begun.
pub fn initialized_notice() -> (r: Json)
    ensures
        r@ == object_of(
            seq![("jsonrpc"@, JsonView::Text("2.0"@)), ("method"@, JsonView::Text("initialized"@))],
        ),
{
    Json::object2("jsonrpc", Json::text("2.0"), "method", Json::text("initialized"))
}

/// What a page of threads is asked for with.
pub open spec fn page_params(archived: bool, cursor: Option<Seq<char>>) -> JsonView {
    let base = seq![("limit"@, JsonView::Number(number_of(100))), ("archived"@, JsonView::Bool(archived))];
    match cursor {
        Some(c) => object_of(base.push(("cursor"@, JsonView::Text(c)))),
        None => object_of(base),
    }
}

/// The request for a page of threads.
pub open spec fn page_request(request_id: i64, archived: bool, cursor: Option<Seq<char>>) -> JsonView {
    object_of(
        seq![
            ("jsonrpc"@, JsonView::Text("2.0"@)),
            ("id"@, JsonView::Number(number_of(request_id as int))),
            ("method"@, JsonView::Text("thread/list"@)),
            ("params"@, page_params(archived, cursor)),
        ],
    )
}

/// The request for a page of threads.
pub fn thread_list_request(request_id: i64, archived: bool, cursor: Option<&str>) -> (r: Json)
    ensures
        r@ == page_request(request_id, archived, opt_view(cursor)),
{
    let params = match cursor {
        Some(c) => {
            assert(seq![
                ("limit"@, JsonView::Number(number_of(100))),
                ("archived"@, JsonView::Bool(archived)),
                ("cursor"@, JsonView::Text(c@)),
            ] =~= seq![
                ("limit"@, JsonView::Number(number_of(100))),
                ("archived"@, JsonView::Bool(archived)),
            ].push(("cursor"@, JsonView::Text(c@))));
            Json::object3(
                "limit",
                Json::from_i64(100),
                "archived",
                Json::Bool(archived),
                "cursor",
                Json::text(c),
            )
        },
        None => Json::object2("limit", Json::from_i64(100), "archived", Json::Bool(archived)),
    };
    Json::object4(
        "jsonrpc",
        Json::text("2.0"),
        "id",
        Json::from_i64(request_id),
        "method",
        Json::text("thread/list"),
        "params",
        params,
    )
}

/// The number of the next request for a page, given how many sessions were found so far.
pub open spec fn page_number(found: nat) -> int {
    if found > i64::MAX - 10 {
        i64::MAX as int
    } else {
        10 + found as int
    }
}

/// The number of the next request for a page.
pub fn page_request_id(found: usize) -> (r: i64)
    ensures
        r == page_number(found as nat),
{
    if found as u64 > 9223372036854775797 {
        i64::MAX
    } else {
        10 + found as i64
    }
}

/// The reply to a request that a line is.
pub open spec fn reply_to(line: Seq<char>, id: i64) -> Option<JsonView> {
    match json_parsed(line) {
        Some(x) => if i64_in(field(x, "id"@)) == Some(id) {
            Some(x)
        } else {
            None
        },
        None => None,
    }
}

/// Reads a line as the reply to a request; `None` where it is something else.
pub fn read_rpc_result(line: &str, id: i64) -> (r: Option<Json>)
    ensures
        opt_view(r) == reply_to(line@, id),
{
    match Json::parse(line) {
        Some(x) => {
            let number = match x.get("id") {
                Some(v) => v.as_i64(),
                None => None,
            };
            match number {
                Some(n) => if n == id {
                    Some(x)
                } else {
                    None
                },
                None => None,
            }
        },
        None => None,
    }
}

/// What a reply says went wrong.
pub open spec fn failure_of(what: Seq<char>, reply: JsonView) -> Option<Seq<char>> {
    match field(reply, "error"@) {
        Some(e) => Some(what + json_text(e)),
        None => None,
    }
}

fn rpc_failure(what: &str, reply: &Json) -> (r: Option<String>)
    ensures
        opt_view(r) == failure_of(what@, reply@),
{
    match reply.get("error") {
        Some(e) => {
            let mut text = what.to_owned();
            text.append(e.to_text().as_str());
            Some(text)
        },
        None => None,
    }
}

/// What went wrong when the conversation with the provider began.
pub fn initialize_failure(reply: &Json) -> (r: Option<String>)
    ensures
        opt_view(r) == failure_of("codex initialize failed: "@, reply@),
{
    rpc_failure("codex initialize failed: ", reply)
}

/// What went wrong with a page of threads.
pub fn thread_list_failure(reply: &Json) -> (r: Option<String>)
    ensures
        opt_view(r) == failure_of("codex thread/list failed: "@, reply@),
{
    rpc_failure("codex thread/list failed: ", reply)
}

/// The part of a reply under `result`.
pub open spec fn result_of(reply: JsonView) -> JsonView {
    match field(reply, "result"@) {
        Some(x) => x,
        None => JsonView::Null,
    }
}

/// The threads that a reply lists, and the place at which to go on, if there is more.
pub open spec fn page_in(reply: JsonView) -> (JsonView, Option<Seq<char>>) {
    (
        match field(result_of(reply), "data"@) {
            Some(x) => x,
            None => JsonView::Array(Seq::empty()),
        },
        text_field(result_of(reply), "nextCursor"@),
    )
}

/// The threads of a page, as they were sent, and where the next page begins.
pub fn thread_page(reply: &Json) -> (r: (Json, Option<String>))
    ensures
        r.0@ == match field(result_of(reply@), "data"@) {
            Some(x) => x,
            None => JsonView::Array(Seq::empty()),
        },
        opt_view(r.1) == text_field(result_of(reply@), "nextCursor"@),
        (r.0@, opt_view(r.1)) == page_in(reply@),
{
    let nothing = Json::Null;
    let result = match reply.get("result") {
        Some(x) => x,
        None => &nothing,
    };
    let none: Vec<Json> = Vec::new();
    assert(views(none@) =~= Seq::<JsonView>::empty());
    let data = match result.get("data") {
        Some(x) => x.clone(),
        None => Json::array(none),
    };
    (data, to_owned_opt(result.text_at("nextCursor")))
}

/// The sessions of the threads on a page that can be adopted. `places` gives for each thread
/// the project that its directory belongs to, and nothing where there is no such directory.
pub open spec fn page_sessions(
    page: Seq<CodexThreadView>,
    places: Seq<Option<(String, String)>>,
    archived: bool,
) -> Seq<NativeSessionView>
    decreases page.len(),
{
    if page.len() == 0 {
        Seq::empty()
    } else {
        let before = page_sessions(page.drop_last(), places, archived);
        match places[page.len() - 1] {
            Some((key, root)) => if is_eligible(page.last()) {
                before.push(thread_session(page.last(), archived, key@, root@))
            } else {
                before
            },
            None => before,
        }
    }
}

/// The sessions that the provider listed so far, and the page that is asked for next.
#[derive(Debug, Clone)]
pub struct CodexScan {
    pub found: Vec<NativeSession>,
    pub limit: usize,
    pub archived: bool,
    pub cursor: Option<String>,
}

/// The model of [`CodexScan`].
#[verifier::ext_equal]
pub struct CodexScanView {
    pub found: Seq<NativeSessionView>,
    pub limit: usize,
    pub archived: bool,
    pub cursor: Option<Seq<char>>,
}

impl View for CodexScan {
    type V = CodexScanView;

    open spec fn view(&self) -> CodexScanView {
        CodexScanView {
            found: views(self.found@),
            limit: self.limit,
            archived: self.archived,
            cursor: opt_view(self.cursor),
        }
    }
}

/// Where a scan stands after a page, and whether another page is asked for: the next one
/// where there is one, else the archived threads after the others, and none once enough
/// sessions were found.
pub open spec fn after_page(
    scan: CodexScanView,
    sessions: Seq<NativeSessionView>,
    next_cursor: Option<Seq<char>>,
) -> (CodexScanView, bool) {
    let found = scan.found + sessions;
    if found.len() >= scan.limit {
        (CodexScanView { found, ..scan }, false)
    } else if next_cursor is Some {
        (CodexScanView { found, cursor: next_cursor, ..scan }, true)
    } else if !scan.archived {
        (CodexScanView { found, archived: true, cursor: None, ..scan }, true)
    } else {
        (CodexScanView { found, ..scan }, false)
    }
}

fn push_page(
    found: &mut Vec<NativeSession>,
    page: &Vec<CodexThread>,
    places: &Vec<Option<(String, String)>>,
    archived: bool,
)
    requires
        places@.len() == page@.len(),
    ensures
        views(final(found)@) == views(old(found)@) + page_sessions(views(page@), places@, archived),
{
    let ghost start = views(found@);
    let ghost all = views(page@);
    let mut i: usize = 0;
    assert(all.take(0) =~= Seq::empty());
    assert(start + page_sessions(all.take(0), places@, archived) =~= start);
    while i < page.len()
        invariant
            i <= page@.len() == places@.len(),
            all == views(page@),
            views(found@) == start + page_sessions(all.take(i as int), places@, archived),
        decreases page@.len() - i,
    {
        let ghost before = views(found@);
        proof {
            assert(all.take(i + 1).drop_last() =~= all.take(i as int));
            assert(all.take(i + 1).last() == page@[i as int]@);
        }
        if let Some((key, root)) = &places[i] {
            if thread_is_eligible(&page[i]) {
                found.push(codex_thread_session(&page[i], archived, key.as_str(), root.as_str()));
                assert(views(found@) =~= before.push(found@.last()@));
                assert(views(found@) =~= start + page_sessions(all.take(i + 1), places@, archived));
            }
        }
        i += 1;
    }
    assert(all.take(i as int) =~= all);
}

impl CodexScan {
    /// Begins with the threads that are not archived.
    pub fn begin(limit: usize) -> (r: CodexScan)
        ensures
            r@ == (CodexScanView { found: Seq::empty(), limit, archived: false, cursor: None }),
    {
        let found: Vec<NativeSession> = Vec::new();
        assert(views(found@) =~= Seq::empty());
        CodexScan { found, limit, archived: false, cursor: None }
    }

    /// The number of the request for the next page, and the request.
    pub fn request(&self) -> (r: (i64, Json))
        ensures
            r.0 == page_number(self@.found.len()),
            r.1@ == page_request(r.0, self@.archived, self@.cursor),
    {
        let id = page_request_id(self.found.len());
        assert(views(self.found@).len() == self.found@.len());
        (id, thread_list_request(id, self.archived, as_text(&self.cursor)))
    }

    /// Takes in a page, and says whether another one is asked for.
    pub fn scan_codex_app_server(
        &mut self,
        page: &Vec<CodexThread>,
        places: &Vec<Option<(String, String)>>,
        next_cursor: Option<String>,
    ) -> (r: bool)
        requires
            places@.len() == page@.len(),
        ensures
            (final(self)@, r) == after_page(
                old(self)@,
                page_sessions(views(page@), places@, old(self)@.archived),
                opt_view(next_cursor),
            ),
    {
        push_page(&mut self.found, page, places, self.archived);
        assert(views(self.found@).len() == self.found@.len());
        if self.found.len() >= self.limit {
            false
        } else if next_cursor.is_some() {
            self.cursor = next_cursor;
            true
        } else if !self.archived {
            self.archived = true;
            self.cursor = None;
            true
        } else {
            false
        }
    }

    /// The sessions that were found, newest first, as many as were asked for.
    pub fn finish(&self) -> (r: Vec<NativeSession>)
        ensures
            views(r@) == at_most(newest_first(self@.found), self@.limit as int),
    {
        newest(&self.found, self.limit)
    }
}

proof fn lemma_page_sessions(page: Seq<CodexThreadView>, places: Seq<Option<(String, String)>>, archived: bool)
    ensures
        page_sessions(page, places, archived).len() <= page.len(),
        forall|i: int|
            0 <= i < page_sessions(page, places, archived).len() ==> !blank(
                (#[trigger] page_sessions(page, places, archived)[i]).cwd,
            ) && page_sessions(page, places, archived)[i].archived == archived,
    decreases page.len(),
{
    if page.len() > 0 {
        let before = page_sessions(page.drop_last(), places, archived);
        lemma_page_sessions(page.drop_last(), places, archived);
        assert forall|i: int| 0 <= i < page_sessions(page, places, archived).len() implies !blank(
            (#[trigger] page_sessions(page, places, archived)[i]).cwd,
        ) && page_sessions(page, places, archived)[i].archived == archived by {
            if i < before.len() {
                assert(!blank(before[i].cwd));
            }
        }
    }
}

/// A page adds to what was found before it, without changing it; what it adds names a
/// directory and is archived just as the threads on the page are.
pub proof fn law_pages_only_add(
    scan: CodexScanView,
    page: Seq<CodexThreadView>,
    places: Seq<Option<(String, String)>>,
    next_cursor: Option<Seq<char>>,
)
    requires
        places.len() == page.len(),
    ensures
        ({
            let after = after_page(scan, page_sessions(page, places, scan.archived), next_cursor).0;
            &&& scan.found.len() <= after.found.len() <= scan.found.len() + page.len()
            &&& after.found.take(scan.found.len() as int) == scan.found
            &&& forall|i: int|
                scan.found.len() <= i < after.found.len() ==> !blank((#[trigger] after.found[i]).cwd)
                    && after.found[i].archived == scan.archived
        }),
{
    let added = page_sessions(page, places, scan.archived);
    lemma_page_sessions(page, places, scan.archived);
    let after = after_page(scan, added, next_cursor).0;
    assert(after.found.take(scan.found.len() as int) =~= scan.found);
    assert forall|i: int| scan.found.len() <= i < after.found.len() implies !blank((#[trigger] after.found[i]).cwd)
        && after.found[i].archived == scan.archived by {
        assert(after.found[i] == added[i - scan.found.len()]);
    }
}

// ---------------------------------------------------------------------
// The provider's files
// ---------------------------------------------------------------------

/// The identifier and the directory that the first line of a file names.
pub open spec fn file_meta(line: Seq<char>) -> Option<(Seq<char>, Seq<char>)> {
    match json_parsed(line) {
        None => None,
        Some(x) => if text_field(x, "type"@) != Some("session_meta"@) {
            None
        } else {
            match field(x, "payload"@) {
                None => None,
                Some(payload) => {
                    let id = text_in(
                        match field(payload, "id"@) {
                            Some(v) => Some(v),
                            None => field(payload, "session_id"@),
                        },
                    );
                    match (id, text_field(payload, "cwd"@)) {
                        (Some(i), Some(c)) => Some((i, c)),
                        _ => None,
                    }
                },
            }
        },
    }
}

/// Reads the first line of a file.
pub fn read_codex_meta(line: &str) -> (r: Option<(String, String)>)
    ensures
        match r {
            Some((id, cwd)) => file_meta(line@) == Some((id@, cwd@)),
            None => file_meta(line@) is None,
        },
{
    let x = match Json::parse(line) {
        Some(x) => x,
        None => {
            return None;
        },
    };
    if !same_opt(x.text_at("type"), Some("session_meta")) {
        return None;
    }
    let payload = match x.get("payload") {
        Some(p) => p,
        None => {
            return None;
        },
    };
    let id = match payload.get("id") {
        Some(v) => v.as_str(),
        None => payload.text_at("session_id"),
    };
    match (id, payload.text_at("cwd")) {
        (Some(i), Some(c)) => Some((i.to_owned(), c.to_owned())),
        _ => None,
    }
}

/// The texts of the items that have one, in order.
pub open spec fn item_texts(items: Seq<JsonView>) -> Seq<Seq<char>>
    decreases items.len(),
{
    if items.len() == 0 {
        Seq::empty()
    } else {
        match text_field(items.last(), "text"@) {
            Some(t) => item_texts(items.drop_last()).push(t),
            None => item_texts(items.drop_last()),
        }
    }
}

/// What the user said in the entry that a line is, unless it is blank.
pub open spec fn user_text(line: Seq<char>) -> Option<Seq<char>> {
    match json_parsed(line) {
        None => None,
        Some(x) => if text_field(x, "type"@) != Some("response_item"@) {
            None
        } else {
            match field(x, "payload"@) {
                None => None,
                Some(payload) => if text_field(payload, "role"@) != Some("user"@) {
                    None
                } else {
                    let said = match field(payload, "content"@) {
                        Some(JsonView::Array(items)) => joined(item_texts(items), "\n"@),
                        _ => Seq::empty(),
                    };
                    if blank(said) {
                        None
                    } else {
                        Some(said)
                    }
                },
            }
        },
    }
}

fn collect_texts(items: &Vec<Json>) -> (r: Vec<String>)
    ensures
        views(r@) == item_texts(views(items@)),
{
    let ghost all = views(items@);
    let mut out: Vec<String> = Vec::new();
    let mut i: usize = 0;
    assert(views(out@) =~= Seq::empty());
    assert(all.take(0) =~= Seq::empty());
    while i < items.len()
        invariant
            i <= items@.len(),
            all == views(items@),
            views(out@) == item_texts(all.take(i as int)),
        decreases items@.len() - i,
    {
        proof {
            assert(all.take(i + 1).drop_last() =~= all.take(i as int));
            assert(all.take(i + 1).last() == items@[i as int]@);
        }
        if let Some(t) = items[i].text_at("text") {
            let ghost before = views(out@);
            out.push(t.to_owned());
            assert(views(out@) =~= before.push(t@));
        }
        i += 1;
    }
    assert(all.take(i as int) =~= all);
    out
}

/// Reads what the user said in the entry that a line is.
pub fn read_user_text(line: &str) -> (r: Option<String>)
    ensures
        opt_view(r) == user_text(line@),
{
    let x = match Json::parse(line) {
        Some(x) => x,
        None => {
            return None;
        },
    };
    if !same_opt(x.text_at("type"), Some("response_item")) {
        return None;
    }
    let payload = match x.get("payload") {
        Some(p) => p,
        None => {
            return None;
        },
    };
    if !same_opt(payload.text_at("role"), Some("user")) {
        return None;
    }
    let items = match payload.get("content") {
        Some(c) => c.as_array(),
        None => None,
    };
    let said = match items {
        Some(v) => join(&collect_texts(v), "\n"),
        None => String::new(),
    };
    if is_blank(said.as_str()) {
        None
    } else {
        Some(said)
    }
}

/// How many bytes of a file are searched for the user's first words.
pub const PROMPT_SCAN_BYTES: usize = 1048576;

/// What comes of a line of a file that is searched for the user's first words.
#[derive(Debug, Clone, PartialEq, Eq)]
pub enum PromptStep {
    /// Read on; so many bytes were read.
    Continue(usize),
    /// These are the words.
    Found(String),
    /// Enough was read.
    Stop,
}

/// The model of [`PromptStep`].
#[verifier::ext_equal]
pub enum PromptStepView {
    Continue(usize),
    Found(Seq<char>),
    Stop,
}

impl View for PromptStep {
    type V = PromptStepView;

    open spec fn view(&self) -> PromptStepView {
        match *self {
            PromptStep::Continue(n) => PromptStepView::Continue(n),
            PromptStep::Found(s) => PromptStepView::Found(s@),
            PromptStep::Stop => PromptStepView::Stop,
        }
    }
}

/// The bytes read after a line of `bytes` more, as far as they can be counted.
pub open spec fn bytes_read(scanned: usize, bytes: usize) -> usize {
    if scanned + bytes > usize::MAX {
        usize::MAX
    } else {
        (scanned + bytes) as usize
    }
}

/// What comes of a line, which may itself reach beyond the bytes that are searched. Nothing
/// more is read where the file ends.
pub open spec fn prompt_step(scanned: usize, line: Seq<char>, bytes: usize) -> PromptStepView {
    if bytes == 0 {
        PromptStepView::Stop
    } else {
        match user_text(line) {
            Some(s) => PromptStepView::Found(s),
            None => if bytes_read(scanned, bytes) < PROMPT_SCAN_BYTES {
                PromptStepView::Continue(bytes_read(scanned, bytes))
            } else {
                PromptStepView::Stop
            },
        }
    }
}

/// Goes on with the search for the user's first words after a line was read.
pub fn read_codex_first_user_prompt(scanned: usize, line: &str, bytes: usize) -> (r: PromptStep)
    ensures
        r@ == prompt_step(scanned, line@, bytes),
{
    if bytes == 0 {
        return PromptStep::Stop;
    }
    match read_user_text(line) {
        Some(s) => PromptStep::Found(s),
        None => {
            let total: usize = if scanned > usize::MAX - bytes {
                usize::MAX
            } else {
                scanned + bytes
            };
            if total < PROMPT_SCAN_BYTES {
                PromptStep::Continue(total)
            } else {
                PromptStep::Stop
            }
        },
    }
}

/// The title of a session by the name of its file, else by its identifier.
pub open spec fn file_title(file_stem: Option<Seq<char>>, id: Seq<char>) -> Seq<char> {
    let by_id = "Codex "@ + short_of(id);
    match file_stem {
        Some(stem) => if has_prefix(stem, "rollout-"@) {
            let rest = stem.skip("rollout-"@.len() as int);
            "Codex "@ + replaced(
                match byte_prefix(rest, 16) {
                    Some(k) => rest.take(k as int),
                    None => rest,
                },
                "T"@,
                " "@,
            )
        } else {
            by_id
        },
        None => by_id,
    }
}

fn title_of_file(file_stem: Option<&str>, id: &str) -> (r: String)
    ensures
        r@ == file_title(opt_view(file_stem), id@),
{
    let mut title = "Codex ".to_owned();
    proof {
        reveal_strlit("T");
    }
    if let Some(stem) = file_stem {
        if let Some(rest) = strip_prefix(stem, "rollout-") {
            let head = match first_bytes(rest, 16) {
                Some(h) => h,
                None => rest,
            };
            title.append(replace(head, "T", " ").as_str());
            return title;
        }
    }
    title.append(short_id(id));
    title
}

/// The session of a file in a project.
pub open spec fn file_session(
    id: Seq<char>,
    cwd: Seq<char>,
    preview: Option<Seq<char>>,
    file_stem: Option<Seq<char>>,
    path: Seq<char>,
    updated_at: i64,
    archived: bool,
    project_key: Seq<char>,
    project_root: Seq<char>,
) -> NativeSessionView {
    let prompted = match preview {
        Some(p) => prompt_title(p),
        None => Seq::empty(),
    };
    let title = if prompted.len() > 0 {
        prompted
    } else {
        file_title(file_stem, id)
    };
    NativeSessionView {
        provider: NativeProvider::Codex,
        native_id: id,
        title: shortened(title, 160),
        preview,
        cwd,
        source_path: Some(path),
        updated_at,
        created_at: updated_at,
        archived,
        project_key,
        project_root,
    }
}

/// Makes a session of a file whose first line and first words of the user were read.
pub fn read_codex_file_metadata(
    id: String,
    cwd: String,
    preview: Option<String>,
    file_stem: Option<&str>,
    path: &str,
    updated_at: i64,
    archived: bool,
    project_key: &str,
    project_root: &str,
) -> (r: NativeSession)
    ensures
        r@ == file_session(
            id@,
            cwd@,
            opt_view(preview),
            opt_view(file_stem),
            path@,
            updated_at,
            archived,
            project_key@,
            project_root@,
        ),
{
    let prompted = match as_text(&preview) {
        Some(p) => title_from_codex_prompt(p),
        None => String::new(),
    };
    let title = if prompted.as_str().is_empty() {
        title_of_file(file_stem, id.as_str())
    } else {
        prompted
    };
    NativeSession {
        provider: NativeProvider::Codex,
        native_id: id,
        title: truncate(title.as_str(), 160),
        preview,
        cwd,
        source_path: Some(path.to_owned()),
        updated_at,
        created_at: updated_at,
        archived,
        project_key: project_key.to_owned(),
        project_root: project_root.to_owned(),
    }
}

/// The files of the provider, newest first, and the sessions that were read from them.
#[derive(Debug, Clone)]
pub struct CodexFileScan {
    pub order: Vec<usize>,
    pub at: usize,
    pub found: Vec<NativeSession>,
    pub limit: usize,
}

impl CodexFileScan {
    /// Whether the scan refers to `n` files and stands at one of them or behind the last.
    pub open spec fn is_sound(self, n: nat) -> bool {
        &&& self.at <= self.order@.len()
        &&& forall|j: int| 0 <= j < self.order@.len() ==> #[trigger] self.order@[j] < n
    }

    /// Begins with the times at which the files were last changed.
    pub fn begin(changed_at: &Vec<i64>, limit: usize) -> (r: CodexFileScan)
        ensures
            as_ints(r.order@) == desc_order(changed_at@),
            r.at == 0,
            r.found@ == Seq::<NativeSession>::empty(),
            r.limit == limit,
            r.is_sound(changed_at@.len()),
    {
        CodexFileScan { order: order_desc(changed_at), at: 0, found: Vec::new(), limit }
    }

    /// The file that is read next; none once enough sessions were found.
    pub open spec fn next_file(self) -> Option<usize> {
        if self.found@.len() < self.limit && self.at < self.order@.len() {
            Some(self.order@[self.at as int])
        } else {
            None
        }
    }

    /// The file that is read next; none once enough sessions were found.
    pub fn next(&self) -> (r: Option<usize>)
        ensures
            r == if self.found@.len() < self.limit && self.at < self.order@.len() {
                Some(self.order@[self.at as int])
            } else {
                None
            },
            r == self.next_file(),
    {
        if self.found.len() < self.limit && self.at < self.order.len() {
            Some(self.order[self.at])
        } else {
            None
        }
    }

    /// Takes in what was read from the file: a session, if it holds one.
    pub fn scan_codex_files_blocking(&mut self, read: Option<NativeSession>)
        requires
            old(self).at < old(self).order@.len(),
        ensures
            final(self).order@ == old(self).order@,
            final(self).limit == old(self).limit,
            final(self).at == old(self).at + 1,
            views(final(self).found@) == match read {
                Some(s) => views(old(self).found@).push(s@),
                None => views(old(self).found@),
            },
    {
        let count: usize = self.order.len();
        assert(self.at < count);
        if let Some(s) = read {
            let ghost before = views(self.found@);
            self.found.push(s);
            assert(views(self.found@) =~= before.push(s@));
        }
        self.at += 1;
    }
}

// ---------------------------------------------------------------------
// What is read
// ---------------------------------------------------------------------

/// A thread is adopted if it is no passing one, has no thread above it, names a directory,
/// and that directory has its place in a project. The session is the thread's own.
pub proof fn law_threads_of_their_own_are_adopted(
    page: Seq<CodexThreadView>,
    places: Seq<Option<(String, String)>>,
    archived: bool,
    k: int,
)
    requires
        places.len() == page.len(),
        0 <= k < page.len(),
        !page[k].ephemeral,
        page[k].parent_thread_id is None,
        trimmed(page[k].cwd).len() > 0,
        places[k] is Some,
    ensures
        exists|i: int|
            0 <= i < page_sessions(page, places, archived).len() && (#[trigger] page_sessions(
                page,
                places,
                archived,
            )[i]).native_id == page[k].id && page_sessions(page, places, archived)[i].provider is Codex
                && page_sessions(page, places, archived)[i].cwd == page[k].cwd && page_sessions(
                page,
                places,
                archived,
            )[i].archived == archived && page_sessions(page, places, archived)[i].preview == page[k].preview
                && page_sessions(page, places, archived)[i].source_path == page[k].path && page_sessions(
                page,
                places,
                archived,
            )[i].project_key == places[k].unwrap().0@ && page_sessions(page, places, archived)[i].project_root
                == places[k].unwrap().1@,
    decreases page.len(),
{
    let all = page_sessions(page, places, archived);
    if k == page.len() - 1 {
        assert(all[all.len() - 1].native_id == page[k].id);
    } else {
        let init = page.drop_last();
        assert(init[k] == page[k]);
        let less = places.drop_last();
        assert(less[k] == places[k]);
        law_threads_of_their_own_are_adopted(init, less, archived, k);
        lemma_places_beyond(init, places, archived);
        let before = page_sessions(init, less, archived);
        let i = choose|i: int|
            0 <= i < before.len() && (#[trigger] before[i]).native_id == init[k].id && before[i].provider is Codex
                && before[i].cwd == init[k].cwd && before[i].archived == archived && before[i].preview
                == init[k].preview && before[i].source_path == init[k].path && before[i].project_key
                == less[k].unwrap().0@ && before[i].project_root == less[k].unwrap().1@;
        assert(all[i] == before[i]);
    }
}

proof fn lemma_places_beyond(page: Seq<CodexThreadView>, places: Seq<Option<(String, String)>>, archived: bool)
    requires
        page.len() < places.len(),
    ensures
        page_sessions(page, places.drop_last(), archived) == page_sessions(page, places, archived),
    decreases page.len(),
{
    if page.len() > 0 {
        lemma_places_beyond(page.drop_last(), places, archived);
        assert(places.drop_last()[page.len() - 1] == places[page.len() - 1]);
    }
}

/// Nothing else is adopted: each session is that of a thread of its own on the page.
pub proof fn law_only_threads_of_their_own_are_adopted(
    page: Seq<CodexThreadView>,
    places: Seq<Option<(String, String)>>,
    archived: bool,
    i: int,
)
    requires
        0 <= i < page_sessions(page, places, archived).len(),
    ensures
        exists|k: int|
            0 <= k < page.len() && (#[trigger] page[k]).id == page_sessions(page, places, archived)[i].native_id
                && !page[k].ephemeral && page[k].parent_thread_id is None && trimmed(page[k].cwd).len() > 0
                && places[k] is Some,
    decreases page.len(),
{
    if page.len() > 0 {
        let init = page.drop_last();
        let before = page_sessions(init, places, archived);
        let all = page_sessions(page, places, archived);
        if i < before.len() {
            law_only_threads_of_their_own_are_adopted(init, places, archived, i);
            assert(all[i] == before[i]);
            let k = choose|k: int|
                0 <= k < init.len() && (#[trigger] init[k]).id == before[i].native_id && !init[k].ephemeral
                    && init[k].parent_thread_id is None && trimmed(init[k].cwd).len() > 0 && places[k] is Some;
            assert(page[k] == init[k]);
        } else {
            assert(page[page.len() - 1].id == all[i].native_id);
        }
    }
}

/// A thread goes by its name; without one by the first line of its preview that holds
/// something, and without that by the beginning of its identifier. Titles are cut at 160
/// characters, and times are in milliseconds.
pub proof fn law_a_thread_goes_by_its_name(
    t: CodexThreadView,
    archived: bool,
    project_key: Seq<char>,
    project_root: Seq<char>,
)
    ensures
        ({
            let s = thread_session(t, archived, project_key, project_root);
            let unnamed = t.name is None || trimmed(t.name.unwrap()).len() == 0;
            &&& !unnamed ==> s.title == shortened(t.name.unwrap(), 160)
            &&& unnamed && t.preview is Some && first_filled(lines_of(t.preview.unwrap())).len() > 0 ==> s.title
                == shortened(first_filled(lines_of(t.preview.unwrap())), 160)
            &&& unnamed && (t.preview is None || first_filled(lines_of(t.preview.unwrap())).len() == 0) ==> s.title
                == shortened("Codex "@ + short_of(t.id), 160)
            &&& i64::MIN <= t.updated_at * 1000 <= i64::MAX ==> s.updated_at == t.updated_at * 1000
            &&& i64::MIN <= t.created_at * 1000 <= i64::MAX ==> s.created_at == t.created_at * 1000
        }),
{
    lemma_trimmed_shape(t.name.unwrap());
}

/// A scan goes on with the next page, then with the archived threads, and ends when it has
/// found enough or there is nothing left.
pub proof fn law_a_scan_goes_through_all_pages(
    scan: CodexScanView,
    sessions: Seq<NativeSessionView>,
    next_cursor: Option<Seq<char>>,
)
    ensures
        ({
            let (after, more) = after_page(scan, sessions, next_cursor);
            &&& after.found == scan.found + sessions
            &&& after.limit == scan.limit
            &&& scan.found.len() + sessions.len() >= scan.limit ==> !more
            &&& scan.found.len() + sessions.len() < scan.limit && next_cursor is Some ==> more && after.cursor
                == next_cursor && after.archived == scan.archived
            &&& scan.found.len() + sessions.len() < scan.limit && next_cursor is None && !scan.archived ==> more
                && after.archived && after.cursor is None
            &&& scan.found.len() + sessions.len() < scan.limit && next_cursor is None && scan.archived ==> !more
        }),
{
}

/// A request for a page says whether archived threads are meant and where the page begins.
pub proof fn law_a_page_is_asked_for_by_its_cursor(request_id: i64, archived: bool, cursor: Option<Seq<char>>)
    ensures
        text_field(page_request(request_id, archived, cursor), "method"@) == Some("thread/list"@),
        field(page_request(request_id, archived, cursor), "id"@) == Some(
            JsonView::Number(number_of(request_id as int)),
        ),
        field(page_request(request_id, archived, cursor), "params"@) matches Some(p) && bool_field(p, "archived"@)
            == Some(archived) && text_field(p, "cursor"@) == cursor && field(p, "limit"@) == Some(
            JsonView::Number(number_of(100)),
        ),
{
    let base = seq![("limit"@, JsonView::Number(number_of(100))), ("archived"@, JsonView::Bool(archived))];
    let params = match cursor {
        Some(c) => base.push(("cursor"@, JsonView::Text(c))),
        None => base,
    };
    let pairs = seq![
        ("jsonrpc"@, JsonView::Text("2.0"@)),
        ("id"@, JsonView::Number(number_of(request_id as int))),
        ("method"@, JsonView::Text("thread/list"@)),
        ("params"@, page_params(archived, cursor)),
    ];
    reveal_strlit("jsonrpc");
    reveal_strlit("id");
    reveal_strlit("method");
    reveal_strlit("params");
    reveal_strlit("limit");
    reveal_strlit("archived");
    reveal_strlit("cursor");
    assert("jsonrpc"@.len() == 7 && "id"@.len() == 2 && "method"@.len() == 6 && "params"@.len() == 6);
    assert("method"@[0] == 'm' && "params"@[0] == 'p');
    assert("limit"@.len() == 5 && "archived"@.len() == 8 && "cursor"@.len() == 6);
    assert(params[0] == base[0] && params[1] == base[1]);
    law_object_holds_its_entries(pairs, 1, "id"@);
    law_object_holds_its_entries(pairs, 2, "method"@);
    law_object_holds_its_entries(pairs, 3, "params"@);
    law_object_holds_its_entries(params, 0, "limit"@);
    law_object_holds_its_entries(params, 1, "archived"@);
    law_object_holds_its_entries(params, 2, "cursor"@);
}

/// A line is the reply to a request if it is JSON with that request's identifier; a reply
/// that holds an error has failed, and says why.
pub proof fn law_replies_go_by_their_identifier(line: Seq<char>, id: i64, what: Seq<char>, reply: JsonView)
    ensures
        reply_to(line, id) matches Some(x) ==> json_parsed(line) == Some(x) && i64_in(field(x, "id"@)) == Some(id),
        json_parsed(line) matches Some(x) ==> (i64_in(field(x, "id"@)) == Some(id) ==> reply_to(line, id) == Some(x)),
        failure_of(what, reply) is Some <==> field(reply, "error"@) is Some,
        failure_of(what, reply) matches Some(e) ==> has_prefix(e, what),
        field(reply, "result"@) matches Some(x) ==> result_of(reply) == x,
{
    if let Some(e) = field(reply, "error"@) {
        assert((what + json_text(e)).take(what.len() as int) =~= what);
    }
}

/// A file tells its session by a line of the type `session_meta`, whose payload names the
/// identifier, under `id` or else `session_id`, and the directory.
pub proof fn law_a_file_tells_its_session(
    line: Seq<char>,
    x: JsonView,
    payload: JsonView,
    id: Seq<char>,
    cwd: Seq<char>,
)
    requires
        json_parsed(line) == Some(x),
        text_field(x, "type"@) == Some("session_meta"@),
        field(x, "payload"@) == Some(payload),
        text_field(payload, "cwd"@) == Some(cwd),
    ensures
        text_field(payload, "id"@) == Some(id) ==> file_meta(line) == Some((id, cwd)),
        field(payload, "id"@) is None && text_field(payload, "session_id"@) == Some(id) ==> file_meta(line) == Some(
            (id, cwd),
        ),
{
}

/// A line that is no such record tells no session.
pub proof fn law_other_lines_tell_no_session(line: Seq<char>)
    ensures
        json_parsed(line) is None ==> file_meta(line) is None && user_text(line) is None,
        json_parsed(line) matches Some(x) ==> {
            &&& text_field(x, "type"@) != Some("session_meta"@) ==> file_meta(line) is None
            &&& text_field(x, "type"@) != Some("response_item"@) ==> user_text(line) is None
            &&& field(x, "payload"@) is None ==> file_meta(line) is None && user_text(line) is None
            &&& field(x, "payload"@) matches Some(p) ==> (text_field(p, "role"@) != Some("user"@) ==> user_text(
                line,
            ) is None)
        },
{
}

/// What the user said stands in a `response_item` of the role `user`: the texts of its
/// content, line by line, unless all of it is blank.
pub proof fn law_the_user_is_quoted(
    line: Seq<char>,
    x: JsonView,
    payload: JsonView,
    items: Seq<JsonView>,
)
    requires
        json_parsed(line) == Some(x),
        text_field(x, "type"@) == Some("response_item"@),
        field(x, "payload"@) == Some(payload),
        text_field(payload, "role"@) == Some("user"@),
        field(payload, "content"@) == Some(JsonView::Array(items)),
    ensures
        forall|said: Seq<char>|
            items.len() == 1 && #[trigger] trimmed(said).len() > 0 && text_field(items[0], "text"@) == Some(said)
                ==> user_text(line) == Some(said),
        (forall|i: int| 0 <= i < items.len() ==> text_field(#[trigger] items[i], "text"@) is None) ==> user_text(
            line,
        ) is None,
        user_text(line) matches Some(said) ==> trimmed(said).len() > 0,
        forall|i: int, t: Seq<char>|
            0 <= i < items.len() && text_field(#[trigger] items[i], "text"@) == Some(t) && #[trigger] trimmed(t).len()
                > 0 ==> (user_text(line) matches Some(said) ==> has_text(said, t)),
{
    assert forall|said: Seq<char>|
        items.len() == 1 && #[trigger] trimmed(said).len() > 0 && text_field(items[0], "text"@) == Some(
            said,
        ) implies user_text(line) == Some(said) by {
        assert(items.drop_last() =~= Seq::empty());
        assert(items.last() == items[0]);
        assert(item_texts(Seq::<JsonView>::empty()) =~= Seq::empty());
        assert(item_texts(items) == item_texts(items.drop_last()).push(said));
        assert(item_texts(items) =~= seq![said]);
        assert(item_texts(items)[0] == said);
    }
    if forall|i: int| 0 <= i < items.len() ==> text_field(#[trigger] items[i], "text"@) is None {
        lemma_no_item_texts(items);
        assert(trimmed(Seq::<char>::empty()).len() == 0);
    }
    assert forall|i: int, t: Seq<char>|
        0 <= i < items.len() && text_field(#[trigger] items[i], "text"@) == Some(t) && #[trigger] trimmed(t).len()
            > 0 implies (user_text(line) matches Some(said) ==> has_text(said, t)) by {
        lemma_item_text(items, i, t);
        let texts = item_texts(items);
        let k = texts.index_of(t);
        law_joined_holds_its_parts(texts, "\n"@, k);
    }
}

proof fn lemma_no_item_texts(items: Seq<JsonView>)
    requires
        forall|i: int| 0 <= i < items.len() ==> text_field(#[trigger] items[i], "text"@) is None,
    ensures
        item_texts(items).len() == 0,
    decreases items.len(),
{
    if items.len() > 0 {
        assert(text_field(items[items.len() - 1], "text"@) is None);
        let init = items.drop_last();
        assert forall|i: int| 0 <= i < init.len() implies text_field(#[trigger] init[i], "text"@) is None by {
            assert(init[i] == items[i]);
        }
        lemma_no_item_texts(init);
    }
}

proof fn lemma_item_text(items: Seq<JsonView>, i: int, t: Seq<char>)
    requires
        0 <= i < items.len(),
        text_field(items[i], "text"@) == Some(t),
    ensures
        item_texts(items).contains(t),
    decreases items.len(),
{
    let texts = item_texts(items);
    if i == items.len() - 1 {
        assert(texts[texts.len() - 1] == t);
    } else {
        let init = items.drop_last();
        assert(init[i] == items[i]);
        lemma_item_text(init, i, t);
        let before = item_texts(init);
        let k = before.index_of(t);
        assert(texts[k] == t);
    }
}

/// The search for the first request ends where one is found, at the end of the file, or when
/// as much was read as is allowed; until then it goes on with what was read counted.
pub proof fn law_the_search_for_a_request_ends(scanned: usize, line: Seq<char>, bytes: usize)
    ensures
        bytes == 0 ==> prompt_step(scanned, line, bytes) is Stop,
        bytes > 0 ==> (user_text(line) matches Some(s) ==> prompt_step(scanned, line, bytes) == PromptStepView::Found(s)),
        bytes > 0 && user_text(line) is None && scanned + bytes < PROMPT_SCAN_BYTES ==> prompt_step(scanned, line, bytes)
            == PromptStepView::Continue((scanned + bytes) as usize),
        bytes > 0 && user_text(line) is None && scanned + bytes >= PROMPT_SCAN_BYTES ==> prompt_step(
            scanned,
            line,
            bytes,
        ) is Stop,
{
}

/// A session that is read from a file is that of the file, with the time the file changed; it
/// goes by its first request where that makes a title, and otherwise by the file.
pub proof fn law_a_file_gives_its_session(
    id: Seq<char>,
    cwd: Seq<char>,
    preview: Option<Seq<char>>,
    file_stem: Option<Seq<char>>,
    path: Seq<char>,
    updated_at: i64,
    archived: bool,
    project_key: Seq<char>,
    project_root: Seq<char>,
)
    ensures
        ({
            let s = file_session(
                id,
                cwd,
                preview,
                file_stem,
                path,
                updated_at,
                archived,
                project_key,
                project_root,
            );
            &&& s.provider is Codex
            &&& s.native_id == id && s.cwd == cwd && s.preview == preview && s.source_path == Some(path)
            &&& s.updated_at == updated_at && s.created_at == updated_at && s.archived == archived
            &&& s.project_key == project_key && s.project_root == project_root
            &&& preview is Some && prompt_title(preview.unwrap()).len() > 0 ==> s.title == shortened(
                prompt_title(preview.unwrap()),
                160,
            )
            &&& (preview is None || prompt_title(preview.unwrap()).len() == 0) && (file_stem is None || !has_prefix(
                file_stem.unwrap(),
                "rollout-"@,
            )) ==> s.title == shortened("Codex "@ + short_of(id), 160)
            &&& (preview is None || prompt_title(preview.unwrap()).len() == 0) && file_stem is Some && has_prefix(
                file_stem.unwrap(),
                "rollout-"@,
            ) ==> has_prefix(s.title, "Codex "@)
        }),
{
    if file_stem is Some && has_prefix(file_stem.unwrap(), "rollout-"@) {
        let title = file_title(file_stem, id);
        reveal_strlit("Codex ");
        assert("Codex "@.len() == 6);
        assert(title.take(6) =~= "Codex "@);
        assert(shortened(title, 160).take(6) =~= title.take(6));
    }
}

/// Requests for pages are numbered from ten on, one more for each session that was found, so
/// that a later page never shares its number with an earlier one.
pub proof fn law_pages_have_numbers_of_their_own(found: nat, more: nat)
    ensures
        page_number(0) == 10,
        10 <= page_number(found) <= i64::MAX,
        found < more && more <= i64::MAX - 10 ==> page_number(found) < page_number(more),
        found + 1 <= i64::MAX - 10 ==> page_number(found + 1) == page_number(found) + 1,
{
}

/// A page holds what the reply's result lists, and goes on at the cursor that it names; a
/// reply without a result lists nothing and ends the list.
pub proof fn law_a_page_is_what_the_result_lists(
    reply: JsonView,
    pairs: Seq<(Seq<char>, JsonView)>,
    data: int,
    cursor: int,
    next: Seq<char>,
)
    ensures
        field(reply, "result"@) is None ==> page_in(reply) == (JsonView::Array(Seq::empty()), None::<Seq<char>>),
        field(reply, "result"@) == Some(object_of(pairs)) ==> {
            &&& 0 <= data < pairs.len() && pairs[data].0 == "data"@ && (forall|j: int|
                data < j < pairs.len() ==> (#[trigger] pairs[j]).0 != "data"@) ==> page_in(reply).0 == pairs[data].1
            &&& (forall|j: int| 0 <= j < pairs.len() ==> (#[trigger] pairs[j]).0 != "data"@) ==> page_in(reply).0
                == JsonView::Array(Seq::empty())
            &&& 0 <= cursor < pairs.len() && pairs[cursor] == ("nextCursor"@, JsonView::Text(next)) && (forall|j: int|
                cursor < j < pairs.len() ==> (#[trigger] pairs[j]).0 != "nextCursor"@) ==> page_in(reply).1 == Some(
                next,
            )
            &&& (forall|j: int| 0 <= j < pairs.len() ==> (#[trigger] pairs[j]).0 != "nextCursor"@) ==> page_in(
                reply,
            ).1 is None
        },
{
    law_object_holds_its_entries(pairs, data, "data"@);
    law_object_holds_its_entries(pairs, cursor, "nextCursor"@);
}

/// A sound scan of files reads only files that there are, each where the order has it, and
/// reads on as long as a file is left and a session is wanted.
pub proof fn law_files_are_read_while_sessions_are_wanted(scan: CodexFileScan, n: nat)
    requires
        scan.is_sound(n),
    ensures
        scan.next_file() is Some <==> scan.at < scan.order@.len() && scan.found@.len() < scan.limit,
        scan.next_file() matches Some(i) ==> i < n && i == scan.order@[scan.at as int],
        scan.at <= scan.order@.len(),
        scan.at < scan.order@.len() ==> (CodexFileScan { at: (scan.at + 1) as usize, ..scan }).is_sound(n),
{
}

} // verus!
