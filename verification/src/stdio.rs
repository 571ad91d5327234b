//! The steward's tools: what each of them asks the server for.
use vstd::prelude::*;
use crate::display::{concat3, concat5};
use crate::json::{
    bool_field, entry_views, field, law_object_holds_its_entries, number_of, object_of, text_array, text_field, text_in,
    text_or_null, Json, JsonView,
};
use crate::text::{
    as_text, blank, decimal, decimal_text, has_prefix, has_suffix, is_blank, opt_view, same, same_opt, trim_end_of,
    trimmed, trimmed_end_of, views,
};

verus! {

// ---------------------------------------------------------------------
// The environment
// ---------------------------------------------------------------------

/// The variable that holds the address of the server.
pub const ENV_BASE_URL: &'static str = "AIONUI_BASE_URL";

/// The variable that names the user.
pub const ENV_USER_ID: &'static str = "AIONUI_USER_ID";

/// The variable that names the steward's conversation.
pub const ENV_CONVERSATION_ID: &'static str = "AIONUI_CONVERSATION_ID";

/// The variable that holds the short-lived credential.
pub const ENV_RUNTIME_TOKEN: &'static str = "AIONUI_RUNTIME_TOKEN";

/// Where the server is and for whom the tools speak.
#[derive(Debug, Clone)]
pub struct RuntimeEnv {
    pub base_url: String,
    pub user_id: String,
    pub conversation_id: String,
    pub token: String,
}

/// The model of [`RuntimeEnv`].
#[verifier::ext_equal]
pub struct RuntimeEnvView {
    pub base_url: Seq<char>,
    pub user_id: Seq<char>,
    pub conversation_id: Seq<char>,
    pub token: Seq<char>,
}

impl View for RuntimeEnv {
    type V = RuntimeEnvView;

    open spec fn view(&self) -> RuntimeEnvView {
        RuntimeEnvView {
            base_url: self.base_url@,
            user_id: self.user_id@,
            conversation_id: self.conversation_id@,
            token: self.token@,
        }
    }
}

/// Whether a variable is there and not blank.
pub open spec fn is_given(value: Option<Seq<char>>) -> bool {
    value matches Some(v) && !blank(v)
}

/// The environment out of its variables, or the name of the first that is missing.
pub open spec fn environment(
    base_url: Option<Seq<char>>,
    user_id: Option<Seq<char>>,
    conversation_id: Option<Seq<char>>,
    token: Option<Seq<char>>,
) -> Result<RuntimeEnvView, Seq<char>> {
    if !is_given(base_url) {
        Err(ENV_BASE_URL@)
    } else if !is_given(user_id) {
        Err(ENV_USER_ID@)
    } else if !is_given(conversation_id) {
        Err(ENV_CONVERSATION_ID@)
    } else if !is_given(token) {
        Err(ENV_RUNTIME_TOKEN@)
    } else {
        Ok(
            RuntimeEnvView {
                base_url: base_url.unwrap(),
                user_id: user_id.unwrap(),
                conversation_id: conversation_id.unwrap(),
                token: token.unwrap(),
            },
        )
    }
}

fn given(value: Option<String>, name: &str) -> (r: Result<String, String>)
    ensures
        match r {
            Ok(v) => is_given(opt_view(value)) && opt_view(value) == Some(v@),
            Err(e) => !is_given(opt_view(value)) && e@ == name@,
        },
{
    match value {
        Some(v) => if is_blank(v.as_str()) {
            Err(name.to_owned())
        } else {
            Ok(v)
        },
        None => Err(name.to_owned()),
    }
}

impl RuntimeEnv {
    /// Reads the environment out of its variables.
    pub fn from_env(
        base_url: Option<String>,
        user_id: Option<String>,
        conversation_id: Option<String>,
        token: Option<String>,
    ) -> (r: Result<RuntimeEnv, String>)
        ensures
            match r {
                Ok(env) => environment(
                    opt_view(base_url),
                    opt_view(user_id),
                    opt_view(conversation_id),
                    opt_view(token),
                ) == Ok::<RuntimeEnvView, Seq<char>>(env@),
                Err(e) => environment(
                    opt_view(base_url),
                    opt_view(user_id),
                    opt_view(conversation_id),
                    opt_view(token),
                ) == Err::<RuntimeEnvView, Seq<char>>(e@),
            },
    {
        let base_url = match given(base_url, ENV_BASE_URL) {
            Ok(v) => v,
            Err(e) => {
                return Err(e);
            },
        };
        let user_id = match given(user_id, ENV_USER_ID) {
            Ok(v) => v,
            Err(e) => {
                return Err(e);
            },
        };
        let conversation_id = match given(conversation_id, ENV_CONVERSATION_ID) {
            Ok(v) => v,
            Err(e) => {
                return Err(e);
            },
        };
        let token = match given(token, ENV_RUNTIME_TOKEN) {
            Ok(v) => v,
            Err(e) => {
                return Err(e);
            },
        };
        Ok(RuntimeEnv { base_url, user_id, conversation_id, token })
    }

    /// The headers that every request carries.
    pub fn headers(&self) -> (r: Vec<(&'static str, String)>)
        ensures
            r@.len() == 3,
            r@[0].0@ == "x-aionui-user-id"@ && r@[0].1@ == self@.user_id,
            r@[1].0@ == "x-aionui-conversation-id"@ && r@[1].1@ == self@.conversation_id,
            r@[2].0@ == "x-aionui-runtime-token"@ && r@[2].1@ == self@.token,
    {
        let mut r: Vec<(&'static str, String)> = Vec::new();
        r.push(("x-aionui-user-id", self.user_id.clone()));
        r.push(("x-aionui-conversation-id", self.conversation_id.clone()));
        r.push(("x-aionui-runtime-token", self.token.clone()));
        r
    }

    /// The address of a path on the server.
    pub fn url(&self, path: &str) -> (r: String)
        ensures
            r@ == trimmed_end_of(self@.base_url, seq!['/']) + path@,
    {
        let slash: [char; 1] = ['/'];
        assert(slash@ =~= seq!['/']);
        let mut r = trim_end_of(self.base_url.as_str(), slash.as_slice()).to_owned();
        r.append(path);
        r
    }
}

/// The error for a header whose value cannot be sent.
pub fn header_error(name: &str) -> (r: String)
    ensures
        r@ == "invalid runtime header value for "@ + name@,
{
    let mut r = "invalid runtime header value for ".to_owned();
    r.append(name);
    r
}

// ---------------------------------------------------------------------
// Requests
// ---------------------------------------------------------------------

/// The method of a request.
#[derive(Debug, Clone, Copy, PartialEq, Eq, Structural)]
pub enum ApiMethod {
    Get,
    Post,
    Patch,
}

/// A request to the server.
#[derive(Debug, Clone, PartialEq)]
pub struct ApiRequest {
    pub method: ApiMethod,
    pub path: String,
    pub query: Vec<(String, String)>,
    pub body: Option<Json>,
}

/// The model of [`ApiRequest`].
#[verifier::ext_equal]
pub struct ApiRequestView {
    pub method: ApiMethod,
    pub path: Seq<char>,
    pub query: Seq<(Seq<char>, Seq<char>)>,
    pub body: Option<JsonView>,
}

/// The model of a list of pairs.
pub open spec fn pair_views(s: Seq<(String, String)>) -> Seq<(Seq<char>, Seq<char>)> {
    Seq::new(s.len(), |i: int| (s[i].0@, s[i].1@))
}

impl View for ApiRequest {
    type V = ApiRequestView;

    open spec fn view(&self) -> ApiRequestView {
        ApiRequestView {
            method: self.method,
            path: self.path@,
            query: pair_views(self.query@),
            body: opt_view(self.body),
        }
    }
}

/// A request that only reads.
pub open spec fn reading(path: Seq<char>, query: Seq<(Seq<char>, Seq<char>)>) -> ApiRequestView {
    ApiRequestView { method: ApiMethod::Get, path, query, body: None }
}

/// A request that sends a body.
pub open spec fn sending(method: ApiMethod, path: Seq<char>, body: JsonView) -> ApiRequestView {
    ApiRequestView { method, path, query: Seq::empty(), body: Some(body) }
}

fn get(path: String) -> (r: ApiRequest)
    ensures
        r@ == reading(path@, Seq::empty()),
{
    let query: Vec<(String, String)> = Vec::new();
    assert(pair_views(query@) =~= Seq::empty());
    ApiRequest { method: ApiMethod::Get, path, query, body: None }
}

fn send(method: ApiMethod, path: String, body: Json) -> (r: ApiRequest)
    ensures
        r@ == sending(method, path@, body@),
{
    let query: Vec<(String, String)> = Vec::new();
    assert(pair_views(query@) =~= Seq::empty());
    ApiRequest { method, path, query, body: Some(body) }
}

/// The path of a task.
pub open spec fn task_path(task_id: Seq<char>) -> Seq<char> {
    "/api/steward/tasks/"@ + task_id
}

fn path_of_task(task_id: &str, rest: &str) -> (r: String)
    ensures
        r@ == task_path(task_id@) + rest@,
{
    concat3("/api/steward/tasks/", task_id, rest)
}

/// A number, or `null` where there is none.
pub open spec fn number_or_null(n: Option<u32>) -> JsonView {
    match n {
        Some(i) => JsonView::Number(number_of(i as int)),
        None => JsonView::Null,
    }
}

fn opt_number(n: Option<u32>) -> (r: Json)
    ensures
        r@ == number_or_null(n),
{
    match n {
        Some(i) => Json::from_u64(i as u64),
        None => Json::Null,
    }
}

/// `steward_overview`
pub fn overview() -> (r: ApiRequest)
    ensures
        r@ == reading("/api/steward/overview"@, Seq::empty()),
{
    get("/api/steward/overview".to_owned())
}

/// What `steward_search_tasks` is given.
#[derive(Debug, Clone)]
pub struct SearchTasksParams {
    pub objective: String,
    pub project_id: Option<String>,
    pub workspace: Option<String>,
    pub limit: Option<u32>,
}

/// The request for the tasks that an objective speaks of.
pub open spec fn search_tasks_request(params: SearchTasksParams) -> ApiRequestView {
    sending(
        ApiMethod::Post,
        "/api/steward/tasks/resolve"@,
        object_of(
            seq![
                ("objective"@, JsonView::Text(params.objective@)),
                ("project_id"@, text_or_null(opt_view(params.project_id))),
                ("workspace"@, text_or_null(opt_view(params.workspace))),
                ("limit"@, number_or_null(params.limit)),
            ],
        ),
    )
}

/// `steward_search_tasks`
pub fn search_tasks(params: &SearchTasksParams) -> (r: ApiRequest)
    ensures
        r@ == sending(
            ApiMethod::Post,
            "/api/steward/tasks/resolve"@,
            object_of(
                seq![
                    ("objective"@, JsonView::Text(params.objective@)),
                    ("project_id"@, text_or_null(opt_view(params.project_id))),
                    ("workspace"@, text_or_null(opt_view(params.workspace))),
                    ("limit"@, number_or_null(params.limit)),
                ],
            ),
        ),
        r@ == search_tasks_request(*params),
{
    send(
        ApiMethod::Post,
        "/api/steward/tasks/resolve".to_owned(),
        Json::object4(
            "objective",
            Json::text(params.objective.as_str()),
            "project_id",
            Json::opt_text(as_text(&params.project_id)),
            "workspace",
            Json::opt_text(as_text(&params.workspace)),
            "limit",
            opt_number(params.limit),
        ),
    )
}

/// What `steward_list_tasks` is given.
#[derive(Debug, Clone)]
pub struct ListTasksParams {
    pub query: Option<String>,
    pub lifecycle: Option<String>,
    pub limit: Option<u32>,
}

/// A pair of the query, where there is a value.
pub open spec fn query_pair(key: Seq<char>, value: Option<Seq<char>>) -> Seq<(Seq<char>, Seq<char>)> {
    match value {
        Some(v) => seq![(key, v)],
        None => Seq::empty(),
    }
}

/// The decimal notation of a number that may be left out.
pub open spec fn opt_decimal(n: Option<u32>) -> Option<Seq<char>> {
    match n {
        Some(i) => Some(decimal(i as nat)),
        None => None,
    }
}

/// The request for a list of tasks.
pub open spec fn list_tasks_request(params: ListTasksParams) -> ApiRequestView {
    reading(
        "/api/steward/tasks"@,
        query_pair("query"@, opt_view(params.query)) + query_pair("lifecycle"@, opt_view(params.lifecycle))
            + query_pair("limit"@, opt_decimal(params.limit)),
    )
}

/// `steward_list_tasks`
pub fn list_tasks(params: &ListTasksParams) -> (r: ApiRequest)
    ensures
        r@ == reading(
            "/api/steward/tasks"@,
            query_pair("query"@, opt_view(params.query)) + query_pair("lifecycle"@, opt_view(params.lifecycle))
                + query_pair("limit"@, opt_decimal(params.limit)),
        ),
        r@ == list_tasks_request(*params),
{
    let mut query: Vec<(String, String)> = Vec::new();
    if let Some(v) = &params.query {
        query.push(("query".to_owned(), v.clone()));
    }
    let ghost first = pair_views(query@);
    assert(first =~= query_pair("query"@, opt_view(params.query)));
    if let Some(v) = &params.lifecycle {
        query.push(("lifecycle".to_owned(), v.clone()));
    }
    let ghost second = pair_views(query@);
    assert(second =~= first + query_pair("lifecycle"@, opt_view(params.lifecycle)));
    if let Some(n) = params.limit {
        query.push(("limit".to_owned(), decimal_text(n as u64)));
    }
    assert(pair_views(query@) =~= second + query_pair("limit"@, opt_decimal(params.limit)));
    ApiRequest { method: ApiMethod::Get, path: "/api/steward/tasks".to_owned(), query, body: None }
}

/// The request for one task.
pub open spec fn inspect_task_request(task_id: Seq<char>) -> ApiRequestView {
    reading(task_path(task_id), Seq::empty())
}

/// `steward_inspect_task`
pub fn inspect_task(task_id: &str) -> (r: ApiRequest)
    ensures
        r@ == reading(task_path(task_id@), Seq::empty()),
        r@ == inspect_task_request(task_id@),
{
    proof {
        reveal_strlit("");
        assert(task_path(task_id@) + ""@ =~= task_path(task_id@));
    }
    get(path_of_task(task_id, ""))
}

/// What `steward_create_task` is given.
#[derive(Debug, Clone)]
pub struct CreateTaskParams {
    pub title: String,
    pub objective: String,
    pub priority: Option<i64>,
    pub project_id: Option<String>,
    pub workspace: Option<String>,
    pub conversation_id: Option<String>,
}

/// The priority that is given, or none in particular.
pub open spec fn priority_or_zero(priority: Option<i64>) -> int {
    match priority {
        Some(p) => p as int,
        None => 0,
    }
}

/// The request for a new task.
pub open spec fn create_task_request(params: CreateTaskParams) -> ApiRequestView {
    sending(
        ApiMethod::Post,
        "/api/steward/tasks"@,
        object_of(
            seq![
                ("title"@, JsonView::Text(params.title@)),
                ("objective"@, JsonView::Text(params.objective@)),
                ("priority"@, JsonView::Number(number_of(priority_or_zero(params.priority)))),
                ("project_id"@, text_or_null(opt_view(params.project_id))),
                ("workspace"@, text_or_null(opt_view(params.workspace))),
                ("conversation_id"@, text_or_null(opt_view(params.conversation_id))),
            ],
        ),
    )
}

/// `steward_create_task`
pub fn create_task(params: &CreateTaskParams) -> (r: ApiRequest)
    ensures
        r@ == sending(
            ApiMethod::Post,
            "/api/steward/tasks"@,
            object_of(
                seq![
                    ("title"@, JsonView::Text(params.title@)),
                    ("objective"@, JsonView::Text(params.objective@)),
                    ("priority"@, JsonView::Number(number_of(priority_or_zero(params.priority)))),
                    ("project_id"@, text_or_null(opt_view(params.project_id))),
                    ("workspace"@, text_or_null(opt_view(params.workspace))),
                    ("conversation_id"@, text_or_null(opt_view(params.conversation_id))),
                ],
            ),
        ),
        r@ == create_task_request(*params),
{
    let priority: i64 = match params.priority {
        Some(p) => p,
        None => 0,
    };
    let mut pairs: Vec<(String, Json)> = Vec::new();
    pairs.push(("title".to_owned(), Json::text(params.title.as_str())));
    pairs.push(("objective".to_owned(), Json::text(params.objective.as_str())));
    pairs.push(("priority".to_owned(), Json::from_i64(priority)));
    pairs.push(("project_id".to_owned(), Json::opt_text(as_text(&params.project_id))));
    pairs.push(("workspace".to_owned(), Json::opt_text(as_text(&params.workspace))));
    pairs.push(("conversation_id".to_owned(), Json::opt_text(as_text(&params.conversation_id))));
    assert(entry_views(pairs@) =~= seq![
        ("title"@, JsonView::Text(params.title@)),
        ("objective"@, JsonView::Text(params.objective@)),
        ("priority"@, JsonView::Number(number_of(priority_or_zero(params.priority)))),
        ("project_id"@, text_or_null(opt_view(params.project_id))),
        ("workspace"@, text_or_null(opt_view(params.workspace))),
        ("conversation_id"@, text_or_null(opt_view(params.conversation_id))),
    ]);
    send(ApiMethod::Post, "/api/steward/tasks".to_owned(), Json::object(pairs))
}

/// What `steward_update_task` is given.
#[derive(Debug, Clone)]
pub struct UpdateTaskParams {
    pub task_id: String,
    pub lifecycle: Option<String>,
    pub execution_state: Option<String>,
    pub progress_summary: Option<String>,
    pub next_action: Option<String>,
    pub blockers: Option<Vec<String>>,
}

/// Texts, or `null` where there are none.
pub open spec fn texts_or_null(list: Option<Vec<String>>) -> JsonView {
    match list {
        Some(v) => text_array(views(v@)),
        None => JsonView::Null,
    }
}

/// The request for a change of a task.
pub open spec fn update_task_request(params: UpdateTaskParams) -> ApiRequestView {
    sending(
        ApiMethod::Patch,
        task_path(params.task_id@),
        object_of(
            seq![
                ("lifecycle"@, text_or_null(opt_view(params.lifecycle))),
                ("execution_state"@, text_or_null(opt_view(params.execution_state))),
                ("progress_summary"@, text_or_null(opt_view(params.progress_summary))),
                ("next_action"@, text_or_null(opt_view(params.next_action))),
                ("blockers"@, texts_or_null(params.blockers)),
            ],
        ),
    )
}

/// `steward_update_task`
pub fn update_task(params: &UpdateTaskParams) -> (r: ApiRequest)
    ensures
        r@ == sending(
            ApiMethod::Patch,
            task_path(params.task_id@),
            object_of(
                seq![
                    ("lifecycle"@, text_or_null(opt_view(params.lifecycle))),
                    ("execution_state"@, text_or_null(opt_view(params.execution_state))),
                    ("progress_summary"@, text_or_null(opt_view(params.progress_summary))),
                    ("next_action"@, text_or_null(opt_view(params.next_action))),
                    ("blockers"@, texts_or_null(params.blockers)),
                ],
            ),
        ),
        r@ == update_task_request(*params),
{
    let mut pairs: Vec<(String, Json)> = Vec::new();
    pairs.push(("lifecycle".to_owned(), Json::opt_text(as_text(&params.lifecycle))));
    pairs.push(("execution_state".to_owned(), Json::opt_text(as_text(&params.execution_state))));
    pairs.push(("progress_summary".to_owned(), Json::opt_text(as_text(&params.progress_summary))));
    pairs.push(("next_action".to_owned(), Json::opt_text(as_text(&params.next_action))));
    let blockers = match &params.blockers {
        Some(list) => Json::texts(list),
        None => Json::Null,
    };
    pairs.push(("blockers".to_owned(), blockers));
    assert(entry_views(pairs@) =~= seq![
        ("lifecycle"@, text_or_null(opt_view(params.lifecycle))),
        ("execution_state"@, text_or_null(opt_view(params.execution_state))),
        ("progress_summary"@, text_or_null(opt_view(params.progress_summary))),
        ("next_action"@, text_or_null(opt_view(params.next_action))),
        ("blockers"@, texts_or_null(params.blockers)),
    ]);
    proof {
        reveal_strlit("");
        assert(task_path(params.task_id@) + ""@ =~= task_path(params.task_id@));
    }
    send(ApiMethod::Patch, path_of_task(params.task_id.as_str(), ""), Json::object(pairs))
}

/// `steward_list_assistants`
pub fn list_assistants() -> (r: ApiRequest)
    ensures
        r@ == reading("/api/assistants"@, Seq::empty()),
{
    get("/api/assistants".to_owned())
}

/// What `steward_create_session` is given.
#[derive(Debug, Clone)]
pub struct CreateSessionParams {
    pub task_id: String,
    pub assistant_id: String,
    pub conversation_name: Option<String>,
    pub workspace: Option<String>,
    pub replace_primary: Option<bool>,
}

/// A flag that is off unless it is given.
pub open spec fn flag(value: Option<bool>) -> bool {
    value == Some(true)
}

fn flag_of(value: Option<bool>) -> (r: bool)
    ensures
        r == flag(value),
{
    match value {
        Some(b) => b,
        None => false,
    }
}

/// The request for a new conversation of a task.
pub open spec fn create_session_request(params: CreateSessionParams) -> ApiRequestView {
    sending(
        ApiMethod::Post,
        task_path(params.task_id@) + "/sessions"@,
        object_of(
            seq![
                ("assistant_id"@, JsonView::Text(params.assistant_id@)),
                ("conversation_name"@, text_or_null(opt_view(params.conversation_name))),
                ("workspace"@, text_or_null(opt_view(params.workspace))),
                ("role"@, JsonView::Text("primary"@)),
                ("replace_primary"@, JsonView::Bool(flag(params.replace_primary))),
            ],
        ),
    )
}

/// `steward_create_session`
pub fn create_session(params: &CreateSessionParams) -> (r: ApiRequest)
    ensures
        r@ == sending(
            ApiMethod::Post,
            task_path(params.task_id@) + "/sessions"@,
            object_of(
                seq![
                    ("assistant_id"@, JsonView::Text(params.assistant_id@)),
                    ("conversation_name"@, text_or_null(opt_view(params.conversation_name))),
                    ("workspace"@, text_or_null(opt_view(params.workspace))),
                    ("role"@, JsonView::Text("primary"@)),
                    ("replace_primary"@, JsonView::Bool(flag(params.replace_primary))),
                ],
            ),
        ),
        r@ == create_session_request(*params),
{
    let mut pairs: Vec<(String, Json)> = Vec::new();
    pairs.push(("assistant_id".to_owned(), Json::text(params.assistant_id.as_str())));
    pairs.push(("conversation_name".to_owned(), Json::opt_text(as_text(&params.conversation_name))));
    pairs.push(("workspace".to_owned(), Json::opt_text(as_text(&params.workspace))));
    pairs.push(("role".to_owned(), Json::text("primary")));
    pairs.push(("replace_primary".to_owned(), Json::Bool(flag_of(params.replace_primary))));
    assert(entry_views(pairs@) =~= seq![
        ("assistant_id"@, JsonView::Text(params.assistant_id@)),
        ("conversation_name"@, text_or_null(opt_view(params.conversation_name))),
        ("workspace"@, text_or_null(opt_view(params.workspace))),
        ("role"@, JsonView::Text("primary"@)),
        ("replace_primary"@, JsonView::Bool(flag(params.replace_primary))),
    ]);
    send(ApiMethod::Post, path_of_task(params.task_id.as_str(), "/sessions"), Json::object(pairs))
}

/// What `steward_bind_session` is given.
#[derive(Debug, Clone)]
pub struct BindSessionParams {
    pub task_id: String,
    pub conversation_id: String,
    pub role: Option<String>,
    pub replace_primary: Option<bool>,
}

/// The role that is given, or that of the primary.
pub open spec fn role_or_primary(role: Option<Seq<char>>) -> Seq<char> {
    match role {
        Some(x) => x,
        None => "primary"@,
    }
}

/// The request to bind a conversation to a task.
pub open spec fn bind_session_request(params: BindSessionParams) -> ApiRequestView {
    sending(
        ApiMethod::Post,
        task_path(params.task_id@) + "/sessions"@,
        object_of(
            seq![
                ("conversation_id"@, JsonView::Text(params.conversation_id@)),
                ("role"@, JsonView::Text(role_or_primary(opt_view(params.role)))),
                ("replace_primary"@, JsonView::Bool(flag(params.replace_primary))),
            ],
        ),
    )
}

/// `steward_bind_session`
pub fn bind_session(params: &BindSessionParams) -> (r: ApiRequest)
    ensures
        r@ == sending(
            ApiMethod::Post,
            task_path(params.task_id@) + "/sessions"@,
            object_of(
                seq![
                    ("conversation_id"@, JsonView::Text(params.conversation_id@)),
                    ("role"@, JsonView::Text(role_or_primary(opt_view(params.role)))),
                    ("replace_primary"@, JsonView::Bool(flag(params.replace_primary))),
                ],
            ),
        ),
        r@ == bind_session_request(*params),
{
    let role = match as_text(&params.role) {
        Some(x) => x,
        None => "primary",
    };
    send(
        ApiMethod::Post,
        path_of_task(params.task_id.as_str(), "/sessions"),
        Json::object3(
            "conversation_id",
            Json::text(params.conversation_id.as_str()),
            "role",
            Json::text(role),
            "replace_primary",
            Json::Bool(flag_of(params.replace_primary)),
        ),
    )
}

/// The request to send work to a task.
pub open spec fn dispatch_task_request(task_id: Seq<char>, content: Seq<char>) -> ApiRequestView {
    sending(
        ApiMethod::Post,
        task_path(task_id) + "/dispatch"@,
        object_of(seq![("content"@, JsonView::Text(content))]),
    )
}

/// `steward_dispatch_task`
pub fn dispatch_task(task_id: &str, content: &str) -> (r: ApiRequest)
    ensures
        r@ == sending(
            ApiMethod::Post,
            task_path(task_id@) + "/dispatch"@,
            object_of(seq![("content"@, JsonView::Text(content@))]),
        ),
        r@ == dispatch_task_request(task_id@, content@),
{
    send(ApiMethod::Post, path_of_task(task_id, "/dispatch"), Json::object1("content", Json::text(content)))
}

/// The request to ask the leader of a task.
pub open spec fn ask_task_request(task_id: Seq<char>, content: Seq<char>) -> ApiRequestView {
    sending(
        ApiMethod::Post,
        task_path(task_id) + "/ask"@,
        object_of(seq![("content"@, JsonView::Text(content))]),
    )
}

/// `steward_ask_task`
pub fn ask_task(task_id: &str, content: &str) -> (r: ApiRequest)
    ensures
        r@ == sending(
            ApiMethod::Post,
            task_path(task_id@) + "/ask"@,
            object_of(seq![("content"@, JsonView::Text(content@))]),
        ),
        r@ == ask_task_request(task_id@, content@),
{
    send(ApiMethod::Post, path_of_task(task_id, "/ask"), Json::object1("content", Json::text(content)))
}

/// The request to resume a task.
pub open spec fn resume_task_request(task_id: Seq<char>, restart: Option<bool>) -> ApiRequestView {
    sending(
        ApiMethod::Post,
        task_path(task_id) + "/resume"@,
        object_of(seq![("restart"@, JsonView::Bool(flag(restart)))]),
    )
}

/// `steward_resume_task`
pub fn resume_task(task_id: &str, restart: Option<bool>) -> (r: ApiRequest)
    ensures
        r@ == sending(
            ApiMethod::Post,
            task_path(task_id@) + "/resume"@,
            object_of(seq![("restart"@, JsonView::Bool(flag(restart)))]),
        ),
        r@ == resume_task_request(task_id@, restart),
{
    send(
        ApiMethod::Post,
        path_of_task(task_id, "/resume"),
        Json::object1("restart", Json::Bool(flag_of(restart))),
    )
}

/// How many archived conversations are listed.
pub open spec fn archive_limit(limit: Option<u32>) -> nat {
    match limit {
        Some(n) => if n < 1 {
            1
        } else if n > 100 {
            100
        } else {
            n as nat
        },
        None => 100,
    }
}

/// The request for what is archived.
pub open spec fn list_archived_request(limit: Option<u32>) -> ApiRequestView {
    reading(
        "/api/sidebar"@,
        seq![("archived"@, "true"@), ("limit"@, decimal(archive_limit(limit)))],
    )
}

/// `steward_list_archived`
pub fn list_archived(limit: Option<u32>) -> (r: ApiRequest)
    ensures
        r@ == reading(
            "/api/sidebar"@,
            seq![("archived"@, "true"@), ("limit"@, decimal(archive_limit(limit)))],
        ),
        r@ == list_archived_request(limit),
{
    let n: u64 = match limit {
        Some(n) => if n < 1 {
            1
        } else if n > 100 {
            100
        } else {
            n as u64
        },
        None => 100,
    };
    let mut query: Vec<(String, String)> = Vec::new();
    query.push(("archived".to_owned(), "true".to_owned()));
    query.push(("limit".to_owned(), decimal_text(n)));
    assert(pair_views(query@) =~= seq![("archived"@, "true"@), ("limit"@, decimal(archive_limit(limit)))]);
    ApiRequest { method: ApiMethod::Get, path: "/api/sidebar".to_owned(), query, body: None }
}

// ---------------------------------------------------------------------
// Answers
// ---------------------------------------------------------------------

/// The data of an answer, or what went wrong. An answer is bad by its status or by its own
/// word; without a part named `data` all of it is the data.
pub open spec fn answer_data(success: bool, status: Seq<char>, value: JsonView) -> Result<JsonView, Seq<char>> {
    if !success || bool_field(value, "success"@) == Some(false) {
        Err(
            match text_field(value, "error"@) {
                Some(m) => m,
                None => "steward API request failed"@,
            } + " (HTTP "@ + status + ")"@,
        )
    } else {
        Ok(
            match field(value, "data"@) {
                Some(x) => x,
                None => value,
            },
        )
    }
}

/// The data of an answer with this status.
pub fn request_data(success: bool, status: &str, value: Json) -> (r: Result<Json, String>)
    ensures
        match r {
            Ok(x) => answer_data(success, status@, value@) == Ok::<JsonView, Seq<char>>(x@),
            Err(e) => answer_data(success, status@, value@) == Err::<JsonView, Seq<char>>(e@),
        },
{
    let refused = match value.bool_at("success") {
        Some(b) => !b,
        None => false,
    };
    if !success || refused {
        let message = match value.text_at("error") {
            Some(m) => m,
            None => "steward API request failed",
        };
        let mut text = concat3(message, " (HTTP ", status);
        text.append(")");
        return Err(text);
    }
    let data = match value.get("data") {
        Some(x) => Some(x.clone()),
        None => None,
    };
    match data {
        Some(x) => Ok(x),
        None => Ok(value),
    }
}

/// The structured form of a tool's failure.
pub fn tool_error(message: &str) -> (r: Json)
    ensures
        r@ == object_of(
            seq![
                ("code"@, JsonView::Text("STEWARD_TOOL_FAILED"@)),
                ("message"@, JsonView::Text(message@)),
            ],
        ),
{
    Json::object2("code", Json::text("STEWARD_TOOL_FAILED"), "message", Json::text(message))
}

// ---------------------------------------------------------------------
// Archiving
// ---------------------------------------------------------------------

/// What archiving a conversation concerns.
#[derive(Debug, Clone, PartialEq, Eq)]
pub enum ConversationControlTarget {
    Conversation { conversation_id: String, conversation_name: String },
    Team { conversation_id: String, conversation_name: String, team_id: String },
}

/// The model of [`ConversationControlTarget`].
#[verifier::ext_equal]
pub enum ControlTargetView {
    Conversation { conversation_id: Seq<char>, conversation_name: Seq<char> },
    Team { conversation_id: Seq<char>, conversation_name: Seq<char>, team_id: Seq<char> },
}

impl View for ConversationControlTarget {
    type V = ControlTargetView;

    open spec fn view(&self) -> ControlTargetView {
        match *self {
            ConversationControlTarget::Conversation { conversation_id, conversation_name } => ControlTargetView::Conversation {
                conversation_id: conversation_id@,
                conversation_name: conversation_name@,
            },
            ConversationControlTarget::Team {
                conversation_id,
                conversation_name,
                team_id,
            } => ControlTargetView::Team {
                conversation_id: conversation_id@,
                conversation_name: conversation_name@,
                team_id: team_id@,
            },
        }
    }
}

/// A text that is there and not blank.
pub open spec fn filled(x: Option<Seq<char>>) -> Option<Seq<char>> {
    match x {
        Some(s) => if blank(s) {
            None
        } else {
            Some(s)
        },
        None => None,
    }
}

/// The extra data of a conversation as the server describes it.
pub open spec fn extra_of(conversation: JsonView) -> JsonView {
    match field(conversation, "extra"@) {
        Some(x) => x,
        None => JsonView::Null,
    }
}

/// The team that the extra data name.
pub open spec fn extra_team(extra: JsonView) -> Option<Seq<char>> {
    filled(
        text_in(
            match field(extra, "teamId"@) {
                Some(x) => Some(x),
                None => field(extra, "team_id"@),
            },
        ),
    )
}

/// Whether a conversation is a steward's.
pub open spec fn is_stewards(steward_conversation_id: Seq<char>, conversation: JsonView) -> bool {
    text_field(conversation, "id"@) == Some(steward_conversation_id) || bool_field(
        extra_of(conversation),
        "steward"@,
    ) == Some(true)
}

/// Whether a conversation is that of a team's worker: it says so, or it has a team that it
/// does not lead.
pub open spec fn is_workers(conversation: JsonView) -> bool {
    let extra = extra_of(conversation);
    text_field(extra, "role"@) == Some("teammate"@) || (extra_team(extra) is Some && text_field(extra, "role"@)
        != Some("lead"@))
}

/// What archiving a conversation concerns, or why it cannot be archived.
pub open spec fn control_target(steward_conversation_id: Seq<char>, conversation: JsonView) -> Result<
    ControlTargetView,
    Seq<char>,
> {
    match filled(text_field(conversation, "id"@)) {
        None => Err("conversation response is missing id"@),
        Some(id) => {
            let name = match filled(text_field(conversation, "name"@)) {
                Some(n) => n,
                None => id,
            };
            if is_stewards(steward_conversation_id, conversation) {
                Err("the steward conversation is protected and cannot archive or restore itself"@)
            } else if is_workers(conversation) {
                Err(
                    "an individual team worker cannot be archived or restored; target the team's leader instead"@,
                )
            } else {
                match extra_team(extra_of(conversation)) {
                    Some(team_id) => Ok(
                        ControlTargetView::Team { conversation_id: id, conversation_name: name, team_id },
                    ),
                    None => Ok(
                        ControlTargetView::Conversation { conversation_id: id, conversation_name: name },
                    ),
                }
            }
        },
    }
}

fn filled_text(x: Option<&str>) -> (r: Option<&str>)
    ensures
        opt_view(r) == filled(opt_view(x)),
{
    match x {
        Some(s) => if is_blank(s) {
            None
        } else {
            Some(s)
        },
        None => None,
    }
}

/// What archiving a conversation concerns.
pub fn conversation_control_target(steward_conversation_id: &str, conversation: &Json) -> (r: Result<
    ConversationControlTarget,
    String,
>)
    ensures
        match r {
            Ok(t) => control_target(steward_conversation_id@, conversation@) == Ok::<ControlTargetView, Seq<char>>(
                t@,
            ),
            Err(e) => control_target(steward_conversation_id@, conversation@) == Err::<
                ControlTargetView,
                Seq<char>,
            >(e@),
        },
{
    let id = match filled_text(conversation.text_at("id")) {
        Some(id) => id,
        None => {
            return Err("conversation response is missing id".to_owned());
        },
    };
    let name = match filled_text(conversation.text_at("name")) {
        Some(n) => n,
        None => id,
    };
    let nothing = Json::Null;
    let extra = match conversation.get("extra") {
        Some(x) => x,
        None => &nothing,
    };
    let marked = match extra.bool_at("steward") {
        Some(b) => b,
        None => false,
    };
    if same(id, steward_conversation_id) || marked {
        return Err("the steward conversation is protected and cannot archive or restore itself".to_owned());
    }
    let role = extra.text_at("role");
    let team = match extra.get("teamId") {
        Some(x) => Some(x),
        None => extra.get("team_id"),
    };
    let team_id = match team {
        Some(x) => filled_text(x.as_str()),
        None => None,
    };
    if same_opt(role, Some("teammate")) || (team_id.is_some() && !same_opt(role, Some("lead"))) {
        return Err(
            "an individual team worker cannot be archived or restored; target the team's leader instead".to_owned(),
        );
    }
    match team_id {
        Some(t) => Ok(
            ConversationControlTarget::Team {
                conversation_id: id.to_owned(),
                conversation_name: name.to_owned(),
                team_id: t.to_owned(),
            },
        ),
        None => Ok(
            ConversationControlTarget::Conversation {
                conversation_id: id.to_owned(),
                conversation_name: name.to_owned(),
            },
        ),
    }
}

/// A steward's conversation and a worker's are refused, and no other conversation that has
/// an identifier is.
pub proof fn law_control_protects_steward_and_workers(steward_conversation_id: Seq<char>, conversation: JsonView)
    ensures
        is_stewards(steward_conversation_id, conversation) ==> control_target(
            steward_conversation_id,
            conversation,
        ) is Err,
        is_workers(conversation) ==> control_target(steward_conversation_id, conversation) is Err,
        filled(text_field(conversation, "id"@)) is Some && !is_stewards(steward_conversation_id, conversation)
            && !is_workers(conversation) ==> control_target(steward_conversation_id, conversation) is Ok,
{
}

/// The request that describes a conversation.
pub fn conversation_request(conversation_id: &str) -> (r: ApiRequest)
    ensures
        r@ == reading("/api/conversations/"@ + conversation_id@, Seq::empty()),
{
    let mut path = "/api/conversations/".to_owned();
    path.append(conversation_id);
    get(path)
}

/// The word for what a target concerns.
pub open spec fn scope_of(target: ControlTargetView) -> Seq<char> {
    match target {
        ControlTargetView::Conversation { .. } => "conversation"@,
        ControlTargetView::Team { .. } => "team"@,
    }
}

/// The identifier of a target.
pub open spec fn target_id(target: ControlTargetView) -> Seq<char> {
    match target {
        ControlTargetView::Conversation { conversation_id, .. } => conversation_id,
        ControlTargetView::Team { team_id, .. } => team_id,
    }
}

/// The path under which a target is archived or restored.
pub open spec fn archive_path(target: ControlTargetView, archived: bool) -> Seq<char> {
    "/api/sidebar/"@ + scope_of(target) + "/"@ + target_id(target) + if archived {
        "/archive"@
    } else {
        "/unarchive"@
    }
}

/// What a tool says of a target that was archived or restored.
pub open spec fn archive_answer(target: ControlTargetView, archived: bool) -> JsonView {
    let (id, name, team) = match target {
        ControlTargetView::Conversation { conversation_id, conversation_name } => (
            conversation_id,
            conversation_name,
            None::<Seq<char>>,
        ),
        ControlTargetView::Team { conversation_id, conversation_name, team_id } => (
            conversation_id,
            conversation_name,
            Some(team_id),
        ),
    };
    object_of(
        seq![
            ("conversation_id"@, JsonView::Text(id)),
            ("conversation_name"@, JsonView::Text(name)),
            ("archived"@, JsonView::Bool(archived)),
            ("affected_scope"@, JsonView::Text(scope_of(target))),
            ("team_id"@, text_or_null(team)),
            ("reversible"@, JsonView::Bool(true)),
        ],
    )
}

/// The path under which a target is archived or restored, and what is said once it was.
pub fn set_conversation_archived(target: &ConversationControlTarget, archived: bool) -> (r: (String, Json))
    ensures
        r.0@ == archive_path(target@, archived),
        r.1@ == archive_answer(target@, archived),
{
    let (scope, target_id, id, name, team) = match target {
        ConversationControlTarget::Conversation { conversation_id, conversation_name } => (
            "conversation",
            conversation_id.as_str(),
            conversation_id.as_str(),
            conversation_name.as_str(),
            None,
        ),
        ConversationControlTarget::Team { conversation_id, conversation_name, team_id } => (
            "team",
            team_id.as_str(),
            conversation_id.as_str(),
            conversation_name.as_str(),
            Some(team_id.as_str()),
        ),
    };
    let path = concat5(
        "/api/sidebar/",
        scope,
        "/",
        target_id,
        if archived {
            "/archive"
        } else {
            "/unarchive"
        },
    );
    let mut pairs: Vec<(String, Json)> = Vec::new();
    pairs.push(("conversation_id".to_owned(), Json::text(id)));
    pairs.push(("conversation_name".to_owned(), Json::text(name)));
    pairs.push(("archived".to_owned(), Json::Bool(archived)));
    pairs.push(("affected_scope".to_owned(), Json::text(scope)));
    pairs.push(("team_id".to_owned(), Json::opt_text(team)));
    pairs.push(("reversible".to_owned(), Json::Bool(true)));
    assert(entry_views(pairs@) =~= seq![
        ("conversation_id"@, JsonView::Text(id@)),
        ("conversation_name"@, JsonView::Text(name@)),
        ("archived"@, JsonView::Bool(archived)),
        ("affected_scope"@, JsonView::Text(scope@)),
        ("team_id"@, text_or_null(opt_view(team))),
        ("reversible"@, JsonView::Bool(true)),
    ]);
    (path, Json::object(pairs))
}

// ---------------------------------------------------------------------
// The names of the tools
// ---------------------------------------------------------------------

/// The names of the tools.
pub open spec fn tool_name_list() -> Seq<Seq<char>> {
    seq![
        "steward_overview"@,
        "steward_search_tasks"@,
        "steward_list_tasks"@,
        "steward_inspect_task"@,
        "steward_create_task"@,
        "steward_update_task"@,
        "steward_list_assistants"@,
        "steward_create_session"@,
        "steward_bind_session"@,
        "steward_dispatch_task"@,
        "steward_ask_task"@,
        "steward_resume_task"@,
        "steward_list_archived"@,
        "steward_archive_conversation"@,
        "steward_restore_conversation"@,
    ]
}

/// The names of the tools.
pub fn tool_names() -> (r: Vec<&'static str>)
    ensures
        views(r@) == tool_name_list(),
{
    let mut r: Vec<&'static str> = Vec::new();
    r.push("steward_overview");
    r.push("steward_search_tasks");
    r.push("steward_list_tasks");
    r.push("steward_inspect_task");
    r.push("steward_create_task");
    r.push("steward_update_task");
    r.push("steward_list_assistants");
    r.push("steward_create_session");
    r.push("steward_bind_session");
    r.push("steward_dispatch_task");
    r.push("steward_ask_task");
    r.push("steward_resume_task");
    r.push("steward_list_archived");
    r.push("steward_archive_conversation");
    r.push("steward_restore_conversation");
    assert(views(r@) =~= tool_name_list());
    r
}

/// With the prefix that hosts put before it, the name of each tool stays within the 64
/// characters that providers allow.
pub proof fn law_tool_names_fit(i: int)
    requires
        0 <= i < tool_name_list().len(),
    ensures
        ("mcp__aionui-steward__"@ + tool_name_list()[i]).len() <= 64,
{
    reveal_strlit("mcp__aionui-steward__");
    reveal_strlit("steward_overview");
    reveal_strlit("steward_search_tasks");
    reveal_strlit("steward_list_tasks");
    reveal_strlit("steward_inspect_task");
    reveal_strlit("steward_create_task");
    reveal_strlit("steward_update_task");
    reveal_strlit("steward_list_assistants");
    reveal_strlit("steward_create_session");
    reveal_strlit("steward_bind_session");
    reveal_strlit("steward_dispatch_task");
    reveal_strlit("steward_ask_task");
    reveal_strlit("steward_resume_task");
    reveal_strlit("steward_list_archived");
    reveal_strlit("steward_archive_conversation");
    reveal_strlit("steward_restore_conversation");
}

// ---------------------------------------------------------------------
// What is asked for
// ---------------------------------------------------------------------

/// A search hands on the objective, and the project and the workspace that are given.
pub proof fn law_a_search_hands_on_what_it_looks_for(params: SearchTasksParams)
    ensures
        search_tasks_request(params).method == ApiMethod::Post,
        search_tasks_request(params).path == "/api/steward/tasks/resolve"@,
        search_tasks_request(params).query.len() == 0,
        search_tasks_request(params).body is Some,
        text_field(search_tasks_request(params).body.unwrap(), "objective"@) == Some(params.objective@),
        text_field(search_tasks_request(params).body.unwrap(), "project_id"@) == opt_view(params.project_id),
        text_field(search_tasks_request(params).body.unwrap(), "workspace"@) == opt_view(params.workspace),
        params.limit matches Some(n) ==> field(search_tasks_request(params).body.unwrap(), "limit"@) == Some(
            JsonView::Number(number_of(n as int)),
        ),
{
    let pairs = seq![
        ("objective"@, JsonView::Text(params.objective@)),
        ("project_id"@, text_or_null(opt_view(params.project_id))),
        ("workspace"@, text_or_null(opt_view(params.workspace))),
        ("limit"@, number_or_null(params.limit)),
    ];
    reveal_strlit("objective");
    assert("objective"@.len() == 9 && "objective"@[0] == 'o' && "objective"@[1] == 'b' && "objective"@[2] == 'j');
    reveal_strlit("project_id");
    assert("project_id"@.len() == 10 && "project_id"@[0] == 'p' && "project_id"@[1] == 'r' && "project_id"@[2] == 'o');
    reveal_strlit("workspace");
    assert("workspace"@.len() == 9 && "workspace"@[0] == 'w' && "workspace"@[1] == 'o' && "workspace"@[2] == 'r');
    reveal_strlit("limit");
    assert("limit"@.len() == 5 && "limit"@[0] == 'l' && "limit"@[1] == 'i' && "limit"@[2] == 'm');
    law_object_holds_its_entries(pairs, 0, "objective"@);
    law_object_holds_its_entries(pairs, 1, "project_id"@);
    law_object_holds_its_entries(pairs, 2, "workspace"@);
    law_object_holds_its_entries(pairs, 3, "limit"@);
}

/// A new task is asked for with its title, its objective and its priority, which is 0 unless it is
/// given, and with the project, the workspace and the conversation that are given.
pub proof fn law_a_new_task_is_asked_for_as_it_is(params: CreateTaskParams)
    ensures
        create_task_request(params).method == ApiMethod::Post,
        create_task_request(params).path == "/api/steward/tasks"@,
        create_task_request(params).query.len() == 0,
        create_task_request(params).body is Some,
        text_field(create_task_request(params).body.unwrap(), "title"@) == Some(params.title@),
        text_field(create_task_request(params).body.unwrap(), "objective"@) == Some(params.objective@),
        text_field(create_task_request(params).body.unwrap(), "project_id"@) == opt_view(params.project_id),
        text_field(create_task_request(params).body.unwrap(), "workspace"@) == opt_view(params.workspace),
        text_field(create_task_request(params).body.unwrap(), "conversation_id"@) == opt_view(params.conversation_id),
        params.priority matches Some(p) ==> field(create_task_request(params).body.unwrap(), "priority"@) == Some(
            JsonView::Number(number_of(p as int)),
        ),
        params.priority is None ==> field(create_task_request(params).body.unwrap(), "priority"@) == Some(JsonView::Number(number_of(0))),
{
    let pairs = seq![
        ("title"@, JsonView::Text(params.title@)),
        ("objective"@, JsonView::Text(params.objective@)),
        ("priority"@, JsonView::Number(number_of(priority_or_zero(params.priority)))),
        ("project_id"@, text_or_null(opt_view(params.project_id))),
        ("workspace"@, text_or_null(opt_view(params.workspace))),
        ("conversation_id"@, text_or_null(opt_view(params.conversation_id))),
    ];
    reveal_strlit("title");
    assert("title"@.len() == 5 && "title"@[0] == 't' && "title"@[1] == 'i' && "title"@[2] == 't');
    reveal_strlit("objective");
    assert("objective"@.len() == 9 && "objective"@[0] == 'o' && "objective"@[1] == 'b' && "objective"@[2] == 'j');
    reveal_strlit("priority");
    assert("priority"@.len() == 8 && "priority"@[0] == 'p' && "priority"@[1] == 'r' && "priority"@[2] == 'i');
    reveal_strlit("project_id");
    assert("project_id"@.len() == 10 && "project_id"@[0] == 'p' && "project_id"@[1] == 'r' && "project_id"@[2] == 'o');
    reveal_strlit("workspace");
    assert("workspace"@.len() == 9 && "workspace"@[0] == 'w' && "workspace"@[1] == 'o' && "workspace"@[2] == 'r');
    reveal_strlit("conversation_id");
    assert("conversation_id"@.len() == 15 && "conversation_id"@[0] == 'c' && "conversation_id"@[1] == 'o' && "conversation_id"@[2] == 'n');
    law_object_holds_its_entries(pairs, 0, "title"@);
    law_object_holds_its_entries(pairs, 1, "objective"@);
    law_object_holds_its_entries(pairs, 2, "priority"@);
    law_object_holds_its_entries(pairs, 3, "project_id"@);
    law_object_holds_its_entries(pairs, 4, "workspace"@);
    law_object_holds_its_entries(pairs, 5, "conversation_id"@);
}

/// A change of a task goes to that task, and hands on each field that is given.
pub proof fn law_a_change_hands_on_each_field(params: UpdateTaskParams)
    ensures
        update_task_request(params).method == ApiMethod::Patch,
        update_task_request(params).path == "/api/steward/tasks/"@ + params.task_id@,
        update_task_request(params).query.len() == 0,
        update_task_request(params).body is Some,
        text_field(update_task_request(params).body.unwrap(), "lifecycle"@) == opt_view(params.lifecycle),
        text_field(update_task_request(params).body.unwrap(), "execution_state"@) == opt_view(params.execution_state),
        text_field(update_task_request(params).body.unwrap(), "progress_summary"@) == opt_view(params.progress_summary),
        text_field(update_task_request(params).body.unwrap(), "next_action"@) == opt_view(params.next_action),
        params.blockers matches Some(list) ==> field(update_task_request(params).body.unwrap(), "blockers"@) == Some(
            text_array(views(list@)),
        ),
        params.blockers is None ==> field(update_task_request(params).body.unwrap(), "blockers"@) == Some(JsonView::Null),
{
    let pairs = seq![
        ("lifecycle"@, text_or_null(opt_view(params.lifecycle))),
        ("execution_state"@, text_or_null(opt_view(params.execution_state))),
        ("progress_summary"@, text_or_null(opt_view(params.progress_summary))),
        ("next_action"@, text_or_null(opt_view(params.next_action))),
        ("blockers"@, texts_or_null(params.blockers)),
    ];
    reveal_strlit("lifecycle");
    assert("lifecycle"@.len() == 9 && "lifecycle"@[0] == 'l' && "lifecycle"@[1] == 'i' && "lifecycle"@[2] == 'f');
    reveal_strlit("execution_state");
    assert("execution_state"@.len() == 15 && "execution_state"@[0] == 'e' && "execution_state"@[1] == 'x' && "execution_state"@[2] == 'e');
    reveal_strlit("progress_summary");
    assert("progress_summary"@.len() == 16 && "progress_summary"@[0] == 'p' && "progress_summary"@[1] == 'r' && "progress_summary"@[2] == 'o');
    reveal_strlit("next_action");
    assert("next_action"@.len() == 11 && "next_action"@[0] == 'n' && "next_action"@[1] == 'e' && "next_action"@[2] == 'x');
    reveal_strlit("blockers");
    assert("blockers"@.len() == 8 && "blockers"@[0] == 'b' && "blockers"@[1] == 'l' && "blockers"@[2] == 'o');
    law_object_holds_its_entries(pairs, 0, "lifecycle"@);
    law_object_holds_its_entries(pairs, 1, "execution_state"@);
    law_object_holds_its_entries(pairs, 2, "progress_summary"@);
    law_object_holds_its_entries(pairs, 3, "next_action"@);
    law_object_holds_its_entries(pairs, 4, "blockers"@);
}

/// A new conversation of a task is asked for as its primary, for the assistant that is named, and
/// replaces one only where that is said.
pub proof fn law_a_new_session_is_the_primary(params: CreateSessionParams)
    ensures
        create_session_request(params).method == ApiMethod::Post,
        create_session_request(params).path == "/api/steward/tasks/"@ + params.task_id@ + "/sessions"@,
        create_session_request(params).query.len() == 0,
        create_session_request(params).body is Some,
        text_field(create_session_request(params).body.unwrap(), "assistant_id"@) == Some(params.assistant_id@),
        text_field(create_session_request(params).body.unwrap(), "conversation_name"@) == opt_view(params.conversation_name),
        text_field(create_session_request(params).body.unwrap(), "workspace"@) == opt_view(params.workspace),
        text_field(create_session_request(params).body.unwrap(), "role"@) == Some("primary"@),
        bool_field(create_session_request(params).body.unwrap(), "replace_primary"@) == Some((params.replace_primary == Some(true))),
{
    let pairs = seq![
        ("assistant_id"@, JsonView::Text(params.assistant_id@)),
        ("conversation_name"@, text_or_null(opt_view(params.conversation_name))),
        ("workspace"@, text_or_null(opt_view(params.workspace))),
        ("role"@, JsonView::Text("primary"@)),
        ("replace_primary"@, JsonView::Bool(flag(params.replace_primary))),
    ];
    reveal_strlit("assistant_id");
    assert("assistant_id"@.len() == 12 && "assistant_id"@[0] == 'a' && "assistant_id"@[1] == 's' && "assistant_id"@[2] == 's');
    reveal_strlit("conversation_name");
    assert("conversation_name"@.len() == 17 && "conversation_name"@[0] == 'c' && "conversation_name"@[1] == 'o' && "conversation_name"@[2] == 'n');
    reveal_strlit("workspace");
    assert("workspace"@.len() == 9 && "workspace"@[0] == 'w' && "workspace"@[1] == 'o' && "workspace"@[2] == 'r');
    reveal_strlit("role");
    assert("role"@.len() == 4 && "role"@[0] == 'r' && "role"@[1] == 'o' && "role"@[2] == 'l');
    reveal_strlit("replace_primary");
    assert("replace_primary"@.len() == 15 && "replace_primary"@[0] == 'r' && "replace_primary"@[1] == 'e' && "replace_primary"@[2] == 'p');
    law_object_holds_its_entries(pairs, 0, "assistant_id"@);
    law_object_holds_its_entries(pairs, 1, "conversation_name"@);
    law_object_holds_its_entries(pairs, 2, "workspace"@);
    law_object_holds_its_entries(pairs, 3, "role"@);
    law_object_holds_its_entries(pairs, 4, "replace_primary"@);
}

/// A conversation is bound in the role that is given, as the primary where none is, and replaces
/// one only where that is said.
pub proof fn law_a_session_is_bound_in_its_role(params: BindSessionParams)
    ensures
        bind_session_request(params).method == ApiMethod::Post,
        bind_session_request(params).path == "/api/steward/tasks/"@ + params.task_id@ + "/sessions"@,
        bind_session_request(params).query.len() == 0,
        bind_session_request(params).body is Some,
        text_field(bind_session_request(params).body.unwrap(), "conversation_id"@) == Some(params.conversation_id@),
        bool_field(bind_session_request(params).body.unwrap(), "replace_primary"@) == Some((params.replace_primary == Some(true))),
        params.role matches Some(x) ==> text_field(bind_session_request(params).body.unwrap(), "role"@) == Some(x@),
        params.role is None ==> text_field(bind_session_request(params).body.unwrap(), "role"@) == Some("primary"@),
{
    let pairs = seq![
        ("conversation_id"@, JsonView::Text(params.conversation_id@)),
        ("role"@, JsonView::Text(role_or_primary(opt_view(params.role)))),
        ("replace_primary"@, JsonView::Bool(flag(params.replace_primary))),
    ];
    reveal_strlit("conversation_id");
    assert("conversation_id"@.len() == 15 && "conversation_id"@[0] == 'c' && "conversation_id"@[1] == 'o' && "conversation_id"@[2] == 'n');
    reveal_strlit("role");
    assert("role"@.len() == 4 && "role"@[0] == 'r' && "role"@[1] == 'o' && "role"@[2] == 'l');
    reveal_strlit("replace_primary");
    assert("replace_primary"@.len() == 15 && "replace_primary"@[0] == 'r' && "replace_primary"@[1] == 'e' && "replace_primary"@[2] == 'p');
    law_object_holds_its_entries(pairs, 0, "conversation_id"@);
    law_object_holds_its_entries(pairs, 1, "role"@);
    law_object_holds_its_entries(pairs, 2, "replace_primary"@);
}

/// Work is sent to the task that is named, word for word.
pub proof fn law_work_is_sent_word_for_word(task_id: Seq<char>, content: Seq<char>)
    ensures
        dispatch_task_request(task_id, content).method == ApiMethod::Post,
        dispatch_task_request(task_id, content).path == "/api/steward/tasks/"@ + task_id + "/dispatch"@,
        dispatch_task_request(task_id, content).query.len() == 0,
        dispatch_task_request(task_id, content).body is Some,
        text_field(dispatch_task_request(task_id, content).body.unwrap(), "content"@) == Some(content),
{
    let pairs = seq![
        ("content"@, JsonView::Text(content)),
    ];
    reveal_strlit("content");
    assert("content"@.len() == 7 && "content"@[0] == 'c' && "content"@[1] == 'o' && "content"@[2] == 'n');
    law_object_holds_its_entries(pairs, 0, "content"@);
}

/// A question goes to the leader of the task that is named, word for word.
pub proof fn law_a_question_is_put_word_for_word(task_id: Seq<char>, content: Seq<char>)
    ensures
        ask_task_request(task_id, content).method == ApiMethod::Post,
        ask_task_request(task_id, content).path == "/api/steward/tasks/"@ + task_id + "/ask"@,
        ask_task_request(task_id, content).query.len() == 0,
        ask_task_request(task_id, content).body is Some,
        text_field(ask_task_request(task_id, content).body.unwrap(), "content"@) == Some(content),
{
    let pairs = seq![
        ("content"@, JsonView::Text(content)),
    ];
    reveal_strlit("content");
    assert("content"@.len() == 7 && "content"@[0] == 'c' && "content"@[1] == 'o' && "content"@[2] == 'n');
    law_object_holds_its_entries(pairs, 0, "content"@);
}

/// A task is resumed, and restarted only where that is said.
pub proof fn law_a_task_is_restarted_only_on_demand(task_id: Seq<char>, restart: Option<bool>)
    ensures
        resume_task_request(task_id, restart).method == ApiMethod::Post,
        resume_task_request(task_id, restart).path == "/api/steward/tasks/"@ + task_id + "/resume"@,
        resume_task_request(task_id, restart).query.len() == 0,
        resume_task_request(task_id, restart).body is Some,
        bool_field(resume_task_request(task_id, restart).body.unwrap(), "restart"@) == Some((restart == Some(true))),
{
    let pairs = seq![
        ("restart"@, JsonView::Bool(flag(restart))),
    ];
    reveal_strlit("restart");
    assert("restart"@.len() == 7 && "restart"@[0] == 'r' && "restart"@[1] == 'e' && "restart"@[2] == 's');
    law_object_holds_its_entries(pairs, 0, "restart"@);
}

/// Tasks are listed by the words, the lifecycle and the limit that are given, and by nothing
/// else; one task is looked at under its own identifier.
pub proof fn law_lists_are_asked_for_by_what_is_given(params: ListTasksParams, task_id: Seq<char>)
    ensures
        list_tasks_request(params).method == ApiMethod::Get,
        list_tasks_request(params).path == "/api/steward/tasks"@,
        list_tasks_request(params).body is None,
        params.query matches Some(q) ==> list_tasks_request(params).query.contains(("query"@, q@)),
        params.lifecycle matches Some(l) ==> list_tasks_request(params).query.contains(("lifecycle"@, l@)),
        params.limit matches Some(n) ==> list_tasks_request(params).query.contains(("limit"@, decimal(n as nat))),
        params.query is None && params.lifecycle is None && params.limit is None ==> list_tasks_request(
            params,
        ).query.len() == 0,
        inspect_task_request(task_id).method == ApiMethod::Get,
        inspect_task_request(task_id).path == "/api/steward/tasks/"@ + task_id,
        inspect_task_request(task_id).query.len() == 0,
{
    let query = list_tasks_request(params).query;
    let words = query_pair("query"@, opt_view(params.query));
    let lifecycle = query_pair("lifecycle"@, opt_view(params.lifecycle));
    if let Some(q) = params.query {
        assert(query[0] == ("query"@, q@));
    }
    if let Some(l) = params.lifecycle {
        assert(query[words.len() as int] == ("lifecycle"@, l@));
    }
    if let Some(n) = params.limit {
        assert(query[(words.len() + lifecycle.len()) as int] == ("limit"@, decimal(n as nat)));
    }
}

/// What is archived is listed up to the limit that is given, which lies between 1 and 100; it
/// is 100 without one.
pub proof fn law_the_archive_is_listed_to_its_limit(limit: Option<u32>)
    ensures
        list_archived_request(limit).method == ApiMethod::Get,
        list_archived_request(limit).path == "/api/sidebar"@,
        list_archived_request(limit).query.contains(("archived"@, "true"@)),
        limit is None ==> list_archived_request(limit).query.contains(("limit"@, decimal(100))),
        limit matches Some(n) ==> {
            &&& 1 <= n <= 100 ==> list_archived_request(limit).query.contains(("limit"@, decimal(n as nat)))
            &&& n > 100 ==> list_archived_request(limit).query.contains(("limit"@, decimal(100)))
            &&& n == 0 ==> list_archived_request(limit).query.contains(("limit"@, decimal(1)))
        },
{
    let query = list_archived_request(limit).query;
    assert(query[0] == ("archived"@, "true"@));
    assert(query[1] == ("limit"@, decimal(archive_limit(limit))));
}

/// The tools speak for the user and the conversation that the environment names, and fail by
/// the name of the first variable that is missing or blank.
pub proof fn law_the_environment_names_all_four(
    base_url: Option<Seq<char>>,
    user_id: Option<Seq<char>>,
    conversation_id: Option<Seq<char>>,
    token: Option<Seq<char>>,
)
    ensures
        environment(base_url, user_id, conversation_id, token) matches Ok(env) ==> base_url == Some(env.base_url)
            && user_id == Some(env.user_id) && conversation_id == Some(env.conversation_id) && token == Some(env.token)
            && trimmed(env.base_url).len() > 0 && trimmed(env.user_id).len() > 0 && trimmed(env.conversation_id).len()
            > 0 && trimmed(env.token).len() > 0,
        base_url is Some && trimmed(base_url.unwrap()).len() > 0 && user_id is Some && trimmed(user_id.unwrap()).len()
            > 0 && conversation_id is Some && trimmed(conversation_id.unwrap()).len() > 0 && token is Some && trimmed(
            token.unwrap(),
        ).len() > 0 ==> environment(base_url, user_id, conversation_id, token) is Ok,
        base_url is None ==> environment(base_url, user_id, conversation_id, token) == Err::<
            RuntimeEnvView,
            Seq<char>,
        >("AIONUI_BASE_URL"@),
        base_url is Some && trimmed(base_url.unwrap()).len() > 0 && user_id is None ==> environment(
            base_url,
            user_id,
            conversation_id,
            token,
        ) == Err::<RuntimeEnvView, Seq<char>>("AIONUI_USER_ID"@),
{
}

/// An answer is its data, or all of it where it holds none; it is an error if the server says
/// so by its status or in the answer itself, and then it hands on the server's own words.
pub proof fn law_an_answer_is_its_data(success: bool, status: Seq<char>, value: JsonView)
    ensures
        !success ==> answer_data(success, status, value) is Err,
        bool_field(value, "success"@) == Some(false) ==> answer_data(success, status, value) is Err,
        success && bool_field(value, "success"@) != Some(false) ==> answer_data(success, status, value) is Ok,
        answer_data(success, status, value) matches Ok(x) ==> {
            &&& field(value, "data"@) matches Some(d) ==> x == d
            &&& field(value, "data"@) is None ==> x == value
        },
        answer_data(success, status, value) matches Err(e) ==> (text_field(value, "error"@) matches Some(m)
            ==> has_prefix(e, m)) && has_suffix(e, status + ")"@),
{
    if let Err(e) = answer_data(success, status, value) {
        if let Some(m) = text_field(value, "error"@) {
            assert(e.take(m.len() as int) =~= m);
        }
        let tail = status + ")"@;
        assert(e.skip(e.len() - tail.len()) =~= tail);
    }
}

/// A conversation can be archived and restored by its own identifier and name, unless it is
/// the steward's own or marked as one, a teammate, or of a team without leading it; the one
/// that leads a team stands for all of it.
pub proof fn law_control_reaches_the_right_target(
    steward_conversation_id: Seq<char>,
    conversation: JsonView,
    extra: JsonView,
    id: Seq<char>,
)
    requires
        text_field(conversation, "id"@) == Some(id),
        trimmed(id).len() > 0,
        field(conversation, "extra"@) == Some(extra),
    ensures
        id == steward_conversation_id ==> control_target(steward_conversation_id, conversation) is Err,
        bool_field(extra, "steward"@) == Some(true) ==> control_target(steward_conversation_id, conversation) is Err,
        text_field(extra, "role"@) == Some("teammate"@) ==> control_target(
            steward_conversation_id,
            conversation,
        ) is Err,
        text_field(extra, "role"@) != Some("lead"@) && text_field(extra, "teamId"@) is Some && trimmed(
            text_field(extra, "teamId"@).unwrap(),
        ).len() > 0 ==> control_target(steward_conversation_id, conversation) is Err,
        id != steward_conversation_id && bool_field(extra, "steward"@) != Some(true) && text_field(extra, "role"@)
            == Some("lead"@) && text_field(extra, "teamId"@) is Some && trimmed(
            text_field(extra, "teamId"@).unwrap(),
        ).len() > 0 ==> (control_target(steward_conversation_id, conversation) matches Ok(t)
            && t matches ControlTargetView::Team { conversation_id, team_id, .. } && conversation_id == id && team_id
            == text_field(extra, "teamId"@).unwrap()),
        id != steward_conversation_id && bool_field(extra, "steward"@) != Some(true) && text_field(extra, "role"@)
            != Some("teammate"@) && field(extra, "teamId"@) is None && field(extra, "team_id"@) is None ==> (
        control_target(steward_conversation_id, conversation) matches Ok(t)
            && t matches ControlTargetView::Conversation { conversation_id, conversation_name } && conversation_id == id
            && (text_field(conversation, "name"@) is Some && trimmed(
            text_field(conversation, "name"@).unwrap(),
        ).len() > 0 ==> conversation_name == text_field(conversation, "name"@).unwrap()) && (text_field(
            conversation,
            "name"@,
        ) is None ==> conversation_name == id)),
{
    reveal_strlit("lead");
    reveal_strlit("teammate");
    assert("lead"@.len() == 4 && "teammate"@.len() == 8);
}

/// A team is archived and restored under its own identifier and a conversation under its, and
/// the answer says which of the two was done, to what, and that it can be undone.
pub proof fn law_archiving_addresses_the_target(target: ControlTargetView, archived: bool)
    ensures
        target matches ControlTargetView::Conversation { conversation_id, .. } ==> has_prefix(
            archive_path(target, archived),
            "/api/sidebar/"@ + "conversation"@ + "/"@ + conversation_id,
        ) && text_field(archive_answer(target, archived), "conversation_id"@) == Some(conversation_id) && text_field(
            archive_answer(target, archived),
            "affected_scope"@,
        ) == Some("conversation"@),
        target matches ControlTargetView::Team { team_id, conversation_id, .. } ==> has_prefix(
            archive_path(target, archived),
            "/api/sidebar/"@ + "team"@ + "/"@ + team_id,
        ) && text_field(archive_answer(target, archived), "conversation_id"@) == Some(conversation_id) && text_field(
            archive_answer(target, archived),
            "affected_scope"@,
        ) == Some("team"@) && text_field(archive_answer(target, archived), "team_id"@) == Some(team_id),
        archived ==> has_suffix(archive_path(target, archived), "/archive"@),
        !archived ==> has_suffix(archive_path(target, archived), "/unarchive"@),
        bool_field(archive_answer(target, archived), "archived"@) == Some(archived),
        bool_field(archive_answer(target, archived), "reversible"@) == Some(true),
{
    let path = archive_path(target, archived);
    let head = "/api/sidebar/"@ + scope_of(target) + "/"@ + target_id(target);
    let tail = if archived {
        "/archive"@
    } else {
        "/unarchive"@
    };
    assert(path.take(head.len() as int) =~= head);
    assert(path.skip(path.len() - tail.len()) =~= tail);
    let (id, name, team) = match target {
        ControlTargetView::Conversation { conversation_id, conversation_name } => (
            conversation_id,
            conversation_name,
            None::<Seq<char>>,
        ),
        ControlTargetView::Team { conversation_id, conversation_name, team_id } => (
            conversation_id,
            conversation_name,
            Some(team_id),
        ),
    };
    let pairs = seq![
        ("conversation_id"@, JsonView::Text(id)),
        ("conversation_name"@, JsonView::Text(name)),
        ("archived"@, JsonView::Bool(archived)),
        ("affected_scope"@, JsonView::Text(scope_of(target))),
        ("team_id"@, text_or_null(team)),
        ("reversible"@, JsonView::Bool(true)),
    ];
    reveal_strlit("conversation_id");
    assert("conversation_id"@.len() == 15 && "conversation_id"@[0] == 'c' && "conversation_id"@[1] == 'o' && "conversation_id"@[2] == 'n');
    reveal_strlit("conversation_name");
    assert("conversation_name"@.len() == 17 && "conversation_name"@[0] == 'c' && "conversation_name"@[1] == 'o' && "conversation_name"@[2] == 'n');
    reveal_strlit("archived");
    assert("archived"@.len() == 8 && "archived"@[0] == 'a' && "archived"@[1] == 'r' && "archived"@[2] == 'c');
    reveal_strlit("affected_scope");
    assert("affected_scope"@.len() == 14 && "affected_scope"@[0] == 'a' && "affected_scope"@[1] == 'f' && "affected_scope"@[2] == 'f');
    reveal_strlit("team_id");
    assert("team_id"@.len() == 7 && "team_id"@[0] == 't' && "team_id"@[1] == 'e' && "team_id"@[2] == 'a');
    reveal_strlit("reversible");
    assert("reversible"@.len() == 10 && "reversible"@[0] == 'r' && "reversible"@[1] == 'e' && "reversible"@[2] == 'v');
    law_object_holds_its_entries(pairs, 0, "conversation_id"@);
    law_object_holds_its_entries(pairs, 2, "archived"@);
    law_object_holds_its_entries(pairs, 3, "affected_scope"@);
    law_object_holds_its_entries(pairs, 4, "team_id"@);
    law_object_holds_its_entries(pairs, 5, "reversible"@);
}

} // verus!
