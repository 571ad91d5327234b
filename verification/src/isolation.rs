//! The boundary around the steward's own processes.
use vstd::prelude::*;
use crate::launch::{
    env_with, law_a_set_variable_has_its_value, law_setting_leaves_the_others, times_named, upsert_command_env, upsert_pair, CommandSpec, CommandSpecView,
    EnvVar, EnvVarView,
};
use crate::paths::{below, join_path, same_path, are_same};
use crate::text::{has_prefix, has_suffix, has_text, occurs_at, opt_view, same, trim, trimmed, views};

verus! {

/// Why an agent could not be given what it needs.
#[derive(Debug, Clone, PartialEq, Eq)]
pub enum AgentError {
    BadRequest(String),
    Conflict(String),
    Internal(String),
}

/// The model of [`AgentError`].
#[verifier::ext_equal]
pub enum AgentErrorView {
    BadRequest(Seq<char>),
    Conflict(Seq<char>),
    Internal(Seq<char>),
}

impl View for AgentError {
    type V = AgentErrorView;

    open spec fn view(&self) -> AgentErrorView {
        match *self {
            AgentError::BadRequest(m) => AgentErrorView::BadRequest(m@),
            AgentError::Conflict(m) => AgentErrorView::Conflict(m@),
            AgentError::Internal(m) => AgentErrorView::Internal(m@),
        }
    }
}

/// A result with the models of what it holds.
pub open spec fn agent_result<T: View>(r: Result<T, AgentError>) -> Result<T::V, AgentErrorView> {
    match r {
        Ok(x) => Ok(x@),
        Err(e) => Err(e@),
    }
}

// ---------------------------------------------------------------------
// The scope of a user
// ---------------------------------------------------------------------

/// The digest that [`sha256`] computes.
pub uninterp spec fn sha256_digest(bytes: Seq<u8>) -> Seq<u8>;

/// Computes `sha2::Sha256::digest`: 32 bytes that depend on the given bytes alone.
#[verifier::external_body]
fn sha256(bytes: &[u8]) -> (r: Vec<u8>)
    ensures
        r@ == sha256_digest(bytes@),
        r@.len() == 32,
{
    <sha2::Sha256 as sha2::Digest>::digest(bytes).to_vec()
}

/// The digit of a value below 16.
pub open spec fn hex_digit(d: int) -> char {
    if d < 10 {
        (('0' as int) + d) as char
    } else {
        (('a' as int) + d - 10) as char
    }
}

/// Two digits for each byte, the higher one first.
pub open spec fn hex_text(bytes: Seq<u8>) -> Seq<char> {
    Seq::new(
        2 * bytes.len(),
        |i: int|
            if i % 2 == 0 {
                hex_digit(bytes[i / 2] as int / 16)
            } else {
                hex_digit(bytes[i / 2] as int % 16)
            },
    )
}

/// Writes bytes with `hex::encode`: two digits for each byte, the higher one first, with
/// small letters.
#[verifier::external_body]
fn hex_encode(bytes: &[u8]) -> (r: String)
    ensures
        r@ == hex_text(bytes@),
{
    hex::encode(bytes)
}

/// The scope that the digest of a user's identifier gives.
pub open spec fn scope_of(user_id: Seq<char>) -> Seq<char> {
    scope_of_digest(sha256_digest(vstd::utf8::encode_utf8(user_id)))
}

/// The scope that a digest gives.
pub open spec fn scope_of_digest(digest: Seq<u8>) -> Seq<char> {
    hex_text(digest.take(12))
}

/// Makes a scope of a digest.
pub fn digest_scope(digest: &Vec<u8>) -> (r: String)
    requires
        digest@.len() >= 12,
    ensures
        r@ == scope_of_digest(digest@),
{
    assert(digest@.subrange(0, 12) =~= digest@.take(12));
    hex_encode(vstd::slice::slice_subrange(digest.as_slice(), 0, 12))
}

/// A name for a directory that stands for a user and tells nothing of the identifier.
pub fn stable_user_scope(user_id: &str) -> (r: String)
    ensures
        r@ == scope_of(user_id@),
        is_scope(r@),
{
    let digest = sha256(user_id.as_bytes());
    proof {
        law_scope_is_a_plain_name(digest@);
    }
    digest_scope(&digest)
}

/// Whether a character is a digit or one of the first six small letters.
pub open spec fn is_hex(c: char) -> bool {
    ('0' <= c && c <= '9') || ('a' <= c && c <= 'f')
}

/// Whether a text has the form of a scope: 24 digits.
pub open spec fn is_scope(s: Seq<char>) -> bool {
    s.len() == 24 && forall|i: int| 0 <= i < s.len() ==> is_hex(#[trigger] s[i])
}

/// A scope is a plain name of 24 digits, whatever the identifier looks like: it leads to no
/// other directory.
pub proof fn law_scope_is_a_plain_name(digest: Seq<u8>)
    requires
        digest.len() >= 12,
    ensures
        is_scope(scope_of_digest(digest)),
{
    let s = scope_of_digest(digest);
    assert forall|i: int| 0 <= i < s.len() implies is_hex(#[trigger] s[i]) by {
        let b = digest.take(12)[i / 2];
        assert(0 <= b as int / 16 < 16);
    }
}

// ---------------------------------------------------------------------
// The layout
// ---------------------------------------------------------------------

/// The private home and workspace of the steward. It does not inherit the home, the instructions
/// or the tools of the person it works for; only the means of authentication are linked.
#[derive(Debug, Clone, PartialEq, Eq)]
pub struct StewardIsolation {
    pub backend: String,
    pub home_dir: String,
    pub config_dir: String,
    pub workspace_dir: String,
    pub skills_dir: String,
    pub auth_linked: bool,
}

/// The model of [`StewardIsolation`].
#[verifier::ext_equal]
pub struct StewardIsolationView {
    pub backend: Seq<char>,
    pub home_dir: Seq<char>,
    pub config_dir: Seq<char>,
    pub workspace_dir: Seq<char>,
    pub skills_dir: Seq<char>,
    pub auth_linked: bool,
}

impl View for StewardIsolation {
    type V = StewardIsolationView;

    open spec fn view(&self) -> StewardIsolationView {
        StewardIsolationView {
            backend: self.backend@,
            home_dir: self.home_dir@,
            config_dir: self.config_dir@,
            workspace_dir: self.workspace_dir@,
            skills_dir: self.skills_dir@,
            auth_linked: self.auth_linked,
        }
    }
}

impl StewardIsolation {
    /// A copy with the same content.
    pub fn copy(&self) -> (r: StewardIsolation)
        ensures
            r@ == self@,
    {
        StewardIsolation {
            backend: self.backend.clone(),
            home_dir: self.home_dir.clone(),
            config_dir: self.config_dir.clone(),
            workspace_dir: self.workspace_dir.clone(),
            skills_dir: self.skills_dir.clone(),
            auth_linked: self.auth_linked,
        }
    }
}

/// A link that is to be there.
#[derive(Debug, Clone)]
pub struct LinkStep {
    pub source: String,
    pub destination: String,
    pub is_dir: bool,
}

/// The model of [`LinkStep`].
#[verifier::ext_equal]
pub struct LinkStepView {
    pub source: Seq<char>,
    pub destination: Seq<char>,
    pub is_dir: bool,
}

impl View for LinkStep {
    type V = LinkStepView;

    open spec fn view(&self) -> LinkStepView {
        LinkStepView {
            source: self.source@,
            destination: self.destination@,
            is_dir: self.is_dir,
        }
    }
}

impl LinkStep {
    /// A copy with the same content.
    pub fn copy(&self) -> (r: LinkStep)
        ensures
            r@ == self@,
    {
        LinkStep {
            source: self.source.clone(),
            destination: self.destination.clone(),
            is_dir: self.is_dir,
        }
    }
}

/// What it takes to set up the private home.
#[derive(Debug, Clone)]
pub struct IsolationPlan {
    pub isolation: StewardIsolation,
    pub directories: Vec<String>,
    pub skills_link: LinkStep,
    pub source_auth: String,
    pub isolated_auth: String,
}

/// The model of [`IsolationPlan`].
#[verifier::ext_equal]
pub struct IsolationPlanView {
    pub isolation: StewardIsolationView,
    pub directories: Seq<Seq<char>>,
    pub skills_link: LinkStepView,
    pub source_auth: Seq<char>,
    pub isolated_auth: Seq<char>,
}

impl View for IsolationPlan {
    type V = IsolationPlanView;

    open spec fn view(&self) -> IsolationPlanView {
        IsolationPlanView {
            isolation: self.isolation@,
            directories: views(self.directories@),
            skills_link: self.skills_link@,
            source_auth: self.source_auth@,
            isolated_auth: self.isolated_auth@,
        }
    }
}

/// Whether agents of this kind are given a private home.
pub open spec fn is_isolated_backend(backend: Seq<char>) -> bool {
    backend == "codex"@ || backend == "qoder"@
}

/// Whether agents of this kind are given a private home.
pub fn supports_isolation(backend: &str) -> (r: bool)
    ensures
        r == is_isolated_backend(backend@),
{
    same(backend, "codex") || same(backend, "qoder")
}

/// The directory that holds everything of a user's steward.
pub open spec fn runtime_root(data_dir: Seq<char>, scope: Seq<char>) -> Seq<char> {
    below(below(data_dir, "steward-runtime"@), scope)
}

/// The private home below a root.
pub open spec fn layout(root: Seq<char>, backend: Seq<char>) -> StewardIsolationView {
    StewardIsolationView {
        backend,
        home_dir: below(root, "home"@),
        config_dir: below(
            below(root, "home"@),
            if backend == "codex"@ {
                ".codex"@
            } else {
                ".qoder"@
            },
        ),
        workspace_dir: below(root, "workspace"@),
        skills_dir: below(below(root, "workspace"@), "skills"@),
        auth_linked: false,
    }
}

/// Everything it takes to set up the private home: its directories, the link to the skills,
/// and where the means of authentication are and go.
pub open spec fn isolation_plan(
    root: Seq<char>,
    backend: Seq<char>,
    source_home: Seq<char>,
) -> IsolationPlanView {
    let l = layout(root, backend);
    IsolationPlanView {
        isolation: l,
        directories: seq![l.home_dir, l.workspace_dir, l.skills_dir, l.config_dir],
        skills_link: LinkStepView {
            source: l.skills_dir,
            destination: below(l.config_dir, "skills"@),
            is_dir: true,
        },
        source_auth: below(
            source_home,
            if backend == "codex"@ {
                ".codex/auth.json"@
            } else {
                ".qoder/.auth"@
            },
        ),
        isolated_auth: below(
            l.config_dir,
            if backend == "codex"@ {
                "auth.json"@
            } else {
                ".auth"@
            },
        ),
    }
}

/// The plan for a user's steward; an error for an agent of another kind.
pub open spec fn plan_for(
    data_dir: Seq<char>,
    user_id: Seq<char>,
    backend: Seq<char>,
    source_home: Seq<char>,
) -> Result<IsolationPlanView, AgentErrorView> {
    if is_isolated_backend(backend) {
        Ok(isolation_plan(runtime_root(data_dir, scope_of(user_id)), backend, source_home))
    } else {
        Err(AgentErrorView::BadRequest("unsupported steward isolation backend"@))
    }
}

/// Plans the private home below a root.
pub fn plan_layout(root: &str, backend: &str, source_home: &str) -> (r: IsolationPlan)
    ensures
        r@ == isolation_plan(root@, backend@, source_home@),
{
    let codex = same(backend, "codex");
    let home_dir = join_path(root, "home");
    let workspace_dir = join_path(root, "workspace");
    let skills_dir = join_path(workspace_dir.as_str(), "skills");
    let config_dir = if codex {
        join_path(home_dir.as_str(), ".codex")
    } else {
        join_path(home_dir.as_str(), ".qoder")
    };
    let source_auth = if codex {
        join_path(source_home, ".codex/auth.json")
    } else {
        join_path(source_home, ".qoder/.auth")
    };
    let isolated_auth = if codex {
        join_path(config_dir.as_str(), "auth.json")
    } else {
        join_path(config_dir.as_str(), ".auth")
    };
    let mut directories: Vec<String> = Vec::new();
    directories.push(home_dir.clone());
    directories.push(workspace_dir.clone());
    directories.push(skills_dir.clone());
    directories.push(config_dir.clone());
    let skills_link = LinkStep {
        source: skills_dir.clone(),
        destination: join_path(config_dir.as_str(), "skills"),
        is_dir: true,
    };
    assert(views(directories@) =~= seq![home_dir@, workspace_dir@, skills_dir@, config_dir@]);
    IsolationPlan {
        isolation: StewardIsolation {
            backend: backend.to_owned(),
            home_dir,
            config_dir,
            workspace_dir,
            skills_dir,
            auth_linked: false,
        },
        directories,
        skills_link,
        source_auth,
        isolated_auth,
    }
}

/// Plans the private home of a user's steward.
pub fn prepare_with_home(data_dir: &str, user_id: &str, backend: &str, source_home: &str) -> (r: Result<
    IsolationPlan,
    AgentError,
>)
    ensures
        agent_result(r) == plan_for(data_dir@, user_id@, backend@, source_home@),
{
    if !supports_isolation(backend) {
        return Err(AgentError::BadRequest("unsupported steward isolation backend".to_owned()));
    }
    let scope = stable_user_scope(user_id);
    let root = join_path(join_path(data_dir, "steward-runtime").as_str(), scope.as_str());
    Ok(plan_layout(root.as_str(), backend, source_home))
}

/// Plans the private home of a user's steward where agents of this kind have one. The home
/// of the person is needed then.
pub fn prepare(data_dir: &str, user_id: &str, backend: &str, source_home: Option<&str>) -> (r: Result<
    Option<IsolationPlan>,
    AgentError,
>)
    ensures
        match r {
            Ok(None) => !is_isolated_backend(backend@),
            Ok(Some(p)) => is_isolated_backend(backend@) && source_home is Some && Ok::<_, AgentErrorView>(p@)
                == plan_for(data_dir@, user_id@, backend@, source_home.unwrap()@),
            Err(e) => is_isolated_backend(backend@) && source_home is None && e@ == AgentErrorView::Internal(
                "cannot resolve the user home needed for steward authentication"@,
            ),
        },
{
    if !supports_isolation(backend) {
        return Ok(None);
    }
    match source_home {
        None => Err(
            AgentError::Internal("cannot resolve the user home needed for steward authentication".to_owned()),
        ),
        Some(home) => match prepare_with_home(data_dir, user_id, backend, home) {
            Ok(p) => Ok(Some(p)),
            Err(e) => Err(e),
        },
    }
}

/// In which form the means of authentication are there.
#[derive(Debug, Clone, Copy, PartialEq, Eq, Structural)]
pub enum AuthKind {
    File,
    Directory,
    Missing,
}

/// The link that gives the steward the user's credentials, where there are any.
pub open spec fn auth_step(plan: IsolationPlanView, found: AuthKind) -> Option<LinkStepView> {
    if found is Missing {
        None
    } else {
        Some(
            LinkStepView {
                source: plan.source_auth,
                destination: plan.isolated_auth,
                is_dir: found is Directory,
            },
        )
    }
}

/// The isolation once the credentials were looked for.
pub open spec fn finished(plan: IsolationPlanView, found: AuthKind) -> StewardIsolationView {
    StewardIsolationView { auth_linked: !(found is Missing), ..plan.isolation }
}

impl IsolationPlan {
    /// The link to the means of authentication: as a unit, whether they are a file or a
    /// directory, and none where they are missing.
    pub fn auth_link(&self, found: AuthKind) -> (r: Option<LinkStep>)
        ensures
            opt_view(r) == if found == AuthKind::Missing {
                None
            } else {
                Some(
                    LinkStepView {
                        source: self@.source_auth,
                        destination: self@.isolated_auth,
                        is_dir: found == AuthKind::Directory,
                    },
                )
            },
            opt_view(r) == auth_step(self@, found),
    {
        match found {
            AuthKind::Missing => None,
            _ => Some(
                LinkStep {
                    source: self.source_auth.clone(),
                    destination: self.isolated_auth.clone(),
                    is_dir: found == AuthKind::Directory,
                },
            ),
        }
    }

    /// The private home once everything is set up.
    pub fn finish(&self, found: AuthKind) -> (r: StewardIsolation)
        ensures
            r@ == (StewardIsolationView { auth_linked: found != AuthKind::Missing, ..self@.isolation }),
            r@ == finished(self@, found),
    {
        let mut isolation = self.isolation.copy();
        isolation.auth_linked = match found {
            AuthKind::Missing => false,
            _ => true,
        };
        isolation
    }
}

/// Everything that belongs to the private home lies below the runtime directory.
pub proof fn law_everything_stays_below_the_runtime_directory(
    data_dir: Seq<char>,
    scope: Seq<char>,
    backend: Seq<char>,
    source_home: Seq<char>,
)
    ensures
        ({
            let top = below(data_dir, "steward-runtime"@);
            let p = isolation_plan(runtime_root(data_dir, scope), backend, source_home);
            &&& has_prefix(p.isolation.home_dir, top)
            &&& has_prefix(p.isolation.config_dir, top)
            &&& has_prefix(p.isolation.workspace_dir, top)
            &&& has_prefix(p.isolation.skills_dir, top)
            &&& has_prefix(p.skills_link.destination, top)
            &&& has_prefix(p.isolated_auth, top)
        }),
{
    let top = below(data_dir, "steward-runtime"@);
    let root = runtime_root(data_dir, scope);
    let l = layout(root, backend);
    let p = isolation_plan(root, backend, source_home);
    reveal_strlit("steward-runtime");
    reveal_strlit("home");
    reveal_strlit("workspace");
    lemma_below_extends(top, scope);
    lemma_extends_further(top, root, "home"@);
    lemma_extends_further(top, root, "workspace"@);
    lemma_extends_further(top, l.workspace_dir, "skills"@);
    lemma_extends_further(top, l.home_dir, ".codex"@);
    lemma_extends_further(top, l.home_dir, ".qoder"@);
    lemma_extends_further(top, l.config_dir, "skills"@);
    lemma_extends_further(top, l.config_dir, "auth.json"@);
    lemma_extends_further(top, l.config_dir, ".auth"@);
}

proof fn lemma_below_extends(base: Seq<char>, part: Seq<char>)
    ensures
        has_prefix(below(base, part), base),
{
    assert(below(base, part).take(base.len() as int) =~= base);
}

proof fn lemma_extends_further(top: Seq<char>, base: Seq<char>, part: Seq<char>)
    requires
        has_prefix(base, top),
    ensures
        has_prefix(below(base, part), top),
{
    lemma_below_extends(base, part);
    assert(below(base, part).take(top.len() as int) =~= base.take(top.len() as int));
}

proof fn lemma_hex_text_tells_apart(a: Seq<u8>, b: Seq<u8>)
    requires
        a.len() == b.len(),
        hex_text(a) == hex_text(b),
    ensures
        a == b,
{
    assert forall|k: int| 0 <= k < a.len() implies a[k] == b[k] by {
        let i = 2 * k;
        assert(hex_text(a)[i] == hex_digit(a[k] as int / 16));
        assert(hex_text(b)[i] == hex_digit(b[k] as int / 16));
        assert(hex_text(a)[i + 1] == hex_digit(a[k] as int % 16));
        assert(hex_text(b)[i + 1] == hex_digit(b[k] as int % 16));
    }
    assert(a =~= b);
}

/// Two users have their stewards in different places if the digests of their identifiers
/// differ in the bytes that make up a scope.
pub proof fn law_scopes_part_users(data_dir: Seq<char>, a: Seq<u8>, b: Seq<u8>)
    requires
        a.len() >= 12,
        b.len() >= 12,
        a.take(12) != b.take(12),
    ensures
        runtime_root(data_dir, scope_of_digest(a)) != runtime_root(data_dir, scope_of_digest(b)),
{
    let top = below(data_dir, "steward-runtime"@);
    let (m, n) = (scope_of_digest(a), scope_of_digest(b));
    let x = runtime_root(data_dir, m);
    let y = runtime_root(data_dir, n);
    if x == y {
        assert(x.skip(x.len() - m.len()) =~= m);
        assert(y.skip(y.len() - n.len()) =~= n);
        lemma_hex_text_tells_apart(a.take(12), b.take(12));
    }
}

// ---------------------------------------------------------------------
// Links
// ---------------------------------------------------------------------

/// What stands where a link is to be.
#[derive(Debug, Clone)]
pub enum LinkState {
    Absent,
    NotALink,
    LinkTo(String),
}

/// What is to be done for a link.
#[derive(Debug, Clone, Copy, PartialEq, Eq, Structural)]
pub enum LinkAction {
    Create,
    Keep,
}

impl View for LinkAction {
    type V = LinkAction;

    open spec fn view(&self) -> LinkAction {
        *self
    }
}

/// The model of [`LinkState`].
#[verifier::ext_equal]
pub enum LinkStateView {
    Absent,
    NotALink,
    LinkTo(Seq<char>),
}

impl View for LinkState {
    type V = LinkStateView;

    open spec fn view(&self) -> LinkStateView {
        match *self {
            LinkState::Absent => LinkStateView::Absent,
            LinkState::NotALink => LinkStateView::NotALink,
            LinkState::LinkTo(target) => LinkStateView::LinkTo(target@),
        }
    }
}

/// What is to be done for a link. Nothing that stands in its place is ever overwritten.
pub open spec fn link_action(source: Seq<char>, destination: Seq<char>, found: LinkStateView) -> Result<
    LinkAction,
    AgentErrorView,
> {
    match found {
        LinkStateView::Absent => Ok(LinkAction::Create),
        LinkStateView::NotALink => Err(
            AgentErrorView::Conflict(
                "steward isolation path already exists and is not a link: "@ + destination,
            ),
        ),
        LinkStateView::LinkTo(target) => if are_same(target, source) {
            Ok(LinkAction::Keep)
        } else {
            Err(
                AgentErrorView::Conflict(
                    "steward isolation link points to an unexpected target: "@ + destination,
                ),
            )
        },
    }
}

/// Decides what is to be done for a link.
pub fn ensure_link(step: &LinkStep, found: &LinkState) -> (r: Result<LinkAction, AgentError>)
    ensures
        agent_result(r) == link_action(step@.source, step@.destination, found@),
{
    match found {
        LinkState::Absent => Ok(LinkAction::Create),
        LinkState::NotALink => {
            let mut m = "steward isolation path already exists and is not a link: ".to_owned();
            m.append(step.destination.as_str());
            Err(AgentError::Conflict(m))
        },
        LinkState::LinkTo(target) => {
            if same_path(target.as_str(), step.source.as_str()) {
                Ok(LinkAction::Keep)
            } else {
                let mut m = "steward isolation link points to an unexpected target: ".to_owned();
                m.append(step.destination.as_str());
                Err(AgentError::Conflict(m))
            }
        },
    }
}

/// A link is made only where nothing stands, and setting up the private home a second time
/// finds its own links and keeps them.
pub proof fn law_links_are_kept(source: Seq<char>, destination: Seq<char>, found: LinkStateView)
    ensures
        link_action(source, destination, found) == Ok::<LinkAction, AgentErrorView>(LinkAction::Create) <==> found
            is Absent,
        found == LinkStateView::LinkTo(source) ==> link_action(source, destination, found)
            == Ok::<LinkAction, AgentErrorView>(LinkAction::Keep),
{
}

/// The error of an operation on a file.
pub fn isolation_io_error(action: &str, path: &str, error: &str) -> (r: AgentError)
    ensures
        r@ == AgentErrorView::Internal(
            "failed to "@ + action@ + " for steward isolation at "@ + path@ + ": "@ + error@,
        ),
{
    let mut m = "failed to ".to_owned();
    m.append(action);
    m.append(" for steward isolation at ");
    m.append(path);
    m.append(": ");
    m.append(error);
    AgentError::Internal(m)
}

/// Where the keychain of a person is.
pub fn login_keychain(source_home: &str) -> (r: String)
    ensures
        r@ == below(source_home@, "Library/Keychains/login.keychain-db"@),
{
    join_path(source_home, "Library/Keychains/login.keychain-db")
}

/// Where the preferences of a home are.
pub fn preferences_dir(home_dir: &str) -> (r: String)
    ensures
        r@ == below(home_dir@, "Library/Preferences"@),
{
    join_path(home_dir, "Library/Preferences")
}

/// The command that makes a keychain the default one of a home directory.
pub open spec fn keychain_command(home_dir: Seq<char>, keychain: Seq<char>) -> CommandSpecView {
    CommandSpecView {
        command: "/usr/bin/security"@,
        args: seq!["default-keychain"@, "-d"@, "user"@, "-s"@, keychain],
        env: seq![EnvVarView { name: "HOME"@, value: home_dir }],
        cwd: None,
    }
}

/// The command that makes a keychain the default of a home.
pub fn default_keychain_command(home_dir: &str, keychain: &str) -> (r: CommandSpec)
    ensures
        r@ == (CommandSpecView {
            command: "/usr/bin/security"@,
            args: seq!["default-keychain"@, "-d"@, "user"@, "-s"@, keychain@],
            env: seq![EnvVarView { name: "HOME"@, value: home_dir@ }],
            cwd: None,
        }),
        r@ == keychain_command(home_dir@, keychain@),
{
    let mut args: Vec<String> = Vec::new();
    args.push("default-keychain".to_owned());
    args.push("-d".to_owned());
    args.push("user".to_owned());
    args.push("-s".to_owned());
    args.push(keychain.to_owned());
    let mut env: Vec<EnvVar> = Vec::new();
    env.push(EnvVar { name: "HOME".to_owned(), value: home_dir.to_owned() });
    assert(views(args@) =~= seq!["default-keychain"@, "-d"@, "user"@, "-s"@, keychain@]);
    assert(views(env@) =~= seq![EnvVarView { name: "HOME"@, value: home_dir@ }]);
    CommandSpec { command: "/usr/bin/security".to_owned(), args, env, cwd: None }
}

/// The error of that command: what it said, else how it ended.
pub fn keychain_failure(stderr: &str, status: &str) -> (r: AgentError)
    ensures
        r@ == AgentErrorView::Internal(
            "failed to configure the steward macOS default keychain: "@ + if trimmed(stderr@).len() == 0 {
                status@
            } else {
                trimmed(stderr@)
            },
        ),
{
    let said = trim(stderr);
    let mut m = "failed to configure the steward macOS default keychain: ".to_owned();
    if said.is_empty() {
        m.append(status);
    } else {
        m.append(said);
    }
    AgentError::Internal(m)
}

// ---------------------------------------------------------------------
// Starting agents
// ---------------------------------------------------------------------

/// The environment in which an agent of the steward is started.
pub open spec fn spawn_env(i: StewardIsolationView, env: Seq<EnvVarView>) -> Seq<EnvVarView> {
    let homed = env_with(env, "HOME"@, i.home_dir);
    let configured = if i.backend == "codex"@ {
        env_with(homed, "CODEX_HOME"@, i.config_dir)
    } else {
        homed
    };
    env_with(configured, "AIONUI_STEWARD_SKILLS_DIR"@, i.skills_dir)
}

/// The command with the private home.
pub open spec fn isolated_command(i: StewardIsolationView, c: CommandSpecView) -> CommandSpecView {
    CommandSpecView {
        command: c.command,
        args: if i.backend == "qoder"@ {
            c.args + seq!["--config-dir"@, i.config_dir]
        } else {
            c.args
        },
        env: env_with(env_with(c.env, "HOME"@, i.home_dir), "AIONUI_STEWARD_SKILLS_DIR"@, i.skills_dir),
        cwd: Some(i.workspace_dir),
    }
}

/// The text that tells the steward about its private home, after what it was told before.
pub open spec fn isolation_context(i: StewardIsolationView, preset: Option<Seq<char>>) -> Seq<char> {
    (match preset {
        Some(p) => p,
        None => Seq::empty(),
    })
        + "\n\n[Steward Isolated Runtime]\nThis steward runs in a private CLI home and workspace. Do not read or modify the user's ordinary Agent MCP, Skills, plugins, memories, or configuration. The only MCP available for task control is the AionUi steward control server. Steward-only Skills live under `"@
        + i.skills_dir
        + "`. When the user asks to create or optimize a steward Skill, edit only a dedicated subdirectory there and keep its entry point in `SKILL.md`; never write to the normal Codex or Qoder home. These Skills should improve task triage, session lookup, progress reporting, interruption recovery, or safe session control, not perform the delegated worker's domain labor.\n"@
}

impl StewardIsolation {
    /// The directory in which the steward works.
    pub fn workspace(&self) -> (r: String)
        ensures
            r@ == self@.workspace_dir,
    {
        self.workspace_dir.clone()
    }

    /// Whether the means of authentication are linked.
    pub fn auth_linked(&self) -> (r: bool)
        ensures
            r == self@.auth_linked,
    {
        self.auth_linked
    }

    /// Sets the variables with which an agent is started.
    pub fn append_spawn_env(&self, env: &mut Vec<EnvVar>)
        ensures
            views(final(env)@) == spawn_env(self@, views(old(env)@)),
    {
        upsert_pair(env, "HOME", self.home_dir.clone());
        if same(self.backend.as_str(), "codex") {
            upsert_pair(env, "CODEX_HOME", self.config_dir.clone());
        }
        upsert_pair(env, "AIONUI_STEWARD_SKILLS_DIR", self.skills_dir.clone());
    }

    /// Has a command run in the private home.
    pub fn apply_to_acp_command(&self, command: &mut CommandSpec)
        ensures
            final(command)@ == isolated_command(self@, old(command)@),
    {
        upsert_command_env(command, "HOME", self.home_dir.clone());
        upsert_command_env(command, "AIONUI_STEWARD_SKILLS_DIR", self.skills_dir.clone());
        command.cwd = Some(self.workspace());
        if same(self.backend.as_str(), "qoder") {
            let ghost before = views(command.args@);
            command.args.push("--config-dir".to_owned());
            command.args.push(self.config_dir.clone());
            assert(views(command.args@) =~= before + seq!["--config-dir"@, self.config_dir@]);
        }
    }

    /// Tells the steward about its private home.
    pub fn extend_preset_context(&self, preset: Option<String>) -> (r: String)
        ensures
            r@ == isolation_context(self@, opt_view(preset)),
    {
        let mut r = match preset {
            Some(p) => p,
            None => String::new(),
        };
        r.append(
            "\n\n[Steward Isolated Runtime]\nThis steward runs in a private CLI home and workspace. Do not read or modify the user's ordinary Agent MCP, Skills, plugins, memories, or configuration. The only MCP available for task control is the AionUi steward control server. Steward-only Skills live under `",
        );
        r.append(self.skills_dir.as_str());
        r.append(
            "`. When the user asks to create or optimize a steward Skill, edit only a dedicated subdirectory there and keep its entry point in `SKILL.md`; never write to the normal Codex or Qoder home. These Skills should improve task triage, session lookup, progress reporting, interruption recovery, or safe session control, not perform the delegated worker's domain labor.\n",
        );
        r
    }
}

/// A command that runs in the private home has only its home, its skills and its directory
/// changed: how often any other variable is set stays as it was.
pub proof fn law_commands_keep_other_variables(i: StewardIsolationView, c: CommandSpecView, name: Seq<char>)
    requires
        name != "HOME"@,
        name != "AIONUI_STEWARD_SKILLS_DIR"@,
    ensures
        times_named(isolated_command(i, c).env, name) == times_named(c.env, name),
{
    law_setting_leaves_the_others(c.env, "HOME"@, i.home_dir, name);
    law_setting_leaves_the_others(
        env_with(c.env, "HOME"@, i.home_dir),
        "AIONUI_STEWARD_SKILLS_DIR"@,
        i.skills_dir,
        name,
    );
}

// ---------------------------------------------------------------------
// What is kept apart
// ---------------------------------------------------------------------

/// Only the two backends that can be kept apart are, and a user's place is below the runtime
/// directory under the user's own scope.
pub proof fn law_only_known_backends_are_isolated(
    data_dir: Seq<char>,
    user_id: Seq<char>,
    backend: Seq<char>,
    source_home: Seq<char>,
)
    ensures
        backend == "codex"@ || backend == "qoder"@ ==> plan_for(data_dir, user_id, backend, source_home) is Ok,
        backend != "codex"@ && backend != "qoder"@ ==> (plan_for(
            data_dir,
            user_id,
            backend,
            source_home,
        ) matches Err(e) && e is BadRequest),
        plan_for(data_dir, user_id, backend, source_home) matches Ok(p) ==> p.isolation.backend == backend
            && p.isolation.home_dir == below(
            below(below(data_dir, "steward-runtime"@), scope_of(user_id)),
            "home"@,
        ) && p.isolation.workspace_dir == below(
            below(below(data_dir, "steward-runtime"@), scope_of(user_id)),
            "workspace"@,
        ),
{
}

/// Each backend has its configuration in the private home under its own name, and the skills
/// in the private workspace are what the configuration links to. The login is taken from the
/// user's own home, and nothing else of it is.
pub proof fn law_each_backend_has_its_own_places(root: Seq<char>, backend: Seq<char>, source_home: Seq<char>)
    requires
        backend == "codex"@ || backend == "qoder"@,
    ensures
        ({
            let p = isolation_plan(root, backend, source_home);
            &&& backend == "codex"@ ==> p.isolation.config_dir == below(p.isolation.home_dir, ".codex"@)
                && p.source_auth == below(source_home, ".codex/auth.json"@) && p.isolated_auth == below(
                p.isolation.config_dir,
                "auth.json"@,
            )
            &&& backend == "qoder"@ ==> p.isolation.config_dir == below(p.isolation.home_dir, ".qoder"@)
                && p.source_auth == below(source_home, ".qoder/.auth"@) && p.isolated_auth == below(
                p.isolation.config_dir,
                ".auth"@,
            )
            &&& p.isolation.skills_dir == below(p.isolation.workspace_dir, "skills"@)
            &&& p.skills_link.source == p.isolation.skills_dir
            &&& p.skills_link.destination == below(p.isolation.config_dir, "skills"@)
            &&& p.skills_link.is_dir
            &&& p.directories.contains(p.isolation.home_dir)
            &&& p.directories.contains(p.isolation.workspace_dir)
            &&& p.directories.contains(p.isolation.skills_dir)
            &&& p.directories.contains(p.isolation.config_dir)
            &&& !p.isolation.auth_linked
        }),
{
    reveal_strlit("codex");
    reveal_strlit("qoder");
    assert("codex"@[0] == 'c');
    assert("qoder"@[0] == 'q');
    let p = isolation_plan(root, backend, source_home);
    assert(p.directories[0] == p.isolation.home_dir);
    assert(p.directories[1] == p.isolation.workspace_dir);
    assert(p.directories[2] == p.isolation.skills_dir);
    assert(p.directories[3] == p.isolation.config_dir);
}

/// A process of the steward has the private home as its home and knows where its skills are;
/// the one backend that is told its configuration by a variable is told it so. All other
/// variables stay as they were.
pub proof fn law_a_process_sees_the_private_home(i: StewardIsolationView, env: Seq<EnvVarView>, v: EnvVarView)
    ensures
        spawn_env(i, env).contains(EnvVarView { name: "HOME"@, value: i.home_dir }),
        spawn_env(i, env).contains(EnvVarView { name: "AIONUI_STEWARD_SKILLS_DIR"@, value: i.skills_dir }),
        i.backend == "codex"@ ==> spawn_env(i, env).contains(
            EnvVarView { name: "CODEX_HOME"@, value: i.config_dir },
        ),
        v.name == "HOME"@ && v.value != i.home_dir ==> !spawn_env(i, env).contains(v),
        v.name == "AIONUI_STEWARD_SKILLS_DIR"@ && v.value != i.skills_dir ==> !spawn_env(i, env).contains(v),
        i.backend == "codex"@ && v.name == "CODEX_HOME"@ && v.value != i.config_dir ==> !spawn_env(i, env).contains(v),
        v.name != "HOME"@ && v.name != "AIONUI_STEWARD_SKILLS_DIR"@ && v.name != "CODEX_HOME"@ ==> (spawn_env(
            i,
            env,
        ).contains(v) <==> env.contains(v)),
        i.backend != "codex"@ && v.name == "CODEX_HOME"@ ==> (spawn_env(i, env).contains(v) <==> env.contains(v)),
{
    reveal_strlit("HOME");
    reveal_strlit("CODEX_HOME");
    reveal_strlit("AIONUI_STEWARD_SKILLS_DIR");
    assert("HOME"@.len() == 4 && "CODEX_HOME"@.len() == 10 && "AIONUI_STEWARD_SKILLS_DIR"@.len() == 25);
    let homed = env_with(env, "HOME"@, i.home_dir);
    let configured = if i.backend == "codex"@ {
        env_with(homed, "CODEX_HOME"@, i.config_dir)
    } else {
        homed
    };
    let home = EnvVarView { name: "HOME"@, value: i.home_dir };
    let config = EnvVarView { name: "CODEX_HOME"@, value: i.config_dir };
    law_a_set_variable_has_its_value(env, "HOME"@, i.home_dir, home);
    law_a_set_variable_has_its_value(homed, "CODEX_HOME"@, i.config_dir, home);
    law_a_set_variable_has_its_value(configured, "AIONUI_STEWARD_SKILLS_DIR"@, i.skills_dir, home);
    law_a_set_variable_has_its_value(homed, "CODEX_HOME"@, i.config_dir, config);
    law_a_set_variable_has_its_value(configured, "AIONUI_STEWARD_SKILLS_DIR"@, i.skills_dir, config);
    law_a_set_variable_has_its_value(env, "HOME"@, i.home_dir, v);
    law_a_set_variable_has_its_value(homed, "CODEX_HOME"@, i.config_dir, v);
    law_a_set_variable_has_its_value(configured, "AIONUI_STEWARD_SKILLS_DIR"@, i.skills_dir, v);
}

/// A command of the steward runs in the private workspace with the private home; the one
/// backend that is told its configuration by arguments is told it so, after all its own.
pub proof fn law_a_command_runs_in_the_private_workspace(i: StewardIsolationView, c: CommandSpecView)
    ensures
        isolated_command(i, c).cwd == Some(i.workspace_dir),
        isolated_command(i, c).command == c.command,
        isolated_command(i, c).env.contains(EnvVarView { name: "HOME"@, value: i.home_dir }),
        isolated_command(i, c).env.contains(
            EnvVarView { name: "AIONUI_STEWARD_SKILLS_DIR"@, value: i.skills_dir },
        ),
        i.backend == "qoder"@ ==> isolated_command(i, c).args == c.args.push("--config-dir"@).push(i.config_dir),
        i.backend != "qoder"@ ==> isolated_command(i, c).args == c.args,
{
    reveal_strlit("HOME");
    reveal_strlit("AIONUI_STEWARD_SKILLS_DIR");
    assert("HOME"@.len() == 4 && "AIONUI_STEWARD_SKILLS_DIR"@.len() == 25);
    let home = EnvVarView { name: "HOME"@, value: i.home_dir };
    law_a_set_variable_has_its_value(c.env, "HOME"@, i.home_dir, home);
    law_a_set_variable_has_its_value(
        env_with(c.env, "HOME"@, i.home_dir),
        "AIONUI_STEWARD_SKILLS_DIR"@,
        i.skills_dir,
        home,
    );
    assert(c.args + seq!["--config-dir"@, i.config_dir] =~= c.args.push("--config-dir"@).push(i.config_dir));
}

/// What the steward is told keeps what it was told before, at the front, and names where its
/// skills are.
pub proof fn law_the_steward_is_told_where_its_skills_are(i: StewardIsolationView, preset: Option<Seq<char>>)
    ensures
        preset matches Some(p) ==> has_prefix(isolation_context(i, preset), p),
        has_text(isolation_context(i, preset), i.skills_dir),
        preset matches Some(p) ==> isolation_context(i, preset) == p + isolation_context(i, None),
{
    let all = isolation_context(i, preset);
    if let Some(p) = preset {
        assert(all =~= p + isolation_context(i, None));
    }
    let front = match preset {
        Some(p) => p,
        None => Seq::empty(),
    };
    assert(all.take(front.len() as int) =~= front);
    let head = front
        + "\n\n[Steward Isolated Runtime]\nThis steward runs in a private CLI home and workspace. Do not read or modify the user's ordinary Agent MCP, Skills, plugins, memories, or configuration. The only MCP available for task control is the AionUi steward control server. Steward-only Skills live under `"@;
    let at = head.len() as int;
    assert(all.subrange(at, at + i.skills_dir.len()) =~= i.skills_dir);
    assert(occurs_at(all, i.skills_dir, at));
}

/// A link is made where there is nothing, kept where it leads to the right place, and never
/// put in the place of anything else: what is no link, or leads elsewhere, is a conflict that
/// names the path.
pub proof fn law_nothing_is_overwritten(source: Seq<char>, destination: Seq<char>, target: Seq<char>)
    ensures
        link_action(source, destination, LinkStateView::Absent) == Ok::<LinkAction, AgentErrorView>(
            LinkAction::Create,
        ),
        link_action(source, destination, LinkStateView::NotALink) matches Err(e)
            && e matches AgentErrorView::Conflict(m) && has_suffix(m, destination),
        are_same(target, source) ==> link_action(source, destination, LinkStateView::LinkTo(target)) == Ok::<
            LinkAction,
            AgentErrorView,
        >(LinkAction::Keep),
        !are_same(target, source) ==> (link_action(
            source,
            destination,
            LinkStateView::LinkTo(target),
        ) matches Err(e) && e matches AgentErrorView::Conflict(m) && has_suffix(m, destination)),
{
    let a = "steward isolation path already exists and is not a link: "@ + destination;
    assert(a.skip(a.len() - destination.len()) =~= destination);
    let b = "steward isolation link points to an unexpected target: "@ + destination;
    assert(b.skip(b.len() - destination.len()) =~= destination);
}

/// A scope is made of the first twelve bytes of the digest, two hexadecimal digits for each.
pub proof fn law_a_scope_is_the_beginning_of_the_digest(digest: Seq<u8>, k: int)
    requires
        digest.len() >= 12,
        0 <= k < 12,
    ensures
        scope_of_digest(digest).len() == 24,
        digest[k] / 16 < 10 ==> scope_of_digest(digest)[2 * k] as int == '0' as int + digest[k] / 16,
        digest[k] / 16 >= 10 ==> scope_of_digest(digest)[2 * k] as int == 'a' as int + digest[k] / 16 - 10,
        digest[k] % 16 < 10 ==> scope_of_digest(digest)[2 * k + 1] as int == '0' as int + digest[k] % 16,
        digest[k] % 16 >= 10 ==> scope_of_digest(digest)[2 * k + 1] as int == 'a' as int + digest[k] % 16 - 10,
{
    assert((2 * k) / 2 == k && (2 * k) % 2 == 0);
    assert((2 * k + 1) / 2 == k && (2 * k + 1) % 2 == 1);
    assert(digest.take(12)[k] == digest[k]);
}

/// The steward counts as having the user's credentials exactly if a link to them is made:
/// from the place where the user keeps them to the one where the steward looks for them, as
/// a directory if they are one. Nothing else of the isolation depends on them.
pub proof fn law_credentials_are_linked_or_missing(plan: IsolationPlanView, found: AuthKind)
    ensures
        auth_step(plan, found) is Some <==> finished(plan, found).auth_linked,
        auth_step(plan, found) is None <==> found is Missing,
        auth_step(plan, found) matches Some(l) ==> l.source == plan.source_auth && l.destination == plan.isolated_auth
            && (l.is_dir <==> found is Directory),
        plan.isolation == (StewardIsolationView { auth_linked: plan.isolation.auth_linked, ..finished(plan, found) }),
{
}

/// The keychain is made the default one of the home directory that is given, and of the user
/// domain, by the program of the system.
pub proof fn law_the_keychain_is_set_for_one_home(home_dir: Seq<char>, keychain: Seq<char>)
    ensures
        ({
            let c = keychain_command(home_dir, keychain);
            &&& c.command == "/usr/bin/security"@ && c.cwd is None
            &&& c.args.len() == 5 && c.args[0] == "default-keychain"@
            &&& c.args[1] == "-d"@ && c.args[2] == "user"@
            &&& c.args[3] == "-s"@ && c.args.last() == keychain
            &&& c.env.len() == 1 && c.env[0].name == "HOME"@ && c.env[0].value == home_dir
        }),
{
}

} // verus!
