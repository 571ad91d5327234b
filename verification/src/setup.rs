//! Setting up the private home of the steward, step by step.
use vstd::prelude::*;
use crate::isolation::{
    ensure_link, isolation_plan, layout, link_action, AgentError, AgentErrorView, AuthKind, IsolationPlan,
    IsolationPlanView, LinkAction, LinkState, LinkStateView, LinkStep, LinkStepView, StewardIsolation,
    StewardIsolationView,
};
use crate::paths::{are_same, below};

verus! {

/// What is to be done next to set up the private home.
#[derive(Debug, Clone)]
pub enum SetupStep {
    /// Make the directories of the plan, with those above them.
    MakeDirectories { plan: IsolationPlan },
    /// Make the person's keychain the default, where the system has one.
    SetKeychain { plan: IsolationPlan },
    /// See what stands where the link to the skills is to be.
    LookAtSkills { plan: IsolationPlan },
    /// Make the link to the skills.
    LinkSkills { plan: IsolationPlan },
    /// See in which form the means of authentication are there.
    LookAtAuth { plan: IsolationPlan },
    /// See what stands where the link to them is to be.
    LookAtAuthLink { plan: IsolationPlan, found: AuthKind, link: LinkStep },
    /// Make the link to them.
    LinkAuth { plan: IsolationPlan, found: AuthKind, link: LinkStep },
    /// The private home is set up.
    Finish { isolation: StewardIsolation },
    /// Something else stands in the way.
    Fail { error: AgentError },
}

/// The model of [`SetupStep`].
#[verifier::ext_equal]
pub enum SetupStepView {
    MakeDirectories { plan: IsolationPlanView },
    SetKeychain { plan: IsolationPlanView },
    LookAtSkills { plan: IsolationPlanView },
    LinkSkills { plan: IsolationPlanView },
    LookAtAuth { plan: IsolationPlanView },
    LookAtAuthLink { plan: IsolationPlanView, found: AuthKind, link: LinkStepView },
    LinkAuth { plan: IsolationPlanView, found: AuthKind, link: LinkStepView },
    Finish { isolation: StewardIsolationView },
    Fail { error: AgentErrorView },
}

impl View for SetupStep {
    type V = SetupStepView;

    open spec fn view(&self) -> SetupStepView {
        match *self {
            SetupStep::MakeDirectories { plan } => SetupStepView::MakeDirectories { plan: plan@ },
            SetupStep::SetKeychain { plan } => SetupStepView::SetKeychain { plan: plan@ },
            SetupStep::LookAtSkills { plan } => SetupStepView::LookAtSkills { plan: plan@ },
            SetupStep::LinkSkills { plan } => SetupStepView::LinkSkills { plan: plan@ },
            SetupStep::LookAtAuth { plan } => SetupStepView::LookAtAuth { plan: plan@ },
            SetupStep::LookAtAuthLink { plan, found, link } => SetupStepView::LookAtAuthLink {
                plan: plan@,
                found,
                link: link@,
            },
            SetupStep::LinkAuth { plan, found, link } => SetupStepView::LinkAuth { plan: plan@, found, link: link@ },
            SetupStep::Finish { isolation } => SetupStepView::Finish { isolation: isolation@ },
            SetupStep::Fail { error } => SetupStepView::Fail { error: error@ },
        }
    }
}

/// What a step brought.
#[derive(Debug, Clone)]
pub enum SetupSeen {
    /// What was to be done was done.
    Done,
    /// This stands where the link is to be.
    Link(LinkState),
    /// The means of authentication are there in this form.
    Auth(AuthKind),
}

/// The model of [`SetupSeen`].
#[verifier::ext_equal]
pub enum SetupSeenView {
    Done,
    Link(LinkStateView),
    Auth(AuthKind),
}

impl View for SetupSeen {
    type V = SetupSeenView;

    open spec fn view(&self) -> SetupSeenView {
        match *self {
            SetupSeen::Done => SetupSeenView::Done,
            SetupSeen::Link(state) => SetupSeenView::Link(state@),
            SetupSeen::Auth(kind) => SetupSeenView::Auth(kind),
        }
    }
}

/// The private home once everything is set up.
pub open spec fn finished(plan: IsolationPlanView, found: AuthKind) -> StewardIsolationView {
    StewardIsolationView { auth_linked: found != AuthKind::Missing, ..plan.isolation }
}

/// The link to the means of authentication.
pub open spec fn auth_link_of(plan: IsolationPlanView, found: AuthKind) -> LinkStepView {
    LinkStepView {
        source: plan.source_auth,
        destination: plan.isolated_auth,
        is_dir: found == AuthKind::Directory,
    }
}

/// What is to be done after a step brought what it was to bring. What does not belong to a step
/// changes nothing.
pub open spec fn setup_step_of(step: SetupStepView, seen: SetupSeenView) -> SetupStepView {
    match (step, seen) {
        (SetupStepView::MakeDirectories { plan }, SetupSeenView::Done) => SetupStepView::SetKeychain { plan },
        (SetupStepView::SetKeychain { plan }, SetupSeenView::Done) => SetupStepView::LookAtSkills { plan },
        (SetupStepView::LookAtSkills { plan }, SetupSeenView::Link(state)) => match link_action(
            plan.skills_link.source,
            plan.skills_link.destination,
            state,
        ) {
            Ok(LinkAction::Create) => SetupStepView::LinkSkills { plan },
            Ok(LinkAction::Keep) => SetupStepView::LookAtAuth { plan },
            Err(error) => SetupStepView::Fail { error },
        },
        (SetupStepView::LinkSkills { plan }, SetupSeenView::Done) => SetupStepView::LookAtAuth { plan },
        (SetupStepView::LookAtAuth { plan }, SetupSeenView::Auth(found)) => if found == AuthKind::Missing {
            SetupStepView::Finish { isolation: finished(plan, found) }
        } else {
            SetupStepView::LookAtAuthLink { plan, found, link: auth_link_of(plan, found) }
        },
        (SetupStepView::LookAtAuthLink { plan, found, link }, SetupSeenView::Link(state)) => match link_action(
            link.source,
            link.destination,
            state,
        ) {
            Ok(LinkAction::Create) => SetupStepView::LinkAuth { plan, found, link },
            Ok(LinkAction::Keep) => SetupStepView::Finish { isolation: finished(plan, found) },
            Err(error) => SetupStepView::Fail { error },
        },
        (SetupStepView::LinkAuth { plan, found, .. }, SetupSeenView::Done) => SetupStepView::Finish {
            isolation: finished(plan, found),
        },
        _ => step,
    }
}

/// Goes on with setting up the private home.
pub fn setup_step(step: SetupStep, seen: SetupSeen) -> (r: SetupStep)
    ensures
        r@ == setup_step_of(step@, seen@),
{
    match (step, seen) {
        (SetupStep::MakeDirectories { plan }, SetupSeen::Done) => SetupStep::SetKeychain { plan },
        (SetupStep::SetKeychain { plan }, SetupSeen::Done) => SetupStep::LookAtSkills { plan },
        (SetupStep::LookAtSkills { plan }, SetupSeen::Link(state)) => match ensure_link(&plan.skills_link, &state) {
            Ok(LinkAction::Create) => SetupStep::LinkSkills { plan },
            Ok(LinkAction::Keep) => SetupStep::LookAtAuth { plan },
            Err(error) => SetupStep::Fail { error },
        },
        (SetupStep::LinkSkills { plan }, SetupSeen::Done) => SetupStep::LookAtAuth { plan },
        (SetupStep::LookAtAuth { plan }, SetupSeen::Auth(found)) => match plan.auth_link(found) {
            None => SetupStep::Finish { isolation: plan.finish(found) },
            Some(link) => SetupStep::LookAtAuthLink { plan, found, link },
        },
        (SetupStep::LookAtAuthLink { plan, found, link }, SetupSeen::Link(state)) => match ensure_link(&link, &state) {
            Ok(LinkAction::Create) => SetupStep::LinkAuth { plan, found, link },
            Ok(LinkAction::Keep) => SetupStep::Finish { isolation: plan.finish(found) },
            Err(error) => SetupStep::Fail { error },
        },
        (SetupStep::LinkAuth { plan, found, .. }, SetupSeen::Done) => SetupStep::Finish {
            isolation: plan.finish(found),
        },
        (step, _) => step,
    }
}

// ---------------------------------------------------------------------
// Paths and what stands at them
// ---------------------------------------------------------------------

/// What stands at a path.
#[verifier::ext_equal]
pub enum EntryView {
    File,
    Directory,
    Link(Seq<char>),
}

/// What a path leads to when no more than so many links are followed.
pub open spec fn kind_at(paths: Map<Seq<char>, EntryView>, path: Seq<char>, hops: nat) -> AuthKind
    decreases hops,
{
    if !paths.contains_key(path) {
        AuthKind::Missing
    } else {
        match paths[path] {
            EntryView::File => AuthKind::File,
            EntryView::Directory => AuthKind::Directory,
            EntryView::Link(target) => if hops == 0 {
                AuthKind::Missing
            } else {
                kind_at(paths, target, (hops - 1) as nat)
            },
        }
    }
}

/// What a path leads to. No more than 40 links are followed.
pub open spec fn leads_to(paths: Map<Seq<char>, EntryView>, path: Seq<char>) -> AuthKind {
    kind_at(paths, path, 40)
}

/// What stands where a link is to be.
pub open spec fn state_at(paths: Map<Seq<char>, EntryView>, path: Seq<char>) -> LinkStateView {
    if !paths.contains_key(path) {
        LinkStateView::Absent
    } else {
        match paths[path] {
            EntryView::Link(target) => LinkStateView::LinkTo(target),
            _ => LinkStateView::NotALink,
        }
    }
}

/// Whether a path is a directory or one above it.
pub open spec fn is_step_to(path: Seq<char>, directory: Seq<char>) -> bool {
    path == directory || (0 < path.len() < directory.len() && directory.take(path.len() as int) == path
        && directory[path.len() as int] == '/')
}

/// Whether a directory and all above it are there.
pub open spec fn is_there(paths: Map<Seq<char>, EntryView>, directory: Seq<char>) -> bool {
    forall|k: Seq<char>| #[trigger]
        is_step_to(k, directory) ==> paths.contains_key(k) && leads_to(paths, k) == AuthKind::Directory
}

/// The paths after a directory was made with those above it; none where something else stands in
/// the way.
pub open spec fn made(paths: Map<Seq<char>, EntryView>, directory: Seq<char>) -> Option<Map<Seq<char>, EntryView>> {
    if forall|k: Seq<char>| #[trigger]
        is_step_to(k, directory) && paths.contains_key(k) ==> leads_to(paths, k) == AuthKind::Directory {
        Some(
            Map::new(
                |k: Seq<char>| paths.contains_key(k) || is_step_to(k, directory),
                |k: Seq<char>|
                    if paths.contains_key(k) {
                        paths[k]
                    } else {
                        EntryView::Directory
                    },
            ),
        )
    } else {
        None
    }
}

/// The paths after the directories were made one after the other.
pub open spec fn all_made(paths: Map<Seq<char>, EntryView>, directories: Seq<Seq<char>>) -> Option<
    Map<Seq<char>, EntryView>,
>
    decreases directories.len(),
{
    if directories.len() == 0 {
        Some(paths)
    } else {
        match all_made(paths, directories.drop_last()) {
            Some(before) => made(before, directories.last()),
            None => None,
        }
    }
}

/// The paths after a link was seen to.
pub open spec fn linked(paths: Map<Seq<char>, EntryView>, link: LinkStepView) -> Option<Map<Seq<char>, EntryView>> {
    match link_action(link.source, link.destination, state_at(paths, link.destination)) {
        Ok(LinkAction::Create) => Some(paths.insert(link.destination, EntryView::Link(link.source))),
        Ok(LinkAction::Keep) => Some(paths),
        Err(_) => None,
    }
}

/// How many steps are left at most.
pub open spec fn steps_left(step: SetupStepView) -> nat {
    match step {
        SetupStepView::MakeDirectories { .. } => 7,
        SetupStepView::SetKeychain { .. } => 6,
        SetupStepView::LookAtSkills { .. } => 5,
        SetupStepView::LinkSkills { .. } => 4,
        SetupStepView::LookAtAuth { .. } => 3,
        SetupStepView::LookAtAuthLink { .. } => 2,
        SetupStepView::LinkAuth { .. } => 1,
        _ => 0,
    }
}

/// What comes of setting up the private home when every step is taken: the private home, and
/// the paths after it; none where something else stands in the way. (A keychain is no path.)
pub open spec fn course(step: SetupStepView, paths: Map<Seq<char>, EntryView>) -> Option<
    (StewardIsolationView, Map<Seq<char>, EntryView>),
>
    decreases steps_left(step),
{
    match step {
        SetupStepView::MakeDirectories { plan } => match all_made(paths, plan.directories) {
            Some(after) => course(setup_step_of(step, SetupSeenView::Done), after),
            None => None,
        },
        SetupStepView::SetKeychain { .. } => course(setup_step_of(step, SetupSeenView::Done), paths),
        SetupStepView::LookAtSkills { plan } => course(
            setup_step_of(step, SetupSeenView::Link(state_at(paths, plan.skills_link.destination))),
            paths,
        ),
        SetupStepView::LinkSkills { plan } => course(
            setup_step_of(step, SetupSeenView::Done),
            paths.insert(plan.skills_link.destination, EntryView::Link(plan.skills_link.source)),
        ),
        SetupStepView::LookAtAuth { plan } => course(
            setup_step_of(step, SetupSeenView::Auth(leads_to(paths, plan.source_auth))),
            paths,
        ),
        SetupStepView::LookAtAuthLink { link, .. } => course(
            setup_step_of(step, SetupSeenView::Link(state_at(paths, link.destination))),
            paths,
        ),
        SetupStepView::LinkAuth { link, .. } => course(
            setup_step_of(step, SetupSeenView::Done),
            paths.insert(link.destination, EntryView::Link(link.source)),
        ),
        SetupStepView::Finish { isolation } => Some((isolation, paths)),
        SetupStepView::Fail { .. } => None,
    }
}

/// What comes of setting up the private home of a plan.
pub open spec fn set_up(plan: IsolationPlanView, paths: Map<Seq<char>, EntryView>) -> Option<
    (StewardIsolationView, Map<Seq<char>, EntryView>),
> {
    course(SetupStepView::MakeDirectories { plan }, paths)
}

/// The same at once: directories, skills, authentication.
pub open spec fn set_up_at_once(plan: IsolationPlanView, paths: Map<Seq<char>, EntryView>) -> Option<
    (StewardIsolationView, Map<Seq<char>, EntryView>),
> {
    match all_made(paths, plan.directories) {
        None => None,
        Some(with_directories) => match linked(with_directories, plan.skills_link) {
            None => None,
            Some(with_skills) => {
                let found = leads_to(with_skills, plan.source_auth);
                if found == AuthKind::Missing {
                    Some((finished(plan, found), with_skills))
                } else {
                    match linked(with_skills, auth_link_of(plan, found)) {
                        None => None,
                        Some(after) => Some((finished(plan, found), after)),
                    }
                }
            },
        },
    }
}

proof fn lemma_from_auth(plan: IsolationPlanView, paths: Map<Seq<char>, EntryView>)
    ensures
        course(SetupStepView::LookAtAuth { plan }, paths) == ({
            let found = leads_to(paths, plan.source_auth);
            if found == AuthKind::Missing {
                Some((finished(plan, found), paths))
            } else {
                match linked(paths, auth_link_of(plan, found)) {
                    None => None,
                    Some(after) => Some((finished(plan, found), after)),
                }
            }
        }),
{
    let found = leads_to(paths, plan.source_auth);
    let link = auth_link_of(plan, found);
    let done = SetupStepView::Finish { isolation: finished(plan, found) };
    let looking = SetupStepView::LookAtAuthLink { plan, found, link };
    let linking = SetupStepView::LinkAuth { plan, found, link };
    let after = paths.insert(link.destination, EntryView::Link(link.source));
    let next = setup_step_of(looking, SetupSeenView::Link(state_at(paths, link.destination)));
    assert(course(looking, paths) == course(next, paths));
    assert(course(linking, paths) == course(done, after));
    assert(course(done, paths) == Some((finished(plan, found), paths)));
    assert(course(done, after) == Some((finished(plan, found), after)));
}

proof fn lemma_set_up_at_once(plan: IsolationPlanView, paths: Map<Seq<char>, EntryView>)
    ensures
        set_up(plan, paths) == set_up_at_once(plan, paths),
{
    if let Some(made_paths) = all_made(paths, plan.directories) {
        let keychain = SetupStepView::SetKeychain { plan };
        let looking = SetupStepView::LookAtSkills { plan };
        let linking = SetupStepView::LinkSkills { plan };
        let auth = SetupStepView::LookAtAuth { plan };
        let link = plan.skills_link;
        let after = made_paths.insert(link.destination, EntryView::Link(link.source));
        let next = setup_step_of(looking, SetupSeenView::Link(state_at(made_paths, link.destination)));
        assert(course(keychain, made_paths) == course(looking, made_paths));
        assert(course(looking, made_paths) == course(next, made_paths));
        assert(course(linking, made_paths) == course(auth, after));
        lemma_from_auth(plan, made_paths);
        lemma_from_auth(plan, after);
    }
}

/// Whether nothing that stood at a path was changed or taken away.
pub open spec fn extends(paths: Map<Seq<char>, EntryView>, after: Map<Seq<char>, EntryView>) -> bool {
    forall|k: Seq<char>| #[trigger]
        paths.contains_key(k) ==> after.contains_key(k) && after[k] == paths[k]
}

proof fn lemma_kind_stays(
    paths: Map<Seq<char>, EntryView>,
    after: Map<Seq<char>, EntryView>,
    path: Seq<char>,
    hops: nat,
)
    requires
        extends(paths, after),
        kind_at(paths, path, hops) != AuthKind::Missing,
    ensures
        kind_at(after, path, hops) == kind_at(paths, path, hops),
    decreases hops,
{
    assert(paths.contains_key(path));
    if let EntryView::Link(target) = paths[path] {
        lemma_kind_stays(paths, after, target, (hops - 1) as nat);
    }
}

proof fn lemma_there_stays(
    paths: Map<Seq<char>, EntryView>,
    after: Map<Seq<char>, EntryView>,
    directory: Seq<char>,
)
    requires
        extends(paths, after),
        is_there(paths, directory),
    ensures
        is_there(after, directory),
{
    assert forall|k: Seq<char>| #[trigger] is_step_to(k, directory) implies after.contains_key(k)
            && leads_to(after, k) == AuthKind::Directory by {
        lemma_kind_stays(paths, after, k, 40);
    }
}

proof fn lemma_made(paths: Map<Seq<char>, EntryView>, directory: Seq<char>)
    ensures
        made(paths, directory) matches Some(after) ==> extends(paths, after) && is_there(after, directory) && forall|
            k: Seq<char>,
        | #[trigger] after.contains_key(k) ==> paths.contains_key(k) || is_step_to(k, directory),
        is_there(paths, directory) ==> made(paths, directory) == Some(paths),
{
    if let Some(after) = made(paths, directory) {
        assert(extends(paths, after));
        assert forall|k: Seq<char>| #[trigger] is_step_to(k, directory) implies after.contains_key(k)
            && leads_to(after, k) == AuthKind::Directory by {
            if paths.contains_key(k) {
                lemma_kind_stays(paths, after, k, 40);
            }
        }
        if is_there(paths, directory) {
            assert(after =~= paths);
        }
    }
}

proof fn lemma_all_made(paths: Map<Seq<char>, EntryView>, directories: Seq<Seq<char>>)
    ensures
        all_made(paths, directories) matches Some(after) ==> extends(paths, after) && (forall|i: int|
            0 <= i < directories.len() ==> is_there(after, #[trigger] directories[i])) && forall|k: Seq<char>|
            #[trigger] after.contains_key(k) ==> paths.contains_key(k) || exists|i: int|
                0 <= i < directories.len() && is_step_to(k, #[trigger] directories[i]),
    decreases directories.len(),
{
    if directories.len() > 0 {
        let init = directories.drop_last();
        lemma_all_made(paths, init);
        if let Some(before) = all_made(paths, init) {
            lemma_made(before, directories.last());
            if let Some(after) = made(before, directories.last()) {
                assert forall|i: int| 0 <= i < directories.len() implies is_there(
                    after,
                    #[trigger] directories[i],
                ) by {
                    if i < init.len() {
                        assert(init[i] == directories[i]);
                        lemma_there_stays(before, after, init[i]);
                    }
                }
                assert forall|k: Seq<char>| #[trigger] after.contains_key(k) implies paths.contains_key(k)
                    || exists|i: int| 0 <= i < directories.len() && is_step_to(k, #[trigger] directories[i]) by {
                    if before.contains_key(k) && !paths.contains_key(k) {
                        let i = choose|i: int| 0 <= i < init.len() && is_step_to(k, #[trigger] init[i]);
                        assert(directories[i] == init[i]);
                    } else if !before.contains_key(k) {
                        assert(is_step_to(k, directories[directories.len() - 1]));
                    }
                }
                assert forall|k: Seq<char>| #[trigger] paths.contains_key(k) implies after.contains_key(k)
                    && after[k] == paths[k] by {
                    assert(before.contains_key(k));
                }
            }
        }
    }
}

proof fn lemma_all_there(paths: Map<Seq<char>, EntryView>, directories: Seq<Seq<char>>)
    requires
        forall|i: int| 0 <= i < directories.len() ==> is_there(paths, #[trigger] directories[i]),
    ensures
        all_made(paths, directories) == Some(paths),
    decreases directories.len(),
{
    if directories.len() > 0 {
        let init = directories.drop_last();
        assert forall|i: int| 0 <= i < init.len() implies is_there(paths, #[trigger] init[i]) by {
            assert(init[i] == directories[i]);
        }
        lemma_all_there(paths, init);
        assert(is_there(paths, directories[directories.len() - 1]));
        lemma_made(paths, directories.last());
    }
}

/// Whether a link is there and leads where it is to lead.
pub open spec fn is_linked(paths: Map<Seq<char>, EntryView>, link: LinkStepView) -> bool {
    &&& paths.contains_key(link.destination)
    &&& paths[link.destination] matches EntryView::Link(target)
    &&& are_same(target, link.source)
}

proof fn lemma_linked(paths: Map<Seq<char>, EntryView>, link: LinkStepView)
    ensures
        linked(paths, link) matches Some(after) ==> extends(paths, after) && is_linked(after, link) && forall|
            k: Seq<char>,
        | #[trigger] after.contains_key(k) ==> paths.contains_key(k) || k == link.destination,
        is_linked(paths, link) ==> linked(paths, link) == Some(paths),
{
}

/// Setting up the private home adds to what stands there and changes nothing: its directories
/// and those above them, the link to the skills, and the link to the means of authentication
/// where they are there. Nothing else is added.
pub proof fn law_setting_up_only_adds(plan: IsolationPlanView, paths: Map<Seq<char>, EntryView>)
    ensures
        set_up(plan, paths) matches Some((isolation, after)) ==> {
            &&& extends(paths, after)
            &&& forall|i: int| 0 <= i < plan.directories.len() ==> is_there(after, #[trigger] plan.directories[i])
            &&& is_linked(after, plan.skills_link)
            &&& isolation.auth_linked ==> exists|found: AuthKind|
                found != AuthKind::Missing && is_linked(after, #[trigger] auth_link_of(plan, found))
            &&& isolation == (StewardIsolationView { auth_linked: isolation.auth_linked, ..plan.isolation })
            &&& leads_to(paths, plan.source_auth) != AuthKind::Missing ==> isolation.auth_linked
            &&& forall|k: Seq<char>| #[trigger]
                after.contains_key(k) ==> {
                    ||| paths.contains_key(k)
                    ||| exists|i: int| 0 <= i < plan.directories.len() && is_step_to(k, #[trigger] plan.directories[i])
                    ||| k == plan.skills_link.destination
                    ||| isolation.auth_linked && k == plan.isolated_auth
                }
        },
{
    lemma_set_up_at_once(plan, paths);
    lemma_all_made(paths, plan.directories);
    if let Some(first) = all_made(paths, plan.directories) {
        lemma_linked(first, plan.skills_link);
        if let Some(second) = linked(first, plan.skills_link) {
            let found = leads_to(second, plan.source_auth);
            lemma_linked(second, auth_link_of(plan, found));
            if let Some((isolation, after)) = set_up(plan, paths) {
                assert(extends(second, after));
                assert forall|k: Seq<char>| #[trigger] paths.contains_key(k) implies second.contains_key(k)
                    && second[k] == paths[k] by {
                    assert(first.contains_key(k));
                }
                assert forall|k: Seq<char>| #[trigger] paths.contains_key(k) implies after.contains_key(k)
                    && after[k] == paths[k] by {
                    assert(second.contains_key(k));
                }
                assert forall|k: Seq<char>| #[trigger] first.contains_key(k) implies after.contains_key(k)
                    && after[k] == first[k] by {
                    assert(second.contains_key(k));
                }
                assert forall|i: int| 0 <= i < plan.directories.len() implies is_there(
                    after,
                    #[trigger] plan.directories[i],
                ) by {
                    lemma_there_stays(first, after, plan.directories[i]);
                }
                assert(second.contains_key(plan.skills_link.destination));
                if leads_to(paths, plan.source_auth) != AuthKind::Missing {
                    lemma_kind_stays(paths, second, plan.source_auth, 40);
                }
            }
        }
    }
}

/// Setting up the private home a second time gives the same private home and changes nothing.
pub proof fn law_setting_up_twice_is_setting_up_once(plan: IsolationPlanView, paths: Map<Seq<char>, EntryView>)
    ensures
        set_up(plan, paths) matches Some((isolation, after)) ==> set_up(plan, after) == Some((isolation, after)),
{
    lemma_set_up_at_once(plan, paths);
    if let Some((isolation, after)) = set_up(plan, paths) {
        law_setting_up_only_adds(plan, paths);
        lemma_set_up_at_once(plan, after);
        lemma_all_there(after, plan.directories);
        lemma_linked(after, plan.skills_link);
        let first = all_made(paths, plan.directories).unwrap();
        let second = linked(first, plan.skills_link).unwrap();
        let found = leads_to(second, plan.source_auth);
        if found != AuthKind::Missing {
            let link = auth_link_of(plan, found);
            lemma_linked(second, link);
            lemma_kind_stays(second, after, plan.source_auth, 40);
            lemma_linked(after, link);
        }
    }
}

/// The path with a slash at its end to which parts are added.
pub open spec fn stem(base: Seq<char>) -> Seq<char> {
    if base.len() == 0 || base.last() == '/' {
        base
    } else {
        base.push('/')
    }
}

proof fn lemma_below(base: Seq<char>, part: Seq<char>)
    ensures
        below(base, part) == stem(base) + part,
{
    reveal_strlit("/");
    assert("/"@ =~= seq!['/']);
    assert(below(base, part) =~= stem(base) + part);
}

/// The private configuration holds the skills and the means of authentication, and nothing else
/// comes into it: whatever other name is not there before, such as that of a configuration
/// file, is not there after.
pub proof fn law_nothing_else_comes_into_the_configuration(
    root: Seq<char>,
    backend: Seq<char>,
    source_home: Seq<char>,
    name: Seq<char>,
    paths: Map<Seq<char>, EntryView>,
)
    requires
        name.len() > 0,
        below(layout(root, backend).config_dir, name)
            != isolation_plan(root, backend, source_home).skills_link.destination,
        below(layout(root, backend).config_dir, name) != isolation_plan(root, backend, source_home).isolated_auth,
        !paths.contains_key(below(layout(root, backend).config_dir, name)),
    ensures
        set_up(isolation_plan(root, backend, source_home), paths) matches Some((_, after))
            ==> !after.contains_key(below(layout(root, backend).config_dir, name)),
{
    let plan = isolation_plan(root, backend, source_home);
    let l = layout(root, backend);
    let k = below(l.config_dir, name);
    law_setting_up_only_adds(plan, paths);
    let kind = if backend == "codex"@ {
        ".codex"@
    } else {
        ".qoder"@
    };
    reveal_strlit("home");
    reveal_strlit("workspace");
    lemma_below(root, "home"@);
    lemma_below(root, "workspace"@);
    lemma_below(l.home_dir, kind);
    lemma_below(l.workspace_dir, "skills"@);
    lemma_below(l.config_dir, name);
    let at = stem(root).len() as int;
    assert(l.home_dir[at] == 'h');
    assert(l.config_dir[at] == 'h');
    assert(k[at] == 'h');
    assert(l.workspace_dir[at] == 'w');
    assert(l.skills_dir[at] == 'w');
    assert(l.home_dir.len() <= l.config_dir.len() < k.len());
    assert forall|i: int| 0 <= i < plan.directories.len() implies !is_step_to(k, #[trigger] plan.directories[i]) by {
        let d = plan.directories[i];
        if is_step_to(k, d) {
            assert(k.len() <= d.len());
            assert(d.take(k.len() as int) =~= k);
            assert(d[at] == d.take(k.len() as int)[at]);
        }
    }
}

/// Setting up goes from the directories to the keychain, to the skills and to the login; what
/// is linked already is passed over, a login that is not there ends it without one, and what
/// stands in the way of a link fails it.
pub proof fn law_setting_up_goes_step_by_step(plan: IsolationPlanView, found: AuthKind, target: Seq<char>)
    ensures
        setup_step_of(SetupStepView::MakeDirectories { plan }, SetupSeenView::Done) == (SetupStepView::SetKeychain {
            plan,
        }),
        setup_step_of(SetupStepView::SetKeychain { plan }, SetupSeenView::Done) == (SetupStepView::LookAtSkills {
            plan,
        }),
        setup_step_of(SetupStepView::LookAtSkills { plan }, SetupSeenView::Link(LinkStateView::Absent)) == (
        SetupStepView::LinkSkills { plan }),
        setup_step_of(SetupStepView::LookAtSkills { plan }, SetupSeenView::Link(LinkStateView::NotALink)) is Fail,
        are_same(target, plan.skills_link.source) ==> setup_step_of(
            SetupStepView::LookAtSkills { plan },
            SetupSeenView::Link(LinkStateView::LinkTo(target)),
        ) == (SetupStepView::LookAtAuth { plan }),
        !are_same(target, plan.skills_link.source) ==> setup_step_of(
            SetupStepView::LookAtSkills { plan },
            SetupSeenView::Link(LinkStateView::LinkTo(target)),
        ) is Fail,
        setup_step_of(SetupStepView::LinkSkills { plan }, SetupSeenView::Done) == (SetupStepView::LookAtAuth { plan }),
        setup_step_of(SetupStepView::LookAtAuth { plan }, SetupSeenView::Auth(AuthKind::Missing)) matches
            SetupStepView::Finish { isolation } && !isolation.auth_linked && isolation.home_dir
            == plan.isolation.home_dir,
        found != AuthKind::Missing ==> (setup_step_of(
            SetupStepView::LookAtAuth { plan },
            SetupSeenView::Auth(found),
        ) matches SetupStepView::LookAtAuthLink { plan: p, found: f, link } && p == plan && f == found && link.source
            == plan.source_auth && link.destination == plan.isolated_auth && (link.is_dir <==> found
            == AuthKind::Directory)),
{
}

/// A login that was found is linked where nothing is in its place, and the setting up then
/// ends with it.
pub proof fn law_a_login_that_is_there_is_linked(
    plan: IsolationPlanView,
    found: AuthKind,
    link: LinkStepView,
    target: Seq<char>,
)
    requires
        found != AuthKind::Missing,
    ensures
        setup_step_of(SetupStepView::LookAtAuthLink { plan, found, link }, SetupSeenView::Link(LinkStateView::Absent))
            == (SetupStepView::LinkAuth { plan, found, link }),
        setup_step_of(
            SetupStepView::LookAtAuthLink { plan, found, link },
            SetupSeenView::Link(LinkStateView::NotALink),
        ) is Fail,
        are_same(target, link.source) ==> (setup_step_of(
            SetupStepView::LookAtAuthLink { plan, found, link },
            SetupSeenView::Link(LinkStateView::LinkTo(target)),
        ) matches SetupStepView::Finish { isolation } && isolation.auth_linked),
        !are_same(target, link.source) ==> setup_step_of(
            SetupStepView::LookAtAuthLink { plan, found, link },
            SetupSeenView::Link(LinkStateView::LinkTo(target)),
        ) is Fail,
        setup_step_of(SetupStepView::LinkAuth { plan, found, link }, SetupSeenView::Done) matches
            SetupStepView::Finish { isolation } && isolation.auth_linked && isolation.config_dir
            == plan.isolation.config_dir,
{
}

} // verus!
