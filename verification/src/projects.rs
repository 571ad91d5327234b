//! To which project a directory belongs.
use vstd::prelude::*;
use crate::paths::{file_name, file_name_of, parent_dir, parent_of};
use crate::text::{as_text, has_suffix, opt_view, same_opt, strip_suffix, trim_end_of, trimmed_end_of};

verus! {

/// What is known of the repository around a directory.
#[derive(Debug, Clone)]
pub struct RepositoryFacts {
    pub workdir: Option<String>,
    pub common_dir: String,
    pub origin: Option<String>,
}

/// The model of [`RepositoryFacts`].
#[verifier::ext_equal]
pub struct RepositoryFactsView {
    pub workdir: Option<Seq<char>>,
    pub common_dir: Seq<char>,
    pub origin: Option<Seq<char>>,
}

impl View for RepositoryFacts {
    type V = RepositoryFactsView;

    open spec fn view(&self) -> RepositoryFactsView {
        RepositoryFactsView {
            workdir: opt_view(self.workdir),
            common_dir: self.common_dir@,
            origin: opt_view(self.origin),
        }
    }
}

/// `s` without the text `p` at its end, however often it stands there.
pub open spec fn without_suffix(s: Seq<char>, p: Seq<char>) -> Seq<char>
    decreases s.len(),
{
    if p.len() > 0 && has_suffix(s, p) {
        without_suffix(s.take(s.len() - p.len()), p)
    } else {
        s
    }
}

/// Takes a text that is not empty from the end of another, however often it stands there.
pub fn trim_end_text<'a>(s: &'a str, p: &str) -> (r: &'a str)
    requires
        p@.len() > 0,
    ensures
        r@ == without_suffix(s@, p@),
{
    let mut rest = s;
    loop
        invariant
            p@.len() > 0,
            without_suffix(s@, p@) == without_suffix(rest@, p@),
        decreases rest@.len(),
    {
        match strip_suffix(rest, p) {
            Some(t) => {
                rest = t;
            },
            None => {
                return rest;
            },
        }
    }
}

/// The key of a directory without a repository.
pub fn path_key(cwd: &str) -> (r: String)
    ensures
        r@ == "path:"@ + cwd@,
{
    let mut r = "path:".to_owned();
    r.append(cwd);
    r
}

/// The directory that holds the repository, where it is kept in the usual place.
pub open spec fn usual_root(facts: RepositoryFactsView) -> Option<Seq<char>> {
    if file_name_of(facts.common_dir) == Some(".git"@) {
        Some(parent_of(facts.common_dir))
    } else {
        None
    }
}

/// The directory that holds the repository, where it is kept in the usual place.
pub fn main_root_candidate(facts: &RepositoryFacts) -> (r: Option<String>)
    ensures
        opt_view(r) == usual_root(facts@),
{
    let name = file_name(facts.common_dir.as_str());
    if same_opt(as_text(&name), Some(".git")) {
        Some(parent_dir(facts.common_dir.as_str()))
    } else {
        None
    }
}

/// The root of the project: the directory that holds the repository if it is there, else the
/// working directory of the repository, else the directory itself. All worktrees of a
/// repository so have one root.
pub open spec fn project_root_of(
    cwd: Seq<char>,
    facts: RepositoryFactsView,
    candidate_is_dir: bool,
) -> Seq<char> {
    if usual_root(facts) is Some && candidate_is_dir {
        usual_root(facts).unwrap()
    } else {
        match facts.workdir {
            Some(w) => w,
            None => cwd,
        }
    }
}

/// The root of the project that a directory belongs to.
pub fn project_root(cwd: &str, facts: &RepositoryFacts, candidate_is_dir: bool) -> (r: String)
    ensures
        r@ == project_root_of(cwd@, facts@, candidate_is_dir),
{
    if candidate_is_dir {
        if let Some(root) = main_root_candidate(facts) {
            return root;
        }
    }
    match &facts.workdir {
        Some(w) => w.clone(),
        None => cwd.to_owned(),
    }
}

/// The address of the origin without what may or may not stand at its end.
pub open spec fn plain_origin(url: Seq<char>) -> Seq<char> {
    without_suffix(trimmed_end_of(url, seq!['/']), ".git"@)
}

/// The key of a project with a repository: its origin where it has one, else where the
/// repository is kept.
pub open spec fn project_key_of(facts: RepositoryFactsView) -> Seq<char> {
    match facts.origin {
        Some(url) => if plain_origin(url).len() > 0 {
            "git:"@ + plain_origin(url)
        } else {
            "gitdir:"@ + facts.common_dir
        },
        None => "gitdir:"@ + facts.common_dir,
    }
}

/// The key of the project that a repository is.
pub fn project_identity(facts: &RepositoryFacts) -> (r: String)
    ensures
        r@ == project_key_of(facts@),
{
    if let Some(url) = as_text(&facts.origin) {
        let slash: [char; 1] = ['/'];
        proof {
            assert(slash@ =~= seq!['/']);
            reveal_strlit(".git");
        }
        let plain = trim_end_text(trim_end_of(url, slash.as_slice()), ".git");
        if !plain.is_empty() {
            let mut key = "git:".to_owned();
            key.append(plain);
            return key;
        }
    }
    let mut key = "gitdir:".to_owned();
    key.append(facts.common_dir.as_str());
    key
}

proof fn lemma_plain_origin_slash(url: Seq<char>)
    ensures
        plain_origin(url.push('/')) == plain_origin(url),
{
    assert(seq!['/'][0] == '/');
    assert(seq!['/'].contains('/'));
    assert(url.push('/').drop_last() =~= url);
}

proof fn lemma_plain_origin_git(url: Seq<char>)
    requires
        url.len() == 0 || url.last() != '/',
    ensures
        plain_origin(url + ".git"@) == plain_origin(url),
{
    reveal_strlit(".git");
    let whole = url + ".git"@;
    assert(whole.last() == 't');
    assert(whole.skip(whole.len() - 4) =~= ".git"@);
    assert(whole.take(whole.len() - 4) =~= url);
}

/// However the address of an origin is written, with or without a slash or `.git` at its end,
/// it names one project.
pub proof fn law_one_origin_one_project(facts: RepositoryFactsView, url: Seq<char>)
    requires
        facts.origin == Some(url),
        url.len() == 0 || url.last() != '/',
    ensures
        project_key_of(RepositoryFactsView { origin: Some(url.push('/')), ..facts }) == project_key_of(facts),
        project_key_of(RepositoryFactsView { origin: Some(url + ".git"@), ..facts }) == project_key_of(facts),
        project_key_of(RepositoryFactsView { origin: Some((url + ".git"@).push('/')), ..facts })
            == project_key_of(facts),
{
    lemma_plain_origin_slash(url);
    lemma_plain_origin_git(url);
    lemma_plain_origin_slash(url + ".git"@);
}

/// A repository goes by its origin, without slashes and `.git` at the end of it; one without
/// an origin by its directory. Two repositories are one project only if these agree.
pub proof fn law_projects_go_by_their_origin(facts: RepositoryFactsView, other: RepositoryFactsView, url: Seq<char>)
    ensures
        facts.origin is None ==> project_key_of(facts) == "gitdir:"@ + facts.common_dir,
        facts.origin == Some(url) && url.len() > 0 && url.last() != '/' && !has_suffix(url, ".git"@) ==> project_key_of(
            facts,
        ) == "git:"@ + url,
        facts.origin is None && other.origin is None ==> (project_key_of(facts) == project_key_of(other)
            <==> facts.common_dir == other.common_dir),
        facts.origin == Some(url) && url.len() > 0 && url.last() != '/' && !has_suffix(url, ".git"@)
            && other.origin is None ==> project_key_of(facts) != project_key_of(other),
{
    reveal_strlit("gitdir:");
    reveal_strlit("git:");
    assert("gitdir:"@[3] == 'd');
    assert("git:"@[3] == ':');
    assert("gitdir:"@.len() == 7 && "git:"@.len() == 4);
    if facts.origin == Some(url) && url.len() > 0 && url.last() != '/' && !has_suffix(url, ".git"@) {
        let set = seq!['/'];
        assert(!set.contains(url.last())) by {
            if set.contains(url.last()) {
                assert(set[set.index_of(url.last())] == '/');
            }
        }
        assert(trimmed_end_of(url, set) == url);
        assert(without_suffix(url, ".git"@) == url);
        assert(("git:"@ + url)[3] == ':');
        assert(("gitdir:"@ + other.common_dir)[3] == 'd');
    }
    if facts.origin is None && other.origin is None && project_key_of(facts) == project_key_of(other) {
        assert(("gitdir:"@ + facts.common_dir).skip(7) =~= facts.common_dir);
        assert(("gitdir:"@ + other.common_dir).skip(7) =~= other.common_dir);
    }
}

/// The root of a project is the directory of its `.git`, where that is one and is there; else
/// the worktree, and without one the directory itself.
pub proof fn law_the_root_holds_the_repository(cwd: Seq<char>, facts: RepositoryFactsView, candidate_is_dir: bool)
    ensures
        candidate_is_dir && file_name_of(facts.common_dir) == Some(".git"@) ==> project_root_of(
            cwd,
            facts,
            candidate_is_dir,
        ) == parent_of(facts.common_dir),
        (!candidate_is_dir || file_name_of(facts.common_dir) != Some(".git"@)) && facts.workdir is Some
            ==> project_root_of(cwd, facts, candidate_is_dir) == facts.workdir.unwrap(),
        (!candidate_is_dir || file_name_of(facts.common_dir) != Some(".git"@)) && facts.workdir is None
            ==> project_root_of(cwd, facts, candidate_is_dir) == cwd,
        usual_root(facts) is Some <==> file_name_of(facts.common_dir) == Some(".git"@),
{
}

/// All repetitions of a suffix are taken off, and nothing else.
pub proof fn law_a_suffix_is_taken_off_again_and_again(s: Seq<char>, p: Seq<char>)
    requires
        p.len() > 0,
    ensures
        without_suffix(s + p, p) == without_suffix(s, p),
        !has_suffix(s, p) ==> without_suffix(s, p) == s,
        !has_suffix(without_suffix(s, p), p),
    decreases s.len(),
{
    assert((s + p).skip((s + p).len() - p.len()) =~= p);
    assert((s + p).take((s + p).len() - p.len()) =~= s);
    if has_suffix(s, p) {
        law_a_suffix_is_taken_off_again_and_again(s.take(s.len() - p.len()), p);
    }
}

} // verus!
