//! How programs are started.
use vstd::prelude::*;
use crate::text::{opt_view, same, views};

verus! {

/// A variable of the environment of a program.
#[derive(Debug, Clone)]
pub struct EnvVar {
    pub name: String,
    pub value: String,
}

/// The model of [`EnvVar`].
#[verifier::ext_equal]
pub struct EnvVarView {
    pub name: Seq<char>,
    pub value: Seq<char>,
}

impl View for EnvVar {
    type V = EnvVarView;

    open spec fn view(&self) -> EnvVarView {
        EnvVarView {
            name: self.name@,
            value: self.value@,
        }
    }
}

impl EnvVar {
    /// A copy with the same content.
    pub fn copy(&self) -> (r: EnvVar)
        ensures
            r@ == self@,
    {
        EnvVar {
            name: self.name.clone(),
            value: self.value.clone(),
        }
    }
}

/// How a program is started.
#[derive(Debug, Clone)]
pub struct CommandSpec {
    pub command: String,
    pub args: Vec<String>,
    pub env: Vec<EnvVar>,
    pub cwd: Option<String>,
}

/// The model of [`CommandSpec`].
#[verifier::ext_equal]
pub struct CommandSpecView {
    pub command: Seq<char>,
    pub args: Seq<Seq<char>>,
    pub env: Seq<EnvVarView>,
    pub cwd: Option<Seq<char>>,
}

impl View for CommandSpec {
    type V = CommandSpecView;

    open spec fn view(&self) -> CommandSpecView {
        CommandSpecView {
            command: self.command@,
            args: views(self.args@),
            env: views(self.env@),
            cwd: opt_view(self.cwd),
        }
    }
}

/// The variables that are not called `name`, in their order.
pub open spec fn other_vars(env: Seq<EnvVarView>, name: Seq<char>) -> Seq<EnvVarView>
    decreases env.len(),
{
    if env.len() == 0 {
        Seq::empty()
    } else if env.last().name == name {
        other_vars(env.drop_last(), name)
    } else {
        other_vars(env.drop_last(), name).push(env.last())
    }
}

/// The environment with a variable set: it takes the last place, whatever stood under its
/// name before is gone.
pub open spec fn env_with(env: Seq<EnvVarView>, name: Seq<char>, value: Seq<char>) -> Seq<EnvVarView> {
    other_vars(env, name).push(EnvVarView { name, value })
}

/// How often a name stands in an environment.
pub open spec fn times_named(env: Seq<EnvVarView>, name: Seq<char>) -> nat
    decreases env.len(),
{
    if env.len() == 0 {
        0
    } else if env.last().name == name {
        times_named(env.drop_last(), name) + 1
    } else {
        times_named(env.drop_last(), name)
    }
}

proof fn lemma_other_vars(env: Seq<EnvVarView>, name: Seq<char>, other: Seq<char>)
    ensures
        times_named(other_vars(env, name), name) == 0,
        other != name ==> times_named(other_vars(env, name), other) == times_named(env, other),
        other != name ==> other_vars(other_vars(env, other), name) == other_vars(other_vars(env, name), other),
        forall|i: int|
            0 <= i < other_vars(env, name).len() ==> env.contains(#[trigger] other_vars(env, name)[i]),
    decreases env.len(),
{
    if env.len() > 0 {
        let init = env.drop_last();
        lemma_other_vars(init, name, other);
        let rest = other_vars(init, name);
        assert(rest.push(env.last()).drop_last() =~= rest);
        let skipped = other_vars(init, other);
        assert(skipped.push(env.last()).drop_last() =~= skipped);
        assert forall|i: int| 0 <= i < other_vars(env, name).len() implies env.contains(
            #[trigger] other_vars(env, name)[i],
        ) by {
            if i < rest.len() {
                assert(init.contains(rest[i]));
                let k = choose|k: int| 0 <= k < init.len() && init[k] == rest[i];
                assert(env[k] == rest[i]);
            } else {
                assert(env[env.len() - 1] == env.last());
            }
        }
    }
}

/// A variable that was set stands in the environment once, with its value, and the variables
/// of other names are the same as before, in the same order.
pub proof fn law_setting_replaces(env: Seq<EnvVarView>, name: Seq<char>, value: Seq<char>)
    ensures
        times_named(env_with(env, name, value), name) == 1,
        env_with(env, name, value).last() == (EnvVarView { name, value }),
        other_vars(env_with(env, name, value), name) == other_vars(env, name),
{
    lemma_other_vars(env, name, name);
    let rest = other_vars(env, name);
    assert(env_with(env, name, value).drop_last() =~= rest);
    lemma_without(rest, name);
}

proof fn lemma_without(env: Seq<EnvVarView>, name: Seq<char>)
    requires
        times_named(env, name) == 0,
    ensures
        other_vars(env, name) == env,
    decreases env.len(),
{
    if env.len() > 0 {
        lemma_without(env.drop_last(), name);
        assert(env.drop_last().push(env.last()) =~= env);
    }
}

/// Setting one variable leaves how often another stands there.
pub proof fn law_setting_leaves_the_others(env: Seq<EnvVarView>, name: Seq<char>, value: Seq<char>, other: Seq<char>)
    requires
        other != name,
    ensures
        times_named(env_with(env, name, value), other) == times_named(env, other),
{
    lemma_other_vars(env, name, other);
    assert(env_with(env, name, value).drop_last() =~= other_vars(env, name));
}

/// Sets a variable.
pub fn upsert_pair(env: &mut Vec<EnvVar>, name: &str, value: String)
    ensures
        views(final(env)@) == env_with(views(old(env)@), name@, value@),
{
    let ghost all = views(env@);
    let mut kept: Vec<EnvVar> = Vec::new();
    let mut i: usize = 0;
    assert(all.take(0) =~= Seq::empty());
    while i < env.len()
        invariant
            i <= env@.len(),
            all == views(env@),
            views(kept@) == other_vars(all.take(i as int), name@),
        decreases env@.len() - i,
    {
        let ghost before = views(kept@);
        proof {
            assert(all.take(i + 1).drop_last() =~= all.take(i as int));
            assert(all.take(i + 1).last() == env@[i as int]@);
        }
        if !same(env[i].name.as_str(), name) {
            kept.push(env[i].copy());
            assert(views(kept@) =~= before.push(kept@.last()@));
        }
        i += 1;
    }
    assert(all.take(i as int) =~= all);
    let ghost before = views(kept@);
    kept.push(EnvVar { name: name.to_owned(), value });
    assert(views(kept@) =~= before.push(kept@.last()@));
    *env = kept;
}

/// Sets a variable for a program that is to be started.
pub fn upsert_command_env(command: &mut CommandSpec, name: &str, value: String)
    ensures
        final(command)@ == (CommandSpecView { env: env_with(old(command)@.env, name@, value@), ..old(command)@ }),
{
    upsert_pair(&mut command.env, name, value);
}

/// After a variable was set it is there with its new value, and each other variable is there
/// exactly if it was, with the value that it had.
pub proof fn law_a_set_variable_has_its_value(
    env: Seq<EnvVarView>,
    name: Seq<char>,
    value: Seq<char>,
    v: EnvVarView,
)
    ensures
        env_with(env, name, value).contains(EnvVarView { name, value }),
        v.name == name ==> (env_with(env, name, value).contains(v) <==> v.value == value),
        v.name != name ==> (env_with(env, name, value).contains(v) <==> env.contains(v)),
{
    let after = env_with(env, name, value);
    let one = EnvVarView { name, value };
    assert(after[after.len() - 1] == one);
    lemma_other_vars_are_kept(env, name, v);
    let others = other_vars(env, name);
    if others.contains(v) {
        let k = others.index_of(v);
        assert(after[k] == v);
    }
    if after.contains(v) && v != one {
        let k = after.index_of(v);
        assert(others[k] == v);
    }
}

proof fn lemma_other_vars_are_kept(env: Seq<EnvVarView>, name: Seq<char>, v: EnvVarView)
    ensures
        other_vars(env, name).contains(v) <==> env.contains(v) && v.name != name,
    decreases env.len(),
{
    if env.len() > 0 {
        let init = env.drop_last();
        let last = env.last();
        lemma_other_vars_are_kept(init, name, v);
        let before = other_vars(init, name);
        let after = other_vars(env, name);
        assert(env[env.len() - 1] == last);
        if env.contains(v) && v != last {
            let k = env.index_of(v);
            assert(init[k] == v);
        }
        if init.contains(v) {
            let k = init.index_of(v);
            assert(env[k] == v);
        }
        if before.contains(v) {
            let k = before.index_of(v);
            assert(after[k] == v);
        }
        if last.name != name {
            assert(after[after.len() - 1] == last);
        }
        if after.contains(v) && !before.contains(v) {
            let k = after.index_of(v);
            if k < before.len() {
                assert(before[k] == v);
            }
        }
    }
}

} // verus!
