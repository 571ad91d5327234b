//! From a command to the task it speaks of, and to what is to be done.
use vstd::prelude::*;
use crate::api::{
    StewardCommandResponse, StewardCommandResponseView, StewardTaskLifecycle, StewardTaskResponse,
    StewardTaskResponseView, StewardTaskSessionResponseView,
};
use crate::command::{CommandView, ParsedStewardCommand, FIXED_COMMAND_HELP};
use crate::conversation::{ConversationResponse, ConversationResponseView, MessageRow, MessageRowView};
use crate::display::{
    chosen, concat3, format_task_status_list, law_joined_holds_its_parts, law_none_is_chosen, law_open_ones_are_open,
    law_several_are_chosen, law_the_only_one_is_chosen, open_ones, open_tasks, status_list, NO_OPEN_TASK,
};
use crate::json::{json_text, law_object_holds_its_entries, object_of, text_field, Json, JsonView};
use crate::text::{
    as_text, ascii_lowered, chars_of, contains, has_text, join, joined, lowercase, occurs_at, opt_view, same,
    same_ignoring_ascii_case, same_opt, to_lowercase, to_owned_opt, trim, trimmed, views,
};

verus! {

/// What a command's target leads to.
#[derive(Debug, Clone)]
pub enum CommandTaskLookup {
    Found(Box<StewardTaskResponse>),
    Message(String),
}

/// The model of [`CommandTaskLookup`].
#[verifier::ext_equal]
pub enum LookupView {
    Found(StewardTaskResponseView),
    Message(Seq<char>),
}

impl View for CommandTaskLookup {
    type V = LookupView;

    open spec fn view(&self) -> LookupView {
        match *self {
            CommandTaskLookup::Found(t) => LookupView::Found((*t)@),
            CommandTaskLookup::Message(m) => LookupView::Message(m@),
        }
    }
}

/// Whether two texts are the same but for the case of ASCII letters.
pub open spec fn alike(a: Seq<char>, b: Seq<char>) -> bool {
    ascii_lowered(a) == ascii_lowered(b)
}

/// Whether a session is named by exactly this text.
pub open spec fn session_named(sessions: Seq<StewardTaskSessionResponseView>, target: Seq<char>) -> bool {
    exists|i: int|
        0 <= i < sessions.len() && (alike((#[trigger] sessions[i]).conversation_id, target) || alike(
            sessions[i].conversation_name,
            target,
        ))
}

/// A task is named by exactly this text: by its identifier, its title, or one of its
/// sessions.
pub open spec fn named_exactly(target: Seq<char>) -> spec_fn(StewardTaskResponseView) -> bool {
    |t: StewardTaskResponseView| alike(t.id, target) || alike(t.title, target) || session_named(t.sessions, target)
}

/// Whether one of the names holds this text.
pub open spec fn a_name_holds(names: Seq<Seq<char>>, needle: Seq<char>) -> bool {
    exists|i: int| 0 <= i < names.len() && has_text(#[trigger] names[i], needle)
}

/// The tasks one of whose names holds this text, in order. Each task has its list of names.
pub open spec fn holding(
    tasks: Seq<StewardTaskResponseView>,
    names: Seq<Seq<Seq<char>>>,
    needle: Seq<char>,
) -> Seq<StewardTaskResponseView>
    decreases tasks.len(),
{
    if tasks.len() == 0 {
        Seq::empty()
    } else {
        let before = holding(tasks.drop_last(), names.drop_last(), needle);
        if a_name_holds(names.last(), needle) {
            before.push(tasks.last())
        } else {
            before
        }
    }
}

/// The names of a task in lower case: its title, and those of its sessions.
pub open spec fn lowered_names(t: StewardTaskResponseView) -> Seq<Seq<char>> {
    seq![lowercase(t.title)] + Seq::new(t.sessions.len(), |i: int| lowercase(t.sessions[i].conversation_name))
}

/// The names of each task in lower case.
pub open spec fn all_lowered_names(tasks: Seq<StewardTaskResponseView>) -> Seq<Seq<Seq<char>>> {
    Seq::new(tasks.len(), |i: int| lowered_names(tasks[i]))
}

/// The list of titles from which one is to be chosen.
pub open spec fn ambiguous_words(target: Seq<char>, found: Seq<StewardTaskResponseView>) -> Seq<char> {
    "任务名「"@ + target + "」不唯一，请指定：\n"@ + joined(
        Seq::new(found.len(), |i: int| "- "@ + found[i].title),
        "\n"@,
    )
}

/// The one open task, or a message where there is not exactly one.
pub open spec fn sole_open(tasks: Seq<StewardTaskResponseView>) -> LookupView {
    let open = open_ones(tasks);
    if open.len() == 0 {
        LookupView::Message(NO_OPEN_TASK@)
    } else if open.len() == 1 {
        LookupView::Found(open[0])
    } else {
        LookupView::Message(status_list(open))
    }
}

/// The only task named exactly so, else the only task one of whose names holds the needle, or
/// a message where there is not exactly one.
pub open spec fn named_in(
    tasks: Seq<StewardTaskResponseView>,
    names: Seq<Seq<Seq<char>>>,
    name: Seq<char>,
    needle: Seq<char>,
) -> LookupView {
    let exact = chosen(tasks, named_exactly(name));
    let partial = holding(tasks, names, needle);
    if exact.len() == 1 {
        LookupView::Found(exact[0])
    } else if partial.len() == 0 {
        LookupView::Message("没有找到任务「"@ + name + "」。可使用 /tasks 查看任务列表。"@)
    } else if partial.len() == 1 {
        LookupView::Found(partial[0])
    } else {
        LookupView::Message(ambiguous_words(name, partial))
    }
}

/// The task that a target names. Without a target it is the one that is open; with one it
/// is the only task named exactly so, else the only task whose name holds it in lower case.
pub open spec fn task_named(tasks: Seq<StewardTaskResponseView>, target: Option<Seq<char>>) -> LookupView {
    if target is None || trimmed(target.unwrap()).len() == 0 {
        sole_open(tasks)
    } else {
        let name = trimmed(target.unwrap());
        named_in(tasks, all_lowered_names(tasks), name, lowercase(name))
    }
}

fn is_named_exactly(t: &StewardTaskResponse, target: &str) -> (r: bool)
    ensures
        r == named_exactly(target@)(t@),
{
    if same_ignoring_ascii_case(t.id.as_str(), target) || same_ignoring_ascii_case(t.title.as_str(), target) {
        return true;
    }
    let mut i: usize = 0;
    while i < t.sessions.len()
        invariant
            i <= t.sessions@.len(),
            forall|k: int|
                0 <= k < i ==> !(alike((#[trigger] t@.sessions[k]).conversation_id, target@) || alike(
                    t@.sessions[k].conversation_name,
                    target@,
                )),
        decreases t.sessions@.len() - i,
    {
        let s = &t.sessions[i];
        if same_ignoring_ascii_case(s.conversation_id.as_str(), target) || same_ignoring_ascii_case(
            s.conversation_name.as_str(),
            target,
        ) {
            assert(t@.sessions[i as int] == s@);
            return true;
        }
        i += 1;
    }
    false
}

fn some_name_holds(names: &Vec<String>, needle: &str) -> (r: bool)
    ensures
        r == a_name_holds(views(names@), needle@),
{
    let mut i: usize = 0;
    while i < names.len()
        invariant
            i <= names@.len(),
            forall|k: int| 0 <= k < i ==> !has_text(#[trigger] views(names@)[k], needle@),
        decreases names@.len() - i,
    {
        if contains(names[i].as_str(), needle) {
            assert(has_text(views(names@)[i as int], needle@));
            return true;
        }
        i += 1;
    }
    false
}

/// The lists of names as the model has them.
pub open spec fn name_lists(names: Seq<Vec<String>>) -> Seq<Seq<Seq<char>>> {
    Seq::new(names.len(), |i: int| views(names[i]@))
}

/// Where the tasks named exactly so stand.
fn exact_positions(tasks: &Vec<StewardTaskResponse>, name: &str) -> (r: Vec<usize>)
    ensures
        forall|k: int| 0 <= k < r@.len() ==> #[trigger] r@[k] < tasks@.len(),
        Seq::new(r@.len(), |k: int| views(tasks@)[r@[k] as int]) == chosen(views(tasks@), named_exactly(name@)),
{
    let ghost all = views(tasks@);
    let mut out: Vec<usize> = Vec::new();
    let mut i: usize = 0;
    assert(all.take(0) =~= Seq::empty());
    assert(Seq::new(out@.len(), |k: int| all[out@[k] as int]) =~= Seq::empty());
    while i < tasks.len()
        invariant
            i <= tasks@.len(),
            all == views(tasks@),
            forall|k: int| 0 <= k < out@.len() ==> #[trigger] out@[k] < i,
            Seq::new(out@.len(), |k: int| all[out@[k] as int]) == chosen(all.take(i as int), named_exactly(name@)),
        decreases tasks@.len() - i,
    {
        proof {
            assert(all.take(i + 1).drop_last() =~= all.take(i as int));
            assert(all.take(i + 1).last() == tasks@[i as int]@);
        }
        if is_named_exactly(&tasks[i], name) {
            let ghost before = Seq::new(out@.len(), |k: int| all[out@[k] as int]);
            out.push(i);
            assert(Seq::new(out@.len(), |k: int| all[out@[k] as int]) =~= before.push(all[i as int]));
        }
        i += 1;
    }
    assert(all.take(i as int) =~= all);
    out
}

/// Where the tasks stand one of whose names holds the needle.
fn holding_positions(Ghost(tasks): Ghost<Seq<StewardTaskResponseView>>, names: &Vec<Vec<String>>, needle: &str) -> (r:
    Vec<usize>)
    requires
        names@.len() == tasks.len(),
    ensures
        forall|k: int| 0 <= k < r@.len() ==> #[trigger] r@[k] < tasks.len(),
        Seq::new(r@.len(), |k: int| tasks[r@[k] as int]) == holding(tasks, name_lists(names@), needle@),
{
    let ghost lists = name_lists(names@);
    let mut out: Vec<usize> = Vec::new();
    let mut i: usize = 0;
    assert(tasks.take(0) =~= Seq::empty());
    assert(Seq::new(out@.len(), |k: int| tasks[out@[k] as int]) =~= Seq::empty());
    while i < names.len()
        invariant
            i <= names@.len() == tasks.len(),
            lists == name_lists(names@),
            forall|k: int| 0 <= k < out@.len() ==> #[trigger] out@[k] < i,
            Seq::new(out@.len(), |k: int| tasks[out@[k] as int]) == holding(
                tasks.take(i as int),
                lists.take(i as int),
                needle@,
            ),
        decreases names@.len() - i,
    {
        proof {
            assert(tasks.take(i + 1).drop_last() =~= tasks.take(i as int));
            assert(lists.take(i + 1).drop_last() =~= lists.take(i as int));
            assert(lists.take(i + 1).last() == views(names@[i as int]@));
        }
        if some_name_holds(&names[i], needle) {
            let ghost before = Seq::new(out@.len(), |k: int| tasks[out@[k] as int]);
            out.push(i);
            assert(Seq::new(out@.len(), |k: int| tasks[out@[k] as int]) =~= before.push(tasks[i as int]));
        }
        i += 1;
    }
    assert(tasks.take(i as int) =~= tasks);
    assert(lists.take(i as int) =~= lists);
    out
}

fn lower_names(t: &StewardTaskResponse) -> (r: Vec<String>)
    ensures
        views(r@) == lowered_names(t@),
{
    let mut out: Vec<String> = Vec::new();
    out.push(to_lowercase(t.title.as_str()));
    let mut i: usize = 0;
    assert(views(out@) =~= lowered_names(t@).take(1));
    while i < t.sessions.len()
        invariant
            i <= t.sessions@.len(),
            views(out@) == lowered_names(t@).take(i + 1),
        decreases t.sessions@.len() - i,
    {
        let ghost before = views(out@);
        out.push(to_lowercase(t.sessions[i].conversation_name.as_str()));
        assert(t@.sessions[i as int] == t.sessions@[i as int]@);
        i += 1;
        assert(views(out@) =~= before.push(lowercase(t@.sessions[i - 1].conversation_name)));
        assert(views(out@) =~= lowered_names(t@).take(i + 1));
    }
    assert(lowered_names(t@).take(i + 1) =~= lowered_names(t@));
    out
}

fn lower_all_names(tasks: &Vec<StewardTaskResponse>) -> (r: Vec<Vec<String>>)
    ensures
        name_lists(r@) == all_lowered_names(views(tasks@)),
{
    let mut out: Vec<Vec<String>> = Vec::new();
    let mut i: usize = 0;
    while i < tasks.len()
        invariant
            i <= tasks@.len(),
            out@.len() == i,
            forall|k: int| 0 <= k < i ==> views(#[trigger] out@[k]@) == lowered_names(tasks@[k]@),
        decreases tasks@.len() - i,
    {
        out.push(lower_names(&tasks[i]));
        i += 1;
    }
    assert(name_lists(out@) =~= all_lowered_names(views(tasks@)));
    out
}

/// Finds the task with this name, or the one of whose names one holds the needle, or says why
/// there is none. Each task has its list of names, in lower case as the needle is.
pub fn find_named_task(tasks: &Vec<StewardTaskResponse>, names: &Vec<Vec<String>>, name: &str, needle: &str) -> (r:
    CommandTaskLookup)
    requires
        names@.len() == tasks@.len(),
    ensures
        r@ == named_in(views(tasks@), name_lists(names@), name@, needle@),
{
    let ghost all = views(tasks@);
    let exact = exact_positions(tasks, name);
    let ghost exact_ones = Seq::new(exact@.len(), |k: int| all[exact@[k] as int]);
    if exact.len() == 1 {
        assert(exact_ones[0] == tasks@[exact@[0] as int]@);
        return CommandTaskLookup::Found(Box::new(tasks[exact[0]].copy()));
    }
    let partial = holding_positions(Ghost(all), names, needle);
    let ghost found = Seq::new(partial@.len(), |k: int| all[partial@[k] as int]);
    if partial.len() == 0 {
        return CommandTaskLookup::Message(
            concat3("没有找到任务「", name, "」。可使用 /tasks 查看任务列表。"),
        );
    }
    if partial.len() == 1 {
        assert(found[0] == tasks@[partial@[0] as int]@);
        return CommandTaskLookup::Found(Box::new(tasks[partial[0]].copy()));
    }
    let mut titles: Vec<String> = Vec::new();
    let ghost lines = Seq::new(found.len(), |i: int| "- "@ + found[i].title);
    let mut i: usize = 0;
    while i < partial.len()
        invariant
            i <= partial@.len(),
            all == views(tasks@),
            forall|k: int| 0 <= k < partial@.len() ==> #[trigger] partial@[k] < tasks@.len(),
            found == Seq::new(partial@.len(), |k: int| all[partial@[k] as int]),
            lines == Seq::new(found.len(), |i: int| "- "@ + found[i].title),
            views(titles@) == lines.take(i as int),
        decreases partial@.len() - i,
    {
        let ghost before = views(titles@);
        let mut line = "- ".to_owned();
        line.append(tasks[partial[i]].title.as_str());
        titles.push(line);
        i += 1;
        assert(views(titles@) =~= before.push(lines[i - 1]));
        assert(views(titles@) =~= lines.take(i as int));
    }
    assert(lines.take(i as int) =~= lines);
    let mut text = concat3("任务名「", name, "」不唯一，请指定：\n");
    text.append(join(&titles, "\n").as_str());
    CommandTaskLookup::Message(text)
}

/// Finds the task that a command speaks of, or says why there is none.
pub fn resolve_command_task(tasks: &Vec<StewardTaskResponse>, target: Option<&str>) -> (r: CommandTaskLookup)
    ensures
        r@ == task_named(views(tasks@), opt_view(target)),
{
    let name = match target {
        Some(t) => trim(t),
        None => "",
    };
    proof {
        reveal_strlit("");
    }
    if name.is_empty() {
        let open = open_tasks(tasks);
        if open.len() == 0 {
            return CommandTaskLookup::Message(NO_OPEN_TASK.to_owned());
        }
        if open.len() == 1 {
            assert(views(open@)[0] == open@[0]@);
            return CommandTaskLookup::Found(Box::new(open[0].copy()));
        }
        return CommandTaskLookup::Message(format_task_status_list(&open));
    }
    let names = lower_all_names(tasks);
    assert(name_lists(names@).len() == tasks@.len());
    find_named_task(tasks, &names, name, to_lowercase(name).as_str())
}

/// A task that a command acts on is one of the user's tasks.
pub proof fn law_lookup_finds_only_listed_tasks(tasks: Seq<StewardTaskResponseView>, target: Option<Seq<char>>)
    ensures
        task_named(tasks, target) matches LookupView::Found(t) ==> tasks.contains(t),
{
    lemma_chosen_are_listed(tasks, crate::overview::open_task());
    if target is Some {
        let name = trimmed(target.unwrap());
        lemma_chosen_are_listed(tasks, named_exactly(name));
        lemma_holding_are_listed(tasks, all_lowered_names(tasks), lowercase(name));
    }
}

proof fn lemma_holding_are_listed(
    tasks: Seq<StewardTaskResponseView>,
    names: Seq<Seq<Seq<char>>>,
    needle: Seq<char>,
)
    ensures
        forall|i: int|
            0 <= i < holding(tasks, names, needle).len() ==> tasks.contains(
                #[trigger] holding(tasks, names, needle)[i],
            ),
    decreases tasks.len(),
{
    if tasks.len() > 0 {
        let init = tasks.drop_last();
        let before = holding(init, names.drop_last(), needle);
        lemma_holding_are_listed(init, names.drop_last(), needle);
        assert forall|i: int| 0 <= i < holding(tasks, names, needle).len() implies tasks.contains(
            #[trigger] holding(tasks, names, needle)[i],
        ) by {
            if i < before.len() {
                assert(holding(tasks, names, needle)[i] == before[i]);
                let k = choose|k: int| 0 <= k < init.len() && init[k] == before[i];
                assert(tasks[k] == holding(tasks, names, needle)[i]);
            } else {
                assert(tasks[tasks.len() - 1] == holding(tasks, names, needle)[i]);
            }
        }
    }
}

proof fn lemma_chosen_are_listed(
    tasks: Seq<StewardTaskResponseView>,
    p: spec_fn(StewardTaskResponseView) -> bool,
)
    ensures
        forall|i: int| 0 <= i < chosen(tasks, p).len() ==> tasks.contains(#[trigger] chosen(tasks, p)[i]),
    decreases tasks.len(),
{
    if tasks.len() > 0 {
        let init = tasks.drop_last();
        lemma_chosen_are_listed(init, p);
        assert forall|i: int| 0 <= i < chosen(tasks, p).len() implies tasks.contains(
            #[trigger] chosen(tasks, p)[i],
        ) by {
            if i < chosen(init, p).len() {
                assert(chosen(tasks, p)[i] == chosen(init, p)[i]);
                let k = choose|k: int| 0 <= k < init.len() && init[k] == chosen(init, p)[i];
                assert(tasks[k] == chosen(tasks, p)[i]);
            } else {
                assert(tasks[tasks.len() - 1] == chosen(tasks, p)[i]);
            }
        }
    }
}

// ---------------------------------------------------------------------
// What a command asks to be done
// ---------------------------------------------------------------------

/// What is to be done for a command.
#[derive(Debug, Clone)]
pub enum CommandPlan {
    /// Answer at once.
    Reply(String),
    /// Show everything.
    ShowOverview,
    /// Tell how the task stands.
    ShowStatus(Box<StewardTaskResponse>),
    /// Tell what the task's team is doing.
    ShowWorkers(Box<StewardTaskResponse>),
    /// Bring the task's runtime up again.
    Resume(Box<StewardTaskResponse>),
    /// Archive or restore the task.
    SetArchived(Box<StewardTaskResponse>, bool),
    /// Ask the task's leader.
    Ask(Box<StewardTaskResponse>, String),
}

/// The model of [`CommandPlan`].
#[verifier::ext_equal]
pub enum PlanView {
    Reply(Seq<char>),
    ShowOverview,
    ShowStatus(StewardTaskResponseView),
    ShowWorkers(StewardTaskResponseView),
    Resume(StewardTaskResponseView),
    SetArchived(StewardTaskResponseView, bool),
    Ask(StewardTaskResponseView, Seq<char>),
}

impl View for CommandPlan {
    type V = PlanView;

    open spec fn view(&self) -> PlanView {
        match *self {
            CommandPlan::Reply(text) => PlanView::Reply(text@),
            CommandPlan::ShowOverview => PlanView::ShowOverview,
            CommandPlan::ShowStatus(t) => PlanView::ShowStatus((*t)@),
            CommandPlan::ShowWorkers(t) => PlanView::ShowWorkers((*t)@),
            CommandPlan::Resume(t) => PlanView::Resume((*t)@),
            CommandPlan::SetArchived(t, archived) => PlanView::SetArchived((*t)@, archived),
            CommandPlan::Ask(t, question) => PlanView::Ask((*t)@, question@),
        }
    }
}

/// Whether a command concerns the user's tasks, so that these are to be loaded first.
pub open spec fn concerns_tasks(command: CommandView) -> bool {
    !(command is Help) && !(command is Tasks)
}

/// Whether the user's tasks are to be loaded for a command.
pub fn needs_tasks(command: &ParsedStewardCommand) -> (r: bool)
    ensures
        r == concerns_tasks(command@),
{
    match command {
        ParsedStewardCommand::Help | ParsedStewardCommand::Tasks => false,
        _ => true,
    }
}

/// What is to be done for a command, given the user's tasks.
pub open spec fn plan_of(command: CommandView, tasks: Seq<StewardTaskResponseView>) -> PlanView {
    match command {
        CommandView::Help => PlanView::Reply(FIXED_COMMAND_HELP@),
        CommandView::Tasks => PlanView::ShowOverview,
        CommandView::Status(target) => if target is None && open_ones(tasks).len() != 1 {
            PlanView::Reply(status_list(tasks))
        } else {
            match task_named(tasks, target) {
                LookupView::Found(t) => PlanView::ShowStatus(t),
                LookupView::Message(m) => PlanView::Reply(m),
            }
        },
        CommandView::Workers(target) => match task_named(tasks, target) {
            LookupView::Found(t) => PlanView::ShowWorkers(t),
            LookupView::Message(m) => PlanView::Reply(m),
        },
        CommandView::Resume(target) => match task_named(tasks, target) {
            LookupView::Found(t) => PlanView::Resume(t),
            LookupView::Message(m) => PlanView::Reply(m),
        },
        CommandView::Archive(target) => match task_named(tasks, Some(target)) {
            LookupView::Found(t) => PlanView::SetArchived(t, true),
            LookupView::Message(m) => PlanView::Reply(m),
        },
        CommandView::Restore(target) => match task_named(tasks, Some(target)) {
            LookupView::Found(t) => PlanView::SetArchived(t, false),
            LookupView::Message(m) => PlanView::Reply(m),
        },
        CommandView::Ask { target, question } => match task_named(tasks, target) {
            LookupView::Found(t) => PlanView::Ask(t, question),
            LookupView::Message(m) => PlanView::Reply(m),
        },
    }
}

/// Decides what is to be done for a command.
pub fn execute_parsed_command(command: ParsedStewardCommand, tasks: &Vec<StewardTaskResponse>) -> (r: CommandPlan)
    ensures
        r@ == plan_of(command@, views(tasks@)),
{
    match command {
        ParsedStewardCommand::Help => CommandPlan::Reply(FIXED_COMMAND_HELP.to_owned()),
        ParsedStewardCommand::Tasks => CommandPlan::ShowOverview,
        ParsedStewardCommand::Status(target) => {
            if target.is_none() {
                let open = open_tasks(tasks);
                if open.len() != 1 {
                    return CommandPlan::Reply(format_task_status_list(tasks));
                }
            }
            match resolve_command_task(tasks, as_text(&target)) {
                CommandTaskLookup::Found(t) => CommandPlan::ShowStatus(t),
                CommandTaskLookup::Message(m) => CommandPlan::Reply(m),
            }
        },
        ParsedStewardCommand::Workers(target) => match resolve_command_task(tasks, as_text(&target)) {
            CommandTaskLookup::Found(t) => CommandPlan::ShowWorkers(t),
            CommandTaskLookup::Message(m) => CommandPlan::Reply(m),
        },
        ParsedStewardCommand::Resume(target) => match resolve_command_task(tasks, as_text(&target)) {
            CommandTaskLookup::Found(t) => CommandPlan::Resume(t),
            CommandTaskLookup::Message(m) => CommandPlan::Reply(m),
        },
        ParsedStewardCommand::Archive(target) => match resolve_command_task(tasks, Some(target.as_str())) {
            CommandTaskLookup::Found(t) => CommandPlan::SetArchived(t, true),
            CommandTaskLookup::Message(m) => CommandPlan::Reply(m),
        },
        ParsedStewardCommand::Restore(target) => match resolve_command_task(tasks, Some(target.as_str())) {
            CommandTaskLookup::Found(t) => CommandPlan::SetArchived(t, false),
            CommandTaskLookup::Message(m) => CommandPlan::Reply(m),
        },
        ParsedStewardCommand::Ask { target, question } => match resolve_command_task(tasks, as_text(&target)) {
            CommandTaskLookup::Found(t) => CommandPlan::Ask(t, question),
            CommandTaskLookup::Message(m) => CommandPlan::Reply(m),
        },
    }
}

/// Nothing but an explicit command to archive, restore, resume or ask changes anything: the
/// other commands only show.
pub proof fn law_queries_only_show(command: CommandView, tasks: Seq<StewardTaskResponseView>)
    ensures
        plan_of(command, tasks) is SetArchived ==> command is Archive || command is Restore,
        plan_of(command, tasks) matches PlanView::SetArchived(_, archived) ==> archived == (command is Archive),
        plan_of(command, tasks) is Resume ==> command is Resume,
        plan_of(command, tasks) is Ask ==> command is Ask,
{
}

/// The answer to a command that was carried out.
pub open spec fn handled(
    name: Seq<char>,
    text: Seq<char>,
    task_id: Option<Seq<char>>,
    conversation_id: Option<Seq<char>>,
    user_msg_id: Seq<char>,
    response_msg_id: Seq<char>,
    executed_at: i64,
) -> StewardCommandResponseView {
    StewardCommandResponseView {
        handled: true,
        command: Some(name),
        text: Some(text),
        task_id,
        conversation_id,
        user_msg_id: Some(user_msg_id),
        response_msg_id: Some(response_msg_id),
        executed_at,
    }
}

/// The answer to a command that was carried out.
pub fn handled_command_response(
    name: &str,
    text: String,
    task_id: Option<String>,
    conversation_id: Option<String>,
    user_msg_id: String,
    response_msg_id: String,
    executed_at: i64,
) -> (r: StewardCommandResponse)
    ensures
        r@ == handled(
            name@,
            text@,
            opt_view(task_id),
            opt_view(conversation_id),
            user_msg_id@,
            response_msg_id@,
            executed_at,
        ),
{
    StewardCommandResponse {
        handled: true,
        command: Some(name.to_owned()),
        text: Some(text),
        task_id,
        conversation_id,
        user_msg_id: Some(user_msg_id),
        response_msg_id: Some(response_msg_id),
        executed_at,
    }
}

/// The message that keeps one side of an exchange.
pub open spec fn exchange_message(
    id: Seq<char>,
    conversation_id: Seq<char>,
    text: Seq<char>,
    side: Seq<char>,
    at: i64,
    turn: Option<Seq<char>>,
) -> MessageRowView {
    MessageRowView {
        id,
        conversation_id,
        msg_id: Some(id),
        message_type: "text"@,
        content: json_text(object_of(seq![("content"@, JsonView::Text(text))])),
        position: Some(side),
        status: Some("finish"@),
        hidden: false,
        created_at: at,
        backend_turn_id: turn,
    }
}

/// The next millisecond, as far as there is one.
pub open spec fn next_ms(at: i64) -> i64 {
    if at == i64::MAX {
        at
    } else {
        (at + 1) as i64
    }
}

fn make_exchange_message(
    id: &str,
    conversation_id: &str,
    text: &str,
    side: &str,
    at: i64,
    turn: Option<&str>,
) -> (r: MessageRow)
    ensures
        r@ == exchange_message(id@, conversation_id@, text@, side@, at, opt_view(turn)),
{
    MessageRow {
        id: id.to_owned(),
        conversation_id: conversation_id.to_owned(),
        msg_id: Some(id.to_owned()),
        message_type: "text".to_owned(),
        content: Json::object1("content", Json::text(text)).to_text(),
        position: Some(side.to_owned()),
        status: Some("finish".to_owned()),
        hidden: false,
        created_at: at,
        backend_turn_id: crate::text::to_owned_opt(turn),
    }
}

/// The two messages that keep a command and its answer: what was typed on the right, and a
/// millisecond later the answer on the left.
pub fn persist_command_exchange(
    conversation_id: &str,
    input: &str,
    output: &str,
    command_id: &str,
    user_msg_id: &str,
    response_msg_id: &str,
    executed_at: i64,
) -> (r: (MessageRow, MessageRow))
    ensures
        r.0@ == exchange_message(user_msg_id@, conversation_id@, input@, "right"@, executed_at, None),
        r.1@ == exchange_message(
            response_msg_id@,
            conversation_id@,
            output@,
            "left"@,
            next_ms(executed_at),
            Some(command_id@),
        ),
{
    let later: i64 = if executed_at == i64::MAX {
        executed_at
    } else {
        executed_at + 1
    };
    (
        make_exchange_message(user_msg_id, conversation_id, input, "right", executed_at, None),
        make_exchange_message(response_msg_id, conversation_id, output, "left", later, Some(command_id)),
    )
}

// ---------------------------------------------------------------------
// The members of a team
// ---------------------------------------------------------------------

/// Whether a conversation is that of a member of the team.
pub open spec fn is_member(extra: JsonView, team_id: Seq<char>) -> bool {
    text_field(extra, "teamId"@) == Some(team_id) && text_field(extra, "role"@) == Some("teammate"@)
}

/// The team that a leader's conversation leads.
pub open spec fn team_of(leader: ConversationResponseView) -> Option<Seq<char>> {
    text_field(leader.extra, "embedded_team_id"@)
}

/// The team that a leader's conversation leads.
pub fn led_team(leader: &ConversationResponse) -> (r: Option<String>)
    ensures
        opt_view(r) == team_of(leader@),
{
    to_owned_opt(leader.extra.text_at("embedded_team_id"))
}

/// The identifiers of the conversations of a team's members, in the order of the list.
pub open spec fn member_ids(team_id: Seq<char>, conversations: Seq<ConversationResponseView>) -> Seq<Seq<char>>
    decreases conversations.len(),
{
    if conversations.len() == 0 {
        Seq::empty()
    } else if is_member(conversations.last().extra, team_id) {
        member_ids(team_id, conversations.drop_last()).push(conversations.last().id)
    } else {
        member_ids(team_id, conversations.drop_last())
    }
}

/// Finds the conversations of a team's members.
pub fn team_member_conversations(team_id: &str, conversations: &Vec<ConversationResponse>) -> (r: Vec<String>)
    ensures
        views(r@) == member_ids(team_id@, views(conversations@)),
{
    let ghost all = views(conversations@);
    let mut out: Vec<String> = Vec::new();
    let mut i: usize = 0;
    assert(views(out@) =~= Seq::empty());
    assert(all.take(0) =~= Seq::empty());
    while i < conversations.len()
        invariant
            i <= conversations@.len(),
            all == views(conversations@),
            views(out@) == member_ids(team_id@, all.take(i as int)),
        decreases conversations@.len() - i,
    {
        let c = &conversations[i];
        proof {
            assert(all.take(i + 1).drop_last() =~= all.take(i as int));
            assert(all.take(i + 1).last() == c@);
        }
        if same_opt(c.extra.text_at("teamId"), Some(team_id)) && same_opt(
            c.extra.text_at("role"),
            Some("teammate"),
        ) {
            let ghost before = views(out@);
            out.push(c.id.clone());
            assert(views(out@) =~= before.push(c@.id));
        }
        i += 1;
    }
    assert(all.take(i as int) =~= all);
    out
}

/// Whether `a` comes before `b`, or is the same, in the order of characters.
pub open spec fn not_after(a: Seq<char>, b: Seq<char>) -> bool
    decreases a.len(),
{
    if a.len() == 0 {
        true
    } else if b.len() == 0 {
        false
    } else if a[0] != b[0] {
        a[0] < b[0]
    } else {
        not_after(a.drop_first(), b.drop_first())
    }
}

/// Whether `a` comes before `b`, or is the same, in the order of characters.
pub fn comes_not_after(a: &str, b: &str) -> (r: bool)
    ensures
        r == not_after(a@, b@),
{
    let x = chars_of(a);
    let y = chars_of(b);
    let mut i: usize = 0;
    assert(a@.skip(0) =~= a@);
    assert(b@.skip(0) =~= b@);
    while i < x.len()
        invariant
            i <= x@.len(),
            i <= y@.len(),
            x@ == a@,
            y@ == b@,
            not_after(a@, b@) == not_after(a@.skip(i as int), b@.skip(i as int)),
        decreases x@.len() - i,
    {
        if i >= y.len() {
            return false;
        }
        if x[i] != y[i] {
            return x[i] < y[i];
        }
        assert(a@.skip(i as int).drop_first() =~= a@.skip(i + 1));
        assert(b@.skip(i as int).drop_first() =~= b@.skip(i + 1));
        i += 1;
    }
    true
}

/// `sorted` with `c` put behind every conversation whose name does not come after its own.
pub open spec fn insert_by_name(sorted: Seq<ConversationResponseView>, c: ConversationResponseView) -> Seq<
    ConversationResponseView,
>
    decreases sorted.len(),
{
    if sorted.len() == 0 {
        seq![c]
    } else if not_after(sorted.last().name, c.name) {
        sorted.push(c)
    } else {
        insert_by_name(sorted.drop_last(), c).push(sorted.last())
    }
}

/// The conversations by name; those with one name stay in their order.
pub open spec fn by_name(conversations: Seq<ConversationResponseView>) -> Seq<ConversationResponseView>
    decreases conversations.len(),
{
    if conversations.len() == 0 {
        Seq::empty()
    } else {
        insert_by_name(by_name(conversations.drop_last()), conversations.last())
    }
}

proof fn lemma_insert_by_name(sorted: Seq<ConversationResponseView>, c: ConversationResponseView, p: int)
    requires
        0 <= p <= sorted.len(),
        p > 0 ==> not_after(sorted[p - 1].name, c.name),
        forall|k: int| p <= k < sorted.len() ==> !not_after((#[trigger] sorted[k]).name, c.name),
    ensures
        insert_by_name(sorted, c) == sorted.insert(p, c),
    decreases sorted.len(),
{
    if sorted.len() == 0 {
        assert(sorted.insert(p, c) =~= seq![c]);
    } else if not_after(sorted.last().name, c.name) {
        assert(p == sorted.len()) by {
            if p < sorted.len() {
                assert(!not_after(sorted[sorted.len() - 1].name, c.name));
            }
        }
        assert(sorted.insert(p, c) =~= sorted.push(c));
    } else {
        lemma_insert_by_name(sorted.drop_last(), c, p);
        assert(sorted.drop_last().insert(p, c).push(sorted.last()) =~= sorted.insert(p, c));
    }
}

/// Sorts conversations by name.
pub fn sort_by_name(conversations: Vec<ConversationResponse>) -> (r: Vec<ConversationResponse>)
    ensures
        views(r@) == by_name(views(conversations@)),
{
    let ghost all = views(conversations@);
    let mut out: Vec<ConversationResponse> = Vec::new();
    assert(views(out@) =~= Seq::empty());
    assert(all.take(0) =~= Seq::empty());
    for c in it: conversations
        invariant
            views(it.seq()) == all,
            out@.len() == it.index(),
            views(out@) == by_name(all.take(it.index() as int)),
    {
        let ghost k = it.index() as int;
        proof {
            assert(all[k] == c@);
            assert(all.take(k + 1).drop_last() =~= all.take(k));
            assert(all.take(k + 1).last() == c@);
        }
        let mut p: usize = out.len();
        while 0 < p && !comes_not_after(out[p - 1].name.as_str(), c.name.as_str())
            invariant
                p <= out@.len(),
                forall|j: int| p <= j < out@.len() ==> !not_after((#[trigger] views(out@)[j]).name, c@.name),
            decreases p,
        {
            p -= 1;
        }
        let ghost before = views(out@);
        proof {
            lemma_insert_by_name(before, c@, p as int);
        }
        out.insert(p, c);
        assert(views(out@) =~= before.insert(p as int, c@));
    }
    assert(all.take(all.len() as int) =~= all);
    out
}

// ---------------------------------------------------------------------
// Which task is meant
// ---------------------------------------------------------------------

/// A task that alone goes by the name that was given, as its identifier, its title, or the
/// identifier or the name of one of its conversations, whatever the case of ASCII letters,
/// is the one that is meant.
pub proof fn law_an_exact_name_is_found(tasks: Seq<StewardTaskResponseView>, target: Seq<char>, k: int)
    requires
        trimmed(target).len() > 0,
        0 <= k < tasks.len(),
        ascii_lowered(tasks[k].id) == ascii_lowered(trimmed(target)) || ascii_lowered(tasks[k].title)
            == ascii_lowered(trimmed(target)) || exists|i: int|
            0 <= i < tasks[k].sessions.len() && (ascii_lowered((#[trigger] tasks[k].sessions[i]).conversation_id)
                == ascii_lowered(trimmed(target)) || ascii_lowered(tasks[k].sessions[i].conversation_name)
                == ascii_lowered(trimmed(target))),
        forall|j: int|
            0 <= j < tasks.len() && j != k ==> ascii_lowered((#[trigger] tasks[j]).id) != ascii_lowered(
                trimmed(target),
            ) && ascii_lowered(tasks[j].title) != ascii_lowered(trimmed(target)) && forall|i: int|
                0 <= i < tasks[j].sessions.len() ==> ascii_lowered(
                    (#[trigger] tasks[j].sessions[i]).conversation_id,
                ) != ascii_lowered(trimmed(target)) && ascii_lowered(tasks[j].sessions[i].conversation_name)
                    != ascii_lowered(trimmed(target)),
    ensures
        task_named(tasks, Some(target)) == LookupView::Found(tasks[k]),
{
    let name = trimmed(target);
    let p = named_exactly(name);
    assert(p(tasks[k]));
    assert forall|j: int| 0 <= j < tasks.len() && j != k implies !p(#[trigger] tasks[j]) by {
        assert(!session_named(tasks[j].sessions, name));
    }
    law_the_only_one_is_chosen(tasks, p, k);
}

/// Where no task goes by the name, a task is meant that alone has it in its title or in the
/// name of one of its conversations, compared in lower case.
pub proof fn law_a_part_of_a_name_is_enough(tasks: Seq<StewardTaskResponseView>, target: Seq<char>, k: int)
    requires
        trimmed(target).len() > 0,
        forall|j: int|
            0 <= j < tasks.len() ==> ascii_lowered((#[trigger] tasks[j]).id) != ascii_lowered(trimmed(target))
                && ascii_lowered(tasks[j].title) != ascii_lowered(trimmed(target)) && forall|i: int|
                0 <= i < tasks[j].sessions.len() ==> ascii_lowered(
                    (#[trigger] tasks[j].sessions[i]).conversation_id,
                ) != ascii_lowered(trimmed(target)) && ascii_lowered(tasks[j].sessions[i].conversation_name)
                    != ascii_lowered(trimmed(target)),
        0 <= k < tasks.len(),
        has_text(lowercase(tasks[k].title), lowercase(trimmed(target))) || exists|i: int|
            0 <= i < tasks[k].sessions.len() && has_text(
                lowercase((#[trigger] tasks[k].sessions[i]).conversation_name),
                lowercase(trimmed(target)),
            ),
        forall|j: int|
            0 <= j < tasks.len() && j != k ==> !has_text(
                lowercase((#[trigger] tasks[j]).title),
                lowercase(trimmed(target)),
            ) && forall|i: int|
                0 <= i < tasks[j].sessions.len() ==> !has_text(
                    lowercase((#[trigger] tasks[j].sessions[i]).conversation_name),
                    lowercase(trimmed(target)),
                ),
    ensures
        task_named(tasks, Some(target)) == LookupView::Found(tasks[k]),
{
    let name = trimmed(target);
    let needle = lowercase(name);
    lemma_none_goes_by(tasks, name);
    let names = all_lowered_names(tasks);
    lemma_holds(tasks[k], needle);
    assert forall|j: int| 0 <= j < tasks.len() && j != k implies !a_name_holds(#[trigger] names[j], needle) by {
        assert(names[j] == lowered_names(tasks[j]));
        lemma_holds(tasks[j], needle);
    }
    assert(names[k] == lowered_names(tasks[k]));
    lemma_only_one_holds(tasks, names, needle, k);
}

/// A name that no task goes by and none has in its names leads to a message that repeats it.
pub proof fn law_an_unknown_name_is_told(tasks: Seq<StewardTaskResponseView>, target: Seq<char>)
    requires
        trimmed(target).len() > 0,
        forall|j: int|
            0 <= j < tasks.len() ==> ascii_lowered((#[trigger] tasks[j]).id) != ascii_lowered(trimmed(target))
                && ascii_lowered(tasks[j].title) != ascii_lowered(trimmed(target)) && forall|i: int|
                0 <= i < tasks[j].sessions.len() ==> ascii_lowered(
                    (#[trigger] tasks[j].sessions[i]).conversation_id,
                ) != ascii_lowered(trimmed(target)) && ascii_lowered(tasks[j].sessions[i].conversation_name)
                    != ascii_lowered(trimmed(target)),
        forall|j: int|
            0 <= j < tasks.len() ==> !has_text(lowercase((#[trigger] tasks[j]).title), lowercase(trimmed(target)))
                && forall|i: int|
                0 <= i < tasks[j].sessions.len() ==> !has_text(
                    lowercase((#[trigger] tasks[j].sessions[i]).conversation_name),
                    lowercase(trimmed(target)),
                ),
    ensures
        task_named(tasks, Some(target)) matches LookupView::Message(m) && has_text(m, trimmed(target)),
{
    let name = trimmed(target);
    let needle = lowercase(name);
    lemma_none_goes_by(tasks, name);
    let names = all_lowered_names(tasks);
    assert forall|j: int| 0 <= j < tasks.len() implies !a_name_holds(#[trigger] names[j], needle) by {
        assert(names[j] == lowered_names(tasks[j]));
        lemma_holds(tasks[j], needle);
    }
    lemma_none_holds(tasks, names, needle);
    let m = "没有找到任务「"@ + name + "」。可使用 /tasks 查看任务列表。"@;
    let at = "没有找到任务「"@.len() as int;
    assert(m.subrange(at, at + name.len()) =~= name);
    assert(occurs_at(m, name, at));
}

/// A name that no task goes by and several have in theirs is not guessed at: what is
/// answered is a message that lists them.
pub proof fn law_an_ambiguous_name_is_not_guessed(tasks: Seq<StewardTaskResponseView>, target: Seq<char>, a: int, b: int)
    requires
        trimmed(target).len() > 0,
        forall|j: int|
            0 <= j < tasks.len() ==> ascii_lowered((#[trigger] tasks[j]).id) != ascii_lowered(trimmed(target))
                && ascii_lowered(tasks[j].title) != ascii_lowered(trimmed(target)) && forall|i: int|
                0 <= i < tasks[j].sessions.len() ==> ascii_lowered(
                    (#[trigger] tasks[j].sessions[i]).conversation_id,
                ) != ascii_lowered(trimmed(target)) && ascii_lowered(tasks[j].sessions[i].conversation_name)
                    != ascii_lowered(trimmed(target)),
        0 <= a < b < tasks.len(),
        has_text(lowercase(tasks[a].title), lowercase(trimmed(target))),
        has_text(lowercase(tasks[b].title), lowercase(trimmed(target))),
    ensures
        task_named(tasks, Some(target)) matches LookupView::Message(m) && has_text(m, "- "@ + tasks[a].title)
            && has_text(m, "- "@ + tasks[b].title),
{
    let name = trimmed(target);
    let needle = lowercase(name);
    lemma_none_goes_by(tasks, name);
    let names = all_lowered_names(tasks);
    lemma_holds(tasks[a], needle);
    lemma_holds(tasks[b], needle);
    assert(names[a] == lowered_names(tasks[a]));
    assert(names[b] == lowered_names(tasks[b]));
    lemma_two_hold(tasks, names, needle, a, b);
    let found = holding(tasks, names, needle);
    let lines = Seq::new(found.len(), |i: int| "- "@ + found[i].title);
    let i = found.index_of(tasks[a]);
    let j = found.index_of(tasks[b]);
    assert(lines[i] == "- "@ + tasks[a].title);
    assert(lines[j] == "- "@ + tasks[b].title);
    law_joined_holds_its_parts(lines, "\n"@, i);
    law_joined_holds_its_parts(lines, "\n"@, j);
    let m = ambiguous_words(name, found);
    let list = joined(lines, "\n"@);
    let head = "任务名「"@ + name + "」不唯一，请指定：\n"@;
    assert(m =~= head + list);
    lemma_text_after(head, list, "- "@ + tasks[a].title);
    lemma_text_after(head, list, "- "@ + tasks[b].title);
}

/// A command that names nothing is about the one task that is open; where none or several
/// are, nothing is picked.
pub proof fn law_the_sole_open_task_is_meant(tasks: Seq<StewardTaskResponseView>, target: Option<Seq<char>>, k: int)
    requires
        target is None || trimmed(target.unwrap()).len() == 0,
    ensures
        0 <= k < tasks.len() && tasks[k].lifecycle == StewardTaskLifecycle::Open && (forall|j: int|
            0 <= j < tasks.len() && j != k ==> (#[trigger] tasks[j]).lifecycle != StewardTaskLifecycle::Open)
            ==> task_named(tasks, target) == LookupView::Found(tasks[k]),
        (forall|j: int| 0 <= j < tasks.len() ==> (#[trigger] tasks[j]).lifecycle != StewardTaskLifecycle::Open)
            ==> task_named(tasks, target) == LookupView::Message(NO_OPEN_TASK@),
        (exists|i: int, j: int|
            0 <= i < j < tasks.len() && (#[trigger] tasks[i]).lifecycle == StewardTaskLifecycle::Open && (
            #[trigger] tasks[j]).lifecycle == StewardTaskLifecycle::Open) ==> task_named(tasks, target) is Message,
{
    let p = crate::overview::open_task();
    if 0 <= k < tasks.len() && tasks[k].lifecycle == StewardTaskLifecycle::Open && (forall|j: int|
        0 <= j < tasks.len() && j != k ==> (#[trigger] tasks[j]).lifecycle != StewardTaskLifecycle::Open) {
        law_the_only_one_is_chosen(tasks, p, k);
    }
    if forall|j: int| 0 <= j < tasks.len() ==> (#[trigger] tasks[j]).lifecycle != StewardTaskLifecycle::Open {
        law_none_is_chosen(tasks, p);
    }
    if exists|i: int, j: int|
        0 <= i < j < tasks.len() && (#[trigger] tasks[i]).lifecycle == StewardTaskLifecycle::Open && (
        #[trigger] tasks[j]).lifecycle == StewardTaskLifecycle::Open {
        let (i, j) = choose|i: int, j: int|
            0 <= i < j < tasks.len() && (#[trigger] tasks[i]).lifecycle == StewardTaskLifecycle::Open && (
            #[trigger] tasks[j]).lifecycle == StewardTaskLifecycle::Open;
        law_several_are_chosen(tasks, p, i, j);
    }
}

proof fn lemma_text_after(head: Seq<char>, s: Seq<char>, p: Seq<char>)
    requires
        has_text(s, p),
    ensures
        has_text(head + s, p),
{
    let at = choose|i: int| occurs_at(s, p, i);
    let all = head + s;
    assert(all.subrange(head.len() + at, head.len() + at + p.len()) =~= s.subrange(at, at + p.len()));
    assert(occurs_at(all, p, head.len() + at));
}

proof fn lemma_none_goes_by(tasks: Seq<StewardTaskResponseView>, name: Seq<char>)
    requires
        forall|j: int|
            0 <= j < tasks.len() ==> ascii_lowered((#[trigger] tasks[j]).id) != ascii_lowered(name) && ascii_lowered(
                tasks[j].title,
            ) != ascii_lowered(name) && forall|i: int|
                0 <= i < tasks[j].sessions.len() ==> ascii_lowered(
                    (#[trigger] tasks[j].sessions[i]).conversation_id,
                ) != ascii_lowered(name) && ascii_lowered(tasks[j].sessions[i].conversation_name) != ascii_lowered(
                    name,
                ),
    ensures
        chosen(tasks, named_exactly(name)).len() == 0,
{
    let p = named_exactly(name);
    assert forall|j: int| 0 <= j < tasks.len() implies !p(#[trigger] tasks[j]) by {
        assert(!session_named(tasks[j].sessions, name));
    }
    law_none_is_chosen(tasks, p);
}

proof fn lemma_holds(t: StewardTaskResponseView, needle: Seq<char>)
    ensures
        a_name_holds(lowered_names(t), needle) <==> has_text(lowercase(t.title), needle) || exists|i: int|
            0 <= i < t.sessions.len() && has_text(
                lowercase((#[trigger] t.sessions[i]).conversation_name),
                needle,
            ),
{
    let names = lowered_names(t);
    if has_text(lowercase(t.title), needle) {
        assert(has_text(names[0], needle));
    }
    if exists|i: int|
        0 <= i < t.sessions.len() && has_text(lowercase((#[trigger] t.sessions[i]).conversation_name), needle) {
        let i = choose|i: int|
            0 <= i < t.sessions.len() && has_text(lowercase((#[trigger] t.sessions[i]).conversation_name), needle);
        assert(names[1 + i] == lowercase(t.sessions[i].conversation_name));
        assert(has_text(names[1 + i], needle));
    }
    if a_name_holds(names, needle) {
        let i = choose|i: int| 0 <= i < names.len() && has_text(#[trigger] names[i], needle);
        if i > 0 {
            assert(names[i] == lowercase(t.sessions[i - 1].conversation_name));
        }
    }
}

proof fn lemma_none_holds(tasks: Seq<StewardTaskResponseView>, names: Seq<Seq<Seq<char>>>, needle: Seq<char>)
    requires
        names.len() == tasks.len(),
        forall|j: int| 0 <= j < tasks.len() ==> !a_name_holds(#[trigger] names[j], needle),
    ensures
        holding(tasks, names, needle).len() == 0,
    decreases tasks.len(),
{
    if tasks.len() > 0 {
        assert(!a_name_holds(names[names.len() - 1], needle));
        let less = names.drop_last();
        assert forall|j: int| 0 <= j < less.len() implies !a_name_holds(#[trigger] less[j], needle) by {
            assert(less[j] == names[j]);
        }
        lemma_none_holds(tasks.drop_last(), less, needle);
    }
}

proof fn lemma_only_one_holds(
    tasks: Seq<StewardTaskResponseView>,
    names: Seq<Seq<Seq<char>>>,
    needle: Seq<char>,
    k: int,
)
    requires
        names.len() == tasks.len(),
        0 <= k < tasks.len(),
        a_name_holds(names[k], needle),
        forall|j: int| 0 <= j < tasks.len() && j != k ==> !a_name_holds(#[trigger] names[j], needle),
    ensures
        holding(tasks, names, needle) == seq![tasks[k]],
    decreases tasks.len(),
{
    let less = names.drop_last();
    let init = tasks.drop_last();
    assert(forall|j: int| 0 <= j < less.len() ==> #[trigger] less[j] == names[j]);
    if k == tasks.len() - 1 {
        lemma_none_holds(init, less, needle);
        assert(holding(tasks, names, needle) =~= seq![tasks[k]]);
    } else {
        assert(!a_name_holds(names[names.len() - 1], needle));
        lemma_only_one_holds(init, less, needle, k);
    }
}

proof fn lemma_one_holds(
    tasks: Seq<StewardTaskResponseView>,
    names: Seq<Seq<Seq<char>>>,
    needle: Seq<char>,
    k: int,
)
    requires
        names.len() == tasks.len(),
        0 <= k < tasks.len(),
        a_name_holds(names[k], needle),
    ensures
        holding(tasks, names, needle).contains(tasks[k]),
    decreases tasks.len(),
{
    let less = names.drop_last();
    let init = tasks.drop_last();
    let after = holding(tasks, names, needle);
    if k == tasks.len() - 1 {
        assert(after[after.len() - 1] == tasks[k]);
    } else {
        assert(less[k] == names[k] && init[k] == tasks[k]);
        lemma_one_holds(init, less, needle, k);
        let before = holding(init, less, needle);
        let i = before.index_of(tasks[k]);
        assert(after[i] == tasks[k]);
    }
}

proof fn lemma_two_hold(
    tasks: Seq<StewardTaskResponseView>,
    names: Seq<Seq<Seq<char>>>,
    needle: Seq<char>,
    a: int,
    b: int,
)
    requires
        names.len() == tasks.len(),
        0 <= a < b < tasks.len(),
        a_name_holds(names[a], needle),
        a_name_holds(names[b], needle),
    ensures
        holding(tasks, names, needle).len() >= 2,
        holding(tasks, names, needle).contains(tasks[a]),
        holding(tasks, names, needle).contains(tasks[b]),
    decreases tasks.len(),
{
    lemma_one_holds(tasks, names, needle, a);
    lemma_one_holds(tasks, names, needle, b);
    let less = names.drop_last();
    let init = tasks.drop_last();
    assert(less[a] == names[a] && init[a] == tasks[a]);
    if b == tasks.len() - 1 {
        lemma_one_holds(init, less, needle, a);
        assert(holding(init, less, needle).len() >= 1);
    } else {
        assert(less[b] == names[b] && init[b] == tasks[b]);
        lemma_two_hold(init, less, needle, a, b);
    }
}

/// A command is carried out on the task that it means, and as what it is: a status and
/// workers are shown, a task is resumed, archived or restored, and a question is asked as it
/// was put. Where no task is meant, what is said instead is answered.
pub proof fn law_commands_do_what_they_say(
    tasks: Seq<StewardTaskResponseView>,
    target: Option<Seq<char>>,
    question: Seq<char>,
)
    ensures
        task_named(tasks, target) matches LookupView::Found(t) ==> {
            &&& target is Some ==> plan_of(CommandView::Status(target), tasks) == PlanView::ShowStatus(t)
            &&& plan_of(CommandView::Workers(target), tasks) == PlanView::ShowWorkers(t)
            &&& plan_of(CommandView::Resume(target), tasks) == PlanView::Resume(t)
            &&& target is Some ==> plan_of(CommandView::Archive(target.unwrap()), tasks) == PlanView::SetArchived(
                t,
                true,
            )
            &&& target is Some ==> plan_of(CommandView::Restore(target.unwrap()), tasks) == PlanView::SetArchived(
                t,
                false,
            )
            &&& plan_of(CommandView::Ask { target, question }, tasks) == PlanView::Ask(t, question)
        },
        task_named(tasks, target) matches LookupView::Message(m) ==> {
            &&& target is Some ==> plan_of(CommandView::Status(target), tasks) == PlanView::Reply(m)
            &&& plan_of(CommandView::Workers(target), tasks) == PlanView::Reply(m)
            &&& plan_of(CommandView::Resume(target), tasks) == PlanView::Reply(m)
            &&& target is Some ==> plan_of(CommandView::Archive(target.unwrap()), tasks) == PlanView::Reply(m)
            &&& target is Some ==> plan_of(CommandView::Restore(target.unwrap()), tasks) == PlanView::Reply(m)
            &&& plan_of(CommandView::Ask { target, question }, tasks) == PlanView::Reply(m)
        },
        plan_of(CommandView::Help, tasks) == PlanView::Reply(FIXED_COMMAND_HELP@),
        plan_of(CommandView::Tasks, tasks) == PlanView::ShowOverview,
        plan_of(CommandView::Status(None), tasks) matches PlanView::ShowStatus(t) ==> tasks.contains(t) && t.lifecycle
            == StewardTaskLifecycle::Open,
        plan_of(CommandView::Status(None), tasks) is ShowStatus || plan_of(CommandView::Status(None), tasks)
            == PlanView::Reply(status_list(tasks)),
{
    let open = open_ones(tasks);
    if open.len() == 1 {
        law_open_ones_are_open(tasks, open[0]);
        assert(open.contains(open[0]));
    }
}

/// The answer to a command that was handled says so, with the command's name, its text and
/// the messages that were kept.
pub proof fn law_a_handled_command_is_answered(
    name: Seq<char>,
    text: Seq<char>,
    task_id: Option<Seq<char>>,
    conversation_id: Option<Seq<char>>,
    user_msg_id: Seq<char>,
    response_msg_id: Seq<char>,
    executed_at: i64,
)
    ensures
        ({
            let r = handled(name, text, task_id, conversation_id, user_msg_id, response_msg_id, executed_at);
            &&& r.handled
            &&& r.command == Some(name)
            &&& r.text == Some(text)
            &&& r.task_id == task_id
            &&& r.conversation_id == conversation_id
            &&& r.user_msg_id == Some(user_msg_id)
            &&& r.response_msg_id == Some(response_msg_id)
            &&& r.executed_at == executed_at
        }),
{
}

/// What was said is kept under its own identifier, in its conversation, on its side, finished
/// and visible, word for word; an answer comes after what it answers.
pub proof fn law_an_exchange_is_kept_word_for_word(
    id: Seq<char>,
    conversation_id: Seq<char>,
    text: Seq<char>,
    side: Seq<char>,
    at: i64,
    turn: Option<Seq<char>>,
)
    ensures
        ({
            let m = exchange_message(id, conversation_id, text, side, at, turn);
            &&& m.id == id && m.msg_id == Some(id)
            &&& m.conversation_id == conversation_id
            &&& m.position == Some(side)
            &&& m.status == Some("finish"@)
            &&& m.message_type == "text"@
            &&& !m.hidden
            &&& m.created_at == at
            &&& m.backend_turn_id == turn
        }),
        exists|x: JsonView|
            #[trigger] json_text(x) == exchange_message(id, conversation_id, text, side, at, turn).content
                && text_field(x, "content"@) == Some(text),
        at < i64::MAX ==> next_ms(at) == at + 1,
{
    let pairs = seq![("content"@, JsonView::Text(text))];
    law_object_holds_its_entries(pairs, 0, "content"@);
    assert(json_text(object_of(pairs)) == exchange_message(id, conversation_id, text, side, at, turn).content);
}

/// The members of a team are the conversations that name the team and are teammates in it.
pub proof fn law_members_are_teammates_of_the_team(
    team_id: Seq<char>,
    conversations: Seq<ConversationResponseView>,
    id: Seq<char>,
)
    ensures
        member_ids(team_id, conversations).contains(id) <==> exists|i: int|
            0 <= i < conversations.len() && (#[trigger] conversations[i]).id == id && text_field(
                conversations[i].extra,
                "teamId"@,
            ) == Some(team_id) && text_field(conversations[i].extra, "role"@) == Some("teammate"@),
    decreases conversations.len(),
{
    if conversations.len() > 0 {
        let init = conversations.drop_last();
        let last = conversations.last();
        law_members_are_teammates_of_the_team(team_id, init, id);
        let before = member_ids(team_id, init);
        let after = member_ids(team_id, conversations);
        assert(conversations[conversations.len() - 1] == last);
        if exists|i: int|
            0 <= i < conversations.len() && (#[trigger] conversations[i]).id == id && is_member(
                conversations[i].extra,
                team_id,
            ) {
            let i = choose|i: int|
                0 <= i < conversations.len() && (#[trigger] conversations[i]).id == id && is_member(
                    conversations[i].extra,
                    team_id,
                );
            if i < init.len() {
                assert(init[i] == conversations[i]);
                assert(before.contains(id));
            } else {
                assert(after[after.len() - 1] == id);
            }
        }
        if before.contains(id) {
            let k = before.index_of(id);
            assert(after[k] == id);
            let i = choose|i: int|
                0 <= i < init.len() && (#[trigger] init[i]).id == id && is_member(init[i].extra, team_id);
            assert(conversations[i] == init[i]);
        }
        if after.contains(id) && !before.contains(id) {
            let k = after.index_of(id);
            if k < before.len() {
                assert(before[k] == id);
            }
            assert(is_member(last.extra, team_id) && last.id == id);
        }
    }
}

/// Conversations are put in the order of their names, and none is lost or added.
pub proof fn law_conversations_are_put_in_order(conversations: Seq<ConversationResponseView>)
    ensures
        by_name(conversations).to_multiset() == conversations.to_multiset(),
        forall|i: int, j: int|
            0 <= i && j == i + 1 && j < by_name(conversations).len() ==> not_after(
                (#[trigger] by_name(conversations)[i]).name,
                (#[trigger] by_name(conversations)[j]).name,
            ),
    decreases conversations.len(),
{
    broadcast use vstd::seq_lib::group_to_multiset_ensures;

    if conversations.len() > 0 {
        let init = conversations.drop_last();
        law_conversations_are_put_in_order(init);
        lemma_insert_keeps_order(by_name(init), conversations.last());
        lemma_insert_keeps_all(by_name(init), conversations.last());
        assert(conversations =~= init.push(conversations.last()));
    } else {
        assert(conversations =~= Seq::empty());
    }
}

proof fn lemma_insert_keeps_all(sorted: Seq<ConversationResponseView>, c: ConversationResponseView)
    ensures
        insert_by_name(sorted, c).to_multiset() == sorted.to_multiset().insert(c),
    decreases sorted.len(),
{
    broadcast use vstd::seq_lib::group_to_multiset_ensures;

    if sorted.len() == 0 {
        assert(sorted =~= Seq::empty());
        assert(insert_by_name(sorted, c) =~= Seq::<ConversationResponseView>::empty().push(c));
    } else if !not_after(sorted.last().name, c.name) {
        let init = sorted.drop_last();
        lemma_insert_keeps_all(init, c);
        assert(sorted =~= init.push(sorted.last()));
        assert(init.to_multiset().insert(c).insert(sorted.last()) =~= init.to_multiset().insert(
            sorted.last(),
        ).insert(c));
    }
}

proof fn lemma_insert_keeps_order(sorted: Seq<ConversationResponseView>, c: ConversationResponseView)
    requires
        forall|i: int, j: int|
            0 <= i && j == i + 1 && j < sorted.len() ==> not_after(
                (#[trigger] sorted[i]).name,
                (#[trigger] sorted[j]).name,
            ),
    ensures
        insert_by_name(sorted, c).len() == sorted.len() + 1,
        forall|i: int, j: int|
            0 <= i && j == i + 1 && j < sorted.len() + 1 ==> not_after(
                (#[trigger] insert_by_name(sorted, c)[i]).name,
                (#[trigger] insert_by_name(sorted, c)[j]).name,
            ),
        insert_by_name(sorted, c).last() == c || (sorted.len() > 0 && insert_by_name(sorted, c).last()
            == sorted.last()),
    decreases sorted.len(),
{
    let after = insert_by_name(sorted, c);
    if sorted.len() > 0 {
        let last = sorted[sorted.len() - 1];
        if not_after(last.name, c.name) {
            assert forall|i: int, j: int| 0 <= i && j == i + 1 && j < after.len() implies not_after(
                (#[trigger] after[i]).name,
                (#[trigger] after[j]).name,
            ) by {
                if j < sorted.len() {
                    assert(after[i] == sorted[i]);
                    assert(after[j] == sorted[j]);
                }
            }
        } else {
            let init = sorted.drop_last();
            let before = insert_by_name(init, c);
            lemma_insert_keeps_order(init, c);
            lemma_names_are_ordered(last.name, c.name);
            assert(not_after(before.last().name, last.name)) by {
                if before.last() != c {
                    assert(init.last() == sorted[sorted.len() - 2]);
                }
            }
            assert forall|i: int, j: int| 0 <= i && j == i + 1 && j < after.len() implies not_after(
                (#[trigger] after[i]).name,
                (#[trigger] after[j]).name,
            ) by {
                assert(after[i] == before[i]);
                if j < before.len() {
                    assert(after[j] == before[j]);
                } else {
                    assert(before[i] == before.last());
                }
            }
        }
    }
}

proof fn lemma_names_are_ordered(a: Seq<char>, b: Seq<char>)
    ensures
        not_after(a, b) || not_after(b, a),
    decreases a.len(),
{
    if a.len() > 0 && b.len() > 0 && a[0] == b[0] {
        lemma_names_are_ordered(a.drop_first(), b.drop_first());
    }
}

/// Names come in the order of their first different character, and a name comes before one
/// that goes on after it.
pub proof fn law_names_differ_by_their_first_difference(common: Seq<char>, a: Seq<char>, b: Seq<char>)
    ensures
        a.len() == 0 ==> not_after(common + a, common + b),
        a.len() > 0 && b.len() == 0 ==> !not_after(common + a, common + b),
        a.len() > 0 && b.len() > 0 && a[0] != b[0] ==> (not_after(common + a, common + b) <==> a[0] < b[0]),
    decreases common.len(),
{
    if common.len() == 0 {
        assert(common + a =~= a);
        assert(common + b =~= b);
    } else {
        assert((common + a).drop_first() =~= common.drop_first() + a);
        assert((common + b).drop_first() =~= common.drop_first() + b);
        law_names_differ_by_their_first_difference(common.drop_first(), a, b);
    }
}

/// A command that does not concern tasks is planned alike whatever tasks there are; one that
/// does is not, for without any task it is answered by a message.
pub proof fn law_what_concerns_no_task_needs_none(
    command: CommandView,
    some: Seq<StewardTaskResponseView>,
    others: Seq<StewardTaskResponseView>,
)
    ensures
        !concerns_tasks(command) ==> plan_of(command, some) == plan_of(command, others),
        concerns_tasks(command) ==> plan_of(command, Seq::empty()) is Reply && !(command is Help),
        plan_of(command, some) is ShowOverview ==> !concerns_tasks(command),
        plan_of(command, some) is ShowStatus || plan_of(command, some) is ShowWorkers || plan_of(command, some) is Resume
            || plan_of(command, some) is SetArchived ==> concerns_tasks(command),
{
    if concerns_tasks(command) {
        let none = Seq::<StewardTaskResponseView>::empty();
        law_lookup_finds_only_listed_tasks(none, None);
        match command {
            CommandView::Status(target) => law_lookup_finds_only_listed_tasks(none, target),
            CommandView::Workers(target) => law_lookup_finds_only_listed_tasks(none, target),
            CommandView::Resume(target) => law_lookup_finds_only_listed_tasks(none, target),
            CommandView::Archive(target) => law_lookup_finds_only_listed_tasks(none, Some(target)),
            CommandView::Restore(target) => law_lookup_finds_only_listed_tasks(none, Some(target)),
            CommandView::Ask { target, .. } => law_lookup_finds_only_listed_tasks(none, target),
            _ => {},
        }
    }
}

/// The team of a leader is the one whose identifier stands in what the conversation carries;
/// a conversation that carries none leads none.
pub proof fn law_a_leader_knows_its_team(
    leader: ConversationResponseView,
    pairs: Seq<(Seq<char>, JsonView)>,
    k: int,
    team_id: Seq<char>,
)
    requires
        leader.extra == object_of(pairs),
    ensures
        0 <= k < pairs.len() && pairs[k] == ("embedded_team_id"@, JsonView::Text(team_id)) && (forall|j: int|
            k < j < pairs.len() ==> (#[trigger] pairs[j]).0 != "embedded_team_id"@) ==> team_of(leader) == Some(
            team_id,
        ),
        (forall|j: int| 0 <= j < pairs.len() ==> (#[trigger] pairs[j]).0 != "embedded_team_id"@) ==> team_of(
            leader,
        ) is None,
{
    law_object_holds_its_entries(pairs, k, "embedded_team_id"@);
}

} // verus!
