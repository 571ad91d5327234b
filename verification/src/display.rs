//! The texts in which the steward answers a command.
use vstd::prelude::*;
use crate::api::{
    StewardOverviewResponse, StewardOverviewResponseView, StewardTaskLifecycle, StewardTaskResponse,
    StewardTaskResponseView, StewardUnregisteredConversationResponseView,
};
use crate::conversation::{ConversationResponse, ConversationResponseView};
use crate::labels::{
    conversation_runtime_label, conversation_status_label, execution_state_label, execution_state_word, lifecycle_label,
    lifecycle_word, runtime_word, status_word,
};
use crate::text::{
    as_text, blank, decimal, decimal_text, has_prefix, has_suffix, has_text, is_blank, join, joined, occurs_at, opt_view,
    trimmed, views,
};

verus! {

/// The texts one after the other.
pub fn concat3(a: &str, b: &str, c: &str) -> (r: String)
    ensures
        r@ == a@ + b@ + c@,
{
    let mut r = a.to_owned();
    r.append(b);
    r.append(c);
    r
}

/// The texts one after the other.
pub fn concat5(a: &str, b: &str, c: &str, d: &str, e: &str) -> (r: String)
    ensures
        r@ == a@ + b@ + c@ + d@ + e@,
{
    let mut r = concat3(a, b, c);
    r.append(d);
    r.append(e);
    r
}

// ---------------------------------------------------------------------
// The overview
// ---------------------------------------------------------------------

/// The line that counts the tasks.
pub open spec fn count_line(open: nat, running: nat, waiting: nat, interrupted: nat) -> Seq<char> {
    "任务概览：进行中 "@ + decimal(open) + "，执行中 "@ + decimal(running) + "，等待 "@ + decimal(waiting)
        + "，中断 "@ + decimal(interrupted) + "。"@
}

/// The line of a task with both its states.
pub open spec fn task_line(t: StewardTaskResponseView) -> Seq<char> {
    "- "@ + t.title + " ["@ + lifecycle_word(t.lifecycle) + " / "@ + execution_state_word(t.execution_state) + "]"@
}

/// The line of a conversation that belongs to no task.
pub open spec fn loose_line(c: StewardUnregisteredConversationResponseView) -> Seq<char> {
    "- "@ + c.conversation_name + " ["@ + status_word(c.status) + "]"@
}

/// The lines of an overview.
pub open spec fn overview_lines(o: StewardOverviewResponseView) -> Seq<Seq<char>> {
    seq![
        count_line(
            o.open_tasks as nat,
            o.running_tasks as nat,
            o.waiting_tasks as nat,
            o.interrupted_tasks as nat,
        ),
    ] + if o.tasks.len() == 0 {
        seq!["已登记任务：无"@]
    } else {
        seq!["已登记任务："@] + Seq::new(o.tasks.len(), |i: int| task_line(o.tasks[i]))
    } + if o.unregistered_conversations.len() == 0 {
        Seq::empty()
    } else {
        seq!["未纳管会话："@] + Seq::new(
            o.unregistered_conversations.len(),
            |i: int| loose_line(o.unregistered_conversations[i]),
        )
    }
}

/// Writes an overview.
pub fn format_overview(overview: &StewardOverviewResponse) -> (r: String)
    ensures
        r@ == joined(overview_lines(overview@), "\n"@),
{
    let ghost o = overview@;
    let mut lines: Vec<String> = Vec::new();
    let mut first = concat3(
        "任务概览：进行中 ",
        decimal_text(overview.open_tasks as u64).as_str(),
        "，执行中 ",
    );
    first.append(decimal_text(overview.running_tasks as u64).as_str());
    first.append("，等待 ");
    first.append(decimal_text(overview.waiting_tasks as u64).as_str());
    first.append("，中断 ");
    first.append(decimal_text(overview.interrupted_tasks as u64).as_str());
    first.append("。");
    lines.push(first);
    let ghost head = seq![
        count_line(
            o.open_tasks as nat,
            o.running_tasks as nat,
            o.waiting_tasks as nat,
            o.interrupted_tasks as nat,
        ),
    ];
    assert(views(lines@) =~= head);
    if overview.tasks.is_empty() {
        lines.push("已登记任务：无".to_owned());
        assert(views(lines@) =~= head + seq!["已登记任务：无"@]);
    } else {
        lines.push("已登记任务：".to_owned());
        let ghost start = head + seq!["已登记任务："@];
        assert(views(lines@) =~= start);
        let ghost all = Seq::new(o.tasks.len(), |i: int| task_line(o.tasks[i]));
        let mut i: usize = 0;
        while i < overview.tasks.len()
            invariant
                i <= overview.tasks@.len(),
                o == overview@,
                all == Seq::new(o.tasks.len(), |i: int| task_line(o.tasks[i])),
                views(lines@) == start + all.take(i as int),
            decreases overview.tasks@.len() - i,
        {
            let t = &overview.tasks[i];
            let mut line = concat5(
                "- ",
                t.title.as_str(),
                " [",
                lifecycle_label(&t.lifecycle),
                " / ",
            );
            line.append(execution_state_label(&t.execution_state));
            line.append("]");
            let ghost before = views(lines@);
            lines.push(line);
            i += 1;
            assert(views(lines@) =~= before.push(all[i - 1]));
            assert(views(lines@) =~= start + all.take(i as int));
        }
        assert(all.take(i as int) =~= all);
        assert(start + all =~= head + (seq!["已登记任务："@] + all));
    }
    let ghost middle = views(lines@);
    if !overview.unregistered_conversations.is_empty() {
        lines.push("未纳管会话：".to_owned());
        let ghost start = middle + seq!["未纳管会话："@];
        assert(views(lines@) =~= start);
        let ghost all = Seq::new(
            o.unregistered_conversations.len(),
            |i: int| loose_line(o.unregistered_conversations[i]),
        );
        let mut i: usize = 0;
        while i < overview.unregistered_conversations.len()
            invariant
                i <= overview.unregistered_conversations@.len(),
                o == overview@,
                all == Seq::new(
                    o.unregistered_conversations.len(),
                    |i: int| loose_line(o.unregistered_conversations[i]),
                ),
                views(lines@) == start + all.take(i as int),
            decreases overview.unregistered_conversations@.len() - i,
        {
            let c = &overview.unregistered_conversations[i];
            let line = concat5(
                "- ",
                c.conversation_name.as_str(),
                " [",
                conversation_status_label(c.status),
                "]",
            );
            let ghost before = views(lines@);
            lines.push(line);
            i += 1;
            assert(views(lines@) =~= before.push(all[i - 1]));
            assert(views(lines@) =~= start + all.take(i as int));
        }
        assert(all.take(i as int) =~= all);
        assert(start + all =~= middle + (seq!["未纳管会话："@] + all));
    } else {
        assert(middle + Seq::<Seq<char>>::empty() =~= middle);
    }
    assert(views(lines@) =~= overview_lines(o));
    join(&lines, "\n")
}

// ---------------------------------------------------------------------
// Lists of tasks
// ---------------------------------------------------------------------

/// The tasks with a property, in order.
pub open spec fn chosen(
    tasks: Seq<StewardTaskResponseView>,
    p: spec_fn(StewardTaskResponseView) -> bool,
) -> Seq<StewardTaskResponseView>
    decreases tasks.len(),
{
    if tasks.len() == 0 {
        Seq::empty()
    } else if p(tasks.last()) {
        chosen(tasks.drop_last(), p).push(tasks.last())
    } else {
        chosen(tasks.drop_last(), p)
    }
}

/// The tasks that are still to be done.
pub open spec fn open_ones(tasks: Seq<StewardTaskResponseView>) -> Seq<StewardTaskResponseView> {
    chosen(tasks, crate::overview::open_task())
}

/// The line of a task with its execution state.
pub open spec fn state_line(t: StewardTaskResponseView) -> Seq<char> {
    "- "@ + t.title + " ["@ + execution_state_word(t.execution_state) + "]"@
}

/// What is said when no task is open.
pub const NO_OPEN_TASK: &'static str = "当前没有进行中的已登记任务。可使用 /tasks 查看全部任务和未纳管会话。";

/// The list from which a task is to be chosen.
pub open spec fn status_list(tasks: Seq<StewardTaskResponseView>) -> Seq<char> {
    let open = open_ones(tasks);
    if open.len() == 0 {
        NO_OPEN_TASK@
    } else {
        joined(
            seq!["当前有多个进行中任务，请指定任务名："@] + Seq::new(open.len(), |i: int| state_line(open[i])),
            "\n"@,
        )
    }
}

/// Copies the tasks that are still to be done.
pub fn open_tasks(tasks: &Vec<StewardTaskResponse>) -> (r: Vec<StewardTaskResponse>)
    ensures
        views(r@) == open_ones(views(tasks@)),
{
    let ghost all = views(tasks@);
    let ghost p = crate::overview::open_task();
    let mut out: Vec<StewardTaskResponse> = Vec::new();
    let mut i: usize = 0;
    assert(views(out@) =~= Seq::empty());
    assert(all.take(0) =~= Seq::empty());
    while i < tasks.len()
        invariant
            i <= tasks@.len(),
            all == views(tasks@),
            p == crate::overview::open_task(),
            views(out@) == chosen(all.take(i as int), p),
        decreases tasks@.len() - i,
    {
        proof {
            assert(all.take(i + 1).drop_last() =~= all.take(i as int));
            assert(all.take(i + 1).last() == tasks@[i as int]@);
        }
        if tasks[i].lifecycle == StewardTaskLifecycle::Open {
            let ghost before = views(out@);
            out.push(tasks[i].copy());
            assert(views(out@) =~= before.push(out@.last()@));
        }
        i += 1;
    }
    assert(all.take(i as int) =~= all);
    out
}

/// Lists the open tasks from which one is to be chosen.
pub fn format_task_status_list(tasks: &Vec<StewardTaskResponse>) -> (r: String)
    ensures
        r@ == status_list(views(tasks@)),
{
    let open = open_tasks(tasks);
    if open.is_empty() {
        return NO_OPEN_TASK.to_owned();
    }
    let ghost shown = open_ones(views(tasks@));
    let ghost all = Seq::new(shown.len(), |i: int| state_line(shown[i]));
    let mut lines: Vec<String> = Vec::new();
    lines.push("当前有多个进行中任务，请指定任务名：".to_owned());
    let ghost start = seq!["当前有多个进行中任务，请指定任务名："@];
    assert(views(lines@) =~= start);
    let mut i: usize = 0;
    while i < open.len()
        invariant
            i <= open@.len(),
            shown == views(open@),
            all == Seq::new(shown.len(), |i: int| state_line(shown[i])),
            views(lines@) == start + all.take(i as int),
        decreases open@.len() - i,
    {
        let t = &open[i];
        let line = concat5("- ", t.title.as_str(), " [", execution_state_label(&t.execution_state), "]");
        let ghost before = views(lines@);
        lines.push(line);
        i += 1;
        assert(views(lines@) =~= before.push(all[i - 1]));
        assert(views(lines@) =~= start + all.take(i as int));
    }
    assert(all.take(i as int) =~= all);
    join(&lines, "\n")
}

// ---------------------------------------------------------------------
// One task
// ---------------------------------------------------------------------

/// A conversation with what it is doing.
pub open spec fn named_with_state(prefix: Seq<char>, c: ConversationResponseView) -> Seq<char> {
    prefix + c.name + "（"@ + runtime_word(c.runtime, c.status) + "）"@
}

fn name_with_state(prefix: &str, c: &ConversationResponse) -> (r: String)
    ensures
        r@ == named_with_state(prefix@, c@),
{
    concat5(
        prefix,
        c.name.as_str(),
        "（",
        conversation_runtime_label(c.runtime.as_ref(), c.status),
        "）",
    )
}

/// A line with an optional text that is not blank.
pub open spec fn optional_line(prefix: Seq<char>, value: Option<Seq<char>>) -> Seq<Seq<char>> {
    match value {
        Some(v) => if blank(v) {
            Seq::empty()
        } else {
            seq![prefix + v]
        },
        None => Seq::empty(),
    }
}

/// The lines that tell how a task stands.
pub open spec fn status_lines(
    t: StewardTaskResponseView,
    leader: Option<ConversationResponseView>,
    workers: nat,
) -> Seq<Seq<char>> {
    seq![
        "任务："@ + t.title,
        "任务状态："@ + lifecycle_word(t.lifecycle),
        "执行状态："@ + execution_state_word(t.execution_state),
        match leader {
            Some(c) => named_with_state("Leader："@, c),
            None => "Leader：未绑定"@,
        },
        "专家团 Worker："@ + decimal(workers) + " 个"@,
    ] + optional_line("最近进展："@, t.progress_summary) + optional_line("下一步："@, t.next_action)
        + if t.blockers.len() == 0 {
        Seq::empty()
    } else {
        seq!["阻塞："@ + joined(t.blockers, "；"@)]
    }
}

fn concat2(a: &str, b: &str) -> (r: String)
    ensures
        r@ == a@ + b@,
{
    let mut r = a.to_owned();
    r.append(b);
    r
}

/// Tells how a task stands, with its leader and the number of its team's workers.
pub fn format_task_status(
    task: &StewardTaskResponse,
    leader: Option<&ConversationResponse>,
    worker_count: usize,
) -> (r: String)
    ensures
        r@ == joined(status_lines(task@, opt_view(leader), worker_count as nat), "\n"@),
{
    let mut lines: Vec<String> = Vec::new();
    lines.push(concat2("任务：", task.title.as_str()));
    lines.push(concat2("任务状态：", lifecycle_label(&task.lifecycle)));
    lines.push(concat2("执行状态：", execution_state_label(&task.execution_state)));
    match leader {
        Some(c) => {
            lines.push(name_with_state("Leader：", c));
        },
        None => {
            lines.push("Leader：未绑定".to_owned());
        },
    }
    lines.push(concat3("专家团 Worker：", decimal_text(worker_count as u64).as_str(), " 个"));
    let ghost base = views(lines@);
    if let Some(summary) = as_text(&task.progress_summary) {
        if !is_blank(summary) {
            lines.push(concat2("最近进展：", summary));
        }
    }
    let ghost second = views(lines@);
    assert(second =~= base + optional_line("最近进展："@, task@.progress_summary));
    if let Some(next) = as_text(&task.next_action) {
        if !is_blank(next) {
            lines.push(concat2("下一步：", next));
        }
    }
    assert(views(lines@) =~= second + optional_line("下一步："@, task@.next_action));
    if !task.blockers.is_empty() {
        lines.push(concat2("阻塞：", join(&task.blockers, "；").as_str()));
    }
    assert(views(lines@) =~= status_lines(task@, opt_view(leader), worker_count as nat));
    join(&lines, "\n")
}

/// The lines that tell what the members of a team are doing.
pub open spec fn worker_lines(leader: ConversationResponseView, workers: Seq<ConversationResponseView>) -> Seq<
    Seq<char>,
> {
    seq![named_with_state("Leader："@, leader)] + if workers.len() == 0 {
        seq!["Worker：无"@]
    } else {
        seq!["Worker："@ + decimal(workers.len()) + " 个"@] + Seq::new(
            workers.len(),
            |i: int| named_with_state("- "@, workers[i]),
        )
    }
}

/// Tells what the members of a team are doing.
pub fn format_task_workers(leader: &ConversationResponse, workers: &Vec<ConversationResponse>) -> (r: String)
    ensures
        r@ == joined(worker_lines(leader@, views(workers@)), "\n"@),
{
    let ghost shown = views(workers@);
    let mut lines: Vec<String> = Vec::new();
    lines.push(name_with_state("Leader：", leader));
    if workers.is_empty() {
        lines.push("Worker：无".to_owned());
    } else {
        lines.push(concat3("Worker：", decimal_text(workers.len() as u64).as_str(), " 个"));
        let ghost start = views(lines@);
        let ghost all = Seq::new(shown.len(), |i: int| named_with_state("- "@, shown[i]));
        let mut i: usize = 0;
        assert(start =~= start + all.take(0));
        while i < workers.len()
            invariant
                i <= workers@.len(),
                shown == views(workers@),
                all == Seq::new(shown.len(), |i: int| named_with_state("- "@, shown[i])),
                views(lines@) == start + all.take(i as int),
            decreases workers@.len() - i,
        {
            let ghost before = views(lines@);
            lines.push(name_with_state("- ", &workers[i]));
            i += 1;
            assert(views(lines@) =~= before.push(all[i - 1]));
            assert(views(lines@) =~= start + all.take(i as int));
        }
        assert(all.take(i as int) =~= all);
    }
    assert(views(lines@) =~= worker_lines(leader@, shown));
    join(&lines, "\n")
}

/// What is said of a task without a leader.
pub fn no_leader_text(title: &str) -> (r: String)
    ensures
        r@ == "任务「"@ + title@ + "」尚未绑定 Leader。"@,
{
    concat3("任务「", title, "」尚未绑定 Leader。")
}

/// What is said of a task that was resumed.
pub fn resumed_text(task: &StewardTaskResponse) -> (r: String)
    ensures
        r@ == "已恢复任务「"@ + task@.title + "」的原主会话。当前执行状态："@ + execution_state_word(
            task@.execution_state,
        ) + "。"@,
{
    concat5(
        "已恢复任务「",
        task.title.as_str(),
        "」的原主会话。当前执行状态：",
        execution_state_label(&task.execution_state),
        "。",
    )
}

/// What is said of a task that was archived or restored.
pub open spec fn archived_words(title: Seq<char>, archived: bool, whole_team: bool) -> Seq<char> {
    "已"@ + if archived {
        "归档"@
    } else {
        "恢复"@
    } + "任务「"@ + title + "」及其"@ + if whole_team {
        "团队会话"@
    } else {
        "主会话"@
    } + "。"@
}

/// What is said of a task that was archived or restored.
pub fn archived_text(title: &str, archived: bool, whole_team: bool) -> (r: String)
    ensures
        r@ == archived_words(title@, archived, whole_team),
{
    let mut r = concat5(
        "已",
        if archived {
            "归档"
        } else {
            "恢复"
        },
        "任务「",
        title,
        "」及其",
    );
    r.append(
        if whole_team {
            "团队会话"
        } else {
            "主会话"
        },
    );
    r.append("。");
    r
}

/// What is said when the leader has answered.
pub fn reply_text(reply: &str) -> (r: String)
    ensures
        r@ == "Leader 回复：\n"@ + reply@,
{
    concat2("Leader 回复：\n", reply)
}

// ---------------------------------------------------------------------
// What is picked out and shown
// ---------------------------------------------------------------------

/// What is picked out of a list are exactly its members that meet the condition.
pub proof fn law_chosen_are_those_that_meet_it(
    tasks: Seq<StewardTaskResponseView>,
    p: spec_fn(StewardTaskResponseView) -> bool,
    t: StewardTaskResponseView,
)
    ensures
        chosen(tasks, p).contains(t) <==> tasks.contains(t) && p(t),
    decreases tasks.len(),
{
    if tasks.len() > 0 {
        let init = tasks.drop_last();
        let last = tasks.last();
        law_chosen_are_those_that_meet_it(init, p, t);
        assert(tasks[tasks.len() - 1] == last);
        if tasks.contains(t) && t != last {
            let k = tasks.index_of(t);
            assert(init[k] == t);
        }
        if init.contains(t) {
            let k = init.index_of(t);
            assert(tasks[k] == t);
        }
        let before = chosen(init, p);
        let after = chosen(tasks, p);
        if before.contains(t) {
            let k = before.index_of(t);
            assert(after[k] == t);
        }
        if p(last) {
            assert(after[after.len() - 1] == last);
        }
        if after.contains(t) && !before.contains(t) {
            let k = after.index_of(t);
            if k < before.len() {
                assert(before[k] == t);
            }
        }
    }
}

/// Where one member of a list alone meets the condition, it alone is picked out.
pub proof fn law_the_only_one_is_chosen(
    tasks: Seq<StewardTaskResponseView>,
    p: spec_fn(StewardTaskResponseView) -> bool,
    k: int,
)
    requires
        0 <= k < tasks.len(),
        p(tasks[k]),
        forall|i: int| 0 <= i < tasks.len() && i != k ==> !p(#[trigger] tasks[i]),
    ensures
        chosen(tasks, p) == seq![tasks[k]],
    decreases tasks.len(),
{
    let init = tasks.drop_last();
    assert(forall|i: int| 0 <= i < init.len() ==> #[trigger] init[i] == tasks[i]);
    if k == tasks.len() - 1 {
        law_none_is_chosen(init, p);
        assert(chosen(tasks, p) =~= seq![tasks[k]]);
    } else {
        assert(!p(tasks[tasks.len() - 1]));
        law_the_only_one_is_chosen(init, p, k);
    }
}

/// Where no member of a list meets the condition, none is picked out.
pub proof fn law_none_is_chosen(tasks: Seq<StewardTaskResponseView>, p: spec_fn(StewardTaskResponseView) -> bool)
    requires
        forall|i: int| 0 <= i < tasks.len() ==> !p(#[trigger] tasks[i]),
    ensures
        chosen(tasks, p).len() == 0,
    decreases tasks.len(),
{
    if tasks.len() > 0 {
        let init = tasks.drop_last();
        assert(forall|i: int| 0 <= i < init.len() ==> #[trigger] init[i] == tasks[i]);
        assert(!p(tasks[tasks.len() - 1]));
        law_none_is_chosen(init, p);
    }
}

/// Where two members of a list meet the condition, more than one is picked out.
pub proof fn law_several_are_chosen(
    tasks: Seq<StewardTaskResponseView>,
    p: spec_fn(StewardTaskResponseView) -> bool,
    i: int,
    j: int,
)
    requires
        0 <= i < j < tasks.len(),
        p(tasks[i]),
        p(tasks[j]),
    ensures
        chosen(tasks, p).len() >= 2,
    decreases tasks.len(),
{
    let init = tasks.drop_last();
    if j == tasks.len() - 1 {
        law_chosen_are_those_that_meet_it(init, p, tasks[i]);
        assert(init[i] == tasks[i]);
        assert(chosen(init, p).contains(tasks[i]));
    } else {
        assert(init[i] == tasks[i] && init[j] == tasks[j]);
        law_several_are_chosen(init, p, i, j);
    }
}

/// The tasks that are open are those whose lifecycle says so.
pub proof fn law_open_ones_are_open(tasks: Seq<StewardTaskResponseView>, t: StewardTaskResponseView)
    ensures
        open_ones(tasks).contains(t) <==> tasks.contains(t) && t.lifecycle == StewardTaskLifecycle::Open,
{
    law_chosen_are_those_that_meet_it(tasks, crate::overview::open_task(), t);
}

/// A text that is put together of parts holds each of them.
pub proof fn law_joined_holds_its_parts(parts: Seq<Seq<char>>, sep: Seq<char>, k: int)
    requires
        0 <= k < parts.len(),
    ensures
        has_text(joined(parts, sep), parts[k]),
    decreases parts.len(),
{
    let all = joined(parts, sep);
    if parts.len() == 1 {
        assert(all.subrange(0, all.len() as int) =~= parts[k]);
        assert(occurs_at(all, parts[k], 0));
    } else if k == parts.len() - 1 {
        let at = all.len() - parts[k].len();
        assert(all.subrange(at, at + parts[k].len()) =~= parts[k]);
        assert(occurs_at(all, parts[k], at));
    } else {
        let init = parts.drop_last();
        assert(init[k] == parts[k]);
        law_joined_holds_its_parts(init, sep, k);
        let before = joined(init, sep);
        let at = choose|i: int| occurs_at(before, parts[k], i);
        assert(all.subrange(at, at + parts[k].len()) =~= before.subrange(at, at + parts[k].len()));
        assert(occurs_at(all, parts[k], at));
    }
}

/// The overview names every task with its two states and every conversation on its own with
/// its own, after the counts.
pub proof fn law_the_overview_names_everything(o: StewardOverviewResponseView, k: int)
    ensures
        has_prefix(
            joined(overview_lines(o), "\n"@),
            "任务概览：进行中 "@ + decimal(o.open_tasks as nat) + "，执行中 "@ + decimal(o.running_tasks as nat)
                + "，等待 "@ + decimal(o.waiting_tasks as nat) + "，中断 "@ + decimal(o.interrupted_tasks as nat),
        ),
        0 <= k < o.tasks.len() ==> has_text(
            joined(overview_lines(o), "\n"@),
            "- "@ + o.tasks[k].title + " ["@ + lifecycle_word(o.tasks[k].lifecycle) + " / "@ + execution_state_word(
                o.tasks[k].execution_state,
            ) + "]"@,
        ),
        0 <= k < o.unregistered_conversations.len() ==> has_text(
            joined(overview_lines(o), "\n"@),
            "- "@ + o.unregistered_conversations[k].conversation_name + " ["@ + status_word(
                o.unregistered_conversations[k].status,
            ) + "]"@,
        ),
{
    let lines = overview_lines(o);
    let head = "任务概览：进行中 "@ + decimal(o.open_tasks as nat) + "，执行中 "@ + decimal(o.running_tasks as nat)
        + "，等待 "@ + decimal(o.waiting_tasks as nat) + "，中断 "@ + decimal(o.interrupted_tasks as nat);
    assert(lines[0] == head + "。"@);
    lemma_joined_begins(lines, "\n"@);
    let all = joined(lines, "\n"@);
    assert(all.take(lines[0].len() as int) == lines[0]);
    assert(all.take(head.len() as int) =~= lines[0].take(head.len() as int));
    assert(lines[0].take(head.len() as int) =~= head);
    if 0 <= k < o.tasks.len() {
        assert(lines[2 + k] == task_line(o.tasks[k]));
        law_joined_holds_its_parts(lines, "\n"@, 2 + k);
    }
    if 0 <= k < o.unregistered_conversations.len() {
        let before = if o.tasks.len() == 0 {
            2
        } else {
            2 + o.tasks.len() as int
        };
        assert(lines[before + 1 + k] == loose_line(o.unregistered_conversations[k]));
        law_joined_holds_its_parts(lines, "\n"@, before + 1 + k);
    }
}

proof fn lemma_joined_begins(parts: Seq<Seq<char>>, sep: Seq<char>)
    requires
        parts.len() > 0,
    ensures
        joined(parts, sep).len() >= parts[0].len(),
        joined(parts, sep).take(parts[0].len() as int) == parts[0],
    decreases parts.len(),
{
    let all = joined(parts, sep);
    if parts.len() == 1 {
        assert(all.take(parts[0].len() as int) =~= parts[0]);
    } else {
        let init = parts.drop_last();
        lemma_joined_begins(init, sep);
        let before = joined(init, sep);
        assert(all.take(parts[0].len() as int) =~= before.take(parts[0].len() as int));
    }
}

/// Where several tasks are open each is listed with its state, and no other task is; where
/// none is, that is said.
pub proof fn law_the_status_list_names_open_tasks(tasks: Seq<StewardTaskResponseView>, k: int)
    requires
        0 <= k < tasks.len(),
    ensures
        tasks[k].lifecycle == StewardTaskLifecycle::Open ==> has_text(
            status_list(tasks),
            "- "@ + tasks[k].title + " ["@ + execution_state_word(tasks[k].execution_state) + "]"@,
        ),
        (forall|i: int| 0 <= i < tasks.len() ==> (#[trigger] tasks[i]).lifecycle != StewardTaskLifecycle::Open)
            ==> status_list(tasks) == NO_OPEN_TASK@,
{
    let open = open_ones(tasks);
    if tasks[k].lifecycle == StewardTaskLifecycle::Open {
        law_open_ones_are_open(tasks, tasks[k]);
        assert(tasks.contains(tasks[k]));
        let i = open.index_of(tasks[k]);
        let lines = seq!["当前有多个进行中任务，请指定任务名："@] + Seq::new(open.len(), |i: int| state_line(open[i]));
        assert(lines[1 + i] == state_line(tasks[k]));
        law_joined_holds_its_parts(lines, "\n"@, 1 + i);
    }
    if forall|i: int| 0 <= i < tasks.len() ==> (#[trigger] tasks[i]).lifecycle != StewardTaskLifecycle::Open {
        law_none_is_chosen(tasks, crate::overview::open_task());
    }
}

/// The status of a task tells its title, both its states, its leader, how many work on it,
/// and whatever is known of its progress, its next action and its blockers.
pub proof fn law_the_status_tells_all_of_a_task(
    t: StewardTaskResponseView,
    leader: Option<ConversationResponseView>,
    workers: nat,
)
    ensures
        ({
            let text = joined(status_lines(t, leader, workers), "\n"@);
            &&& has_text(text, "任务："@ + t.title)
            &&& has_text(text, "任务状态："@ + lifecycle_word(t.lifecycle))
            &&& has_text(text, "执行状态："@ + execution_state_word(t.execution_state))
            &&& leader matches Some(c) ==> has_text(
                text,
                "Leader："@ + c.name + "（"@ + runtime_word(c.runtime, c.status) + "）"@,
            )
            &&& leader is None ==> has_text(text, "Leader：未绑定"@)
            &&& has_text(text, "专家团 Worker："@ + decimal(workers) + " 个"@)
            &&& t.progress_summary matches Some(s) ==> (trimmed(s).len() > 0 ==> has_text(text, "最近进展："@ + s))
            &&& t.next_action matches Some(s) ==> (trimmed(s).len() > 0 ==> has_text(text, "下一步："@ + s))
            &&& t.blockers.len() > 0 ==> has_text(text, "阻塞："@ + joined(t.blockers, "；"@))
        }),
{
    let lines = status_lines(t, leader, workers);
    let sep = "\n"@;
    law_joined_holds_its_parts(lines, sep, 0);
    law_joined_holds_its_parts(lines, sep, 1);
    law_joined_holds_its_parts(lines, sep, 2);
    law_joined_holds_its_parts(lines, sep, 3);
    law_joined_holds_its_parts(lines, sep, 4);
    assert(lines[0] == "任务："@ + t.title);
    assert(lines[1] == "任务状态："@ + lifecycle_word(t.lifecycle));
    assert(lines[2] == "执行状态："@ + execution_state_word(t.execution_state));
    assert(lines[4] == "专家团 Worker："@ + decimal(workers) + " 个"@);
    let progress = optional_line("最近进展："@, t.progress_summary);
    let next = optional_line("下一步："@, t.next_action);
    if progress.len() > 0 {
        assert(lines[5] == progress[0]);
        law_joined_holds_its_parts(lines, sep, 5);
    }
    if next.len() > 0 {
        let k = 5 + progress.len() as int;
        assert(lines[k] == next[0]);
        law_joined_holds_its_parts(lines, sep, k);
    }
    if t.blockers.len() > 0 {
        let k = lines.len() - 1;
        assert(lines[k] == "阻塞："@ + joined(t.blockers, "；"@));
        law_joined_holds_its_parts(lines, sep, k);
    }
}

/// The workers of a task are all named with their state, after their leader and their
/// number.
pub proof fn law_all_workers_are_named(leader: ConversationResponseView, workers: Seq<ConversationResponseView>, k: int)
    ensures
        has_text(
            joined(worker_lines(leader, workers), "\n"@),
            "Leader："@ + leader.name + "（"@ + runtime_word(leader.runtime, leader.status) + "）"@,
        ),
        workers.len() == 0 ==> has_text(joined(worker_lines(leader, workers), "\n"@), "Worker：无"@),
        workers.len() > 0 ==> has_text(
            joined(worker_lines(leader, workers), "\n"@),
            "Worker："@ + decimal(workers.len()) + " 个"@,
        ),
        0 <= k < workers.len() ==> has_text(
            joined(worker_lines(leader, workers), "\n"@),
            "- "@ + workers[k].name + "（"@ + runtime_word(workers[k].runtime, workers[k].status) + "）"@,
        ),
{
    let lines = worker_lines(leader, workers);
    law_joined_holds_its_parts(lines, "\n"@, 0);
    law_joined_holds_its_parts(lines, "\n"@, 1);
    if 0 <= k < workers.len() {
        assert(lines[2 + k] == named_with_state("- "@, workers[k]));
        law_joined_holds_its_parts(lines, "\n"@, 2 + k);
    }
}

/// What is said after archiving and restoring names the task, says which of the two was
/// done, and whether a whole team or one conversation was concerned.
pub proof fn law_archiving_is_told_from_restoring(title: Seq<char>, archived: bool, whole_team: bool)
    ensures
        archived ==> has_prefix(archived_words(title, archived, whole_team), "已归档任务「"@ + title),
        !archived ==> has_prefix(archived_words(title, archived, whole_team), "已恢复任务「"@ + title),
        whole_team ==> has_suffix(archived_words(title, archived, whole_team), "团队会话。"@),
        !whole_team ==> has_suffix(archived_words(title, archived, whole_team), "主会话。"@),
{
    reveal_strlit("已");
    reveal_strlit("归档");
    reveal_strlit("恢复");
    reveal_strlit("任务「");
    reveal_strlit("已归档任务「");
    reveal_strlit("已恢复任务「");
    reveal_strlit("团队会话");
    reveal_strlit("主会话");
    reveal_strlit("。");
    reveal_strlit("团队会话。");
    reveal_strlit("主会话。");
    let words = archived_words(title, archived, whole_team);
    assert("已归档任务「"@ =~= "已"@ + "归档"@ + "任务「"@);
    assert("已恢复任务「"@ =~= "已"@ + "恢复"@ + "任务「"@);
    assert("团队会话。"@ =~= "团队会话"@ + "。"@);
    assert("主会话。"@ =~= "主会话"@ + "。"@);
    let head = if archived {
        "已归档任务「"@ + title
    } else {
        "已恢复任务「"@ + title
    };
    let tail = if whole_team {
        "团队会话。"@
    } else {
        "主会话。"@
    };
    assert(words =~= head + "」及其"@ + tail);
    assert(words.take(head.len() as int) =~= head);
    assert(words.skip(words.len() - tail.len()) =~= tail);
}

} // verus!
