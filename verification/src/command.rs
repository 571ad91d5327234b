//! The fixed commands that the steward answers without its model.
use vstd::prelude::*;
use crate::api::{SlashCommandItem, SlashCommandItemView, StewardCommandResponse, StewardCommandResponseView};
use crate::fields::{nonempty, nonempty_option};
use crate::text::{
    ascii_lower, ascii_lowered, cut_at_space, has_prefix, has_suffix, is_space, law_cut_at_the_first_space,
    law_trim_is_idempotent, lead, lemma_trimmed_end_of_sum, lemma_trimmed_of_trimmed_end, opt_view, same,
    same_ignoring_ascii_case, split_space, strip_prefix, strip_suffix, trim, trim_end_of, trimmed, trimmed_end,
    trimmed_end_of, trimmed_start, views,
};

verus! {

/// A command to the steward.
#[derive(Debug, Clone, PartialEq, Eq)]
pub enum ParsedStewardCommand {
    Help,
    Tasks,
    Status(Option<String>),
    Workers(Option<String>),
    Resume(Option<String>),
    Archive(String),
    Restore(String),
    Ask { target: Option<String>, question: String },
}

/// The model of [`ParsedStewardCommand`].
#[verifier::ext_equal]
pub enum CommandView {
    Help,
    Tasks,
    Status(Option<Seq<char>>),
    Workers(Option<Seq<char>>),
    Resume(Option<Seq<char>>),
    Archive(Seq<char>),
    Restore(Seq<char>),
    Ask { target: Option<Seq<char>>, question: Seq<char> },
}

impl View for ParsedStewardCommand {
    type V = CommandView;

    open spec fn view(&self) -> CommandView {
        match *self {
            ParsedStewardCommand::Help => CommandView::Help,
            ParsedStewardCommand::Tasks => CommandView::Tasks,
            ParsedStewardCommand::Status(t) => CommandView::Status(opt_view(t)),
            ParsedStewardCommand::Workers(t) => CommandView::Workers(opt_view(t)),
            ParsedStewardCommand::Resume(t) => CommandView::Resume(opt_view(t)),
            ParsedStewardCommand::Archive(t) => CommandView::Archive(t@),
            ParsedStewardCommand::Restore(t) => CommandView::Restore(t@),
            ParsedStewardCommand::Ask { target, question } => CommandView::Ask {
                target: opt_view(target),
                question: question@,
            },
        }
    }
}

/// The name of a command.
pub open spec fn command_name(c: CommandView) -> Seq<char> {
    match c {
        CommandView::Help => "help"@,
        CommandView::Tasks => "tasks"@,
        CommandView::Status(_) => "status"@,
        CommandView::Workers(_) => "workers"@,
        CommandView::Resume(_) => "resume"@,
        CommandView::Archive(_) => "archive"@,
        CommandView::Restore(_) => "restore"@,
        CommandView::Ask { .. } => "ask"@,
    }
}

impl ParsedStewardCommand {
    /// The name of this command.
    pub fn name(&self) -> (r: &'static str)
        ensures
            r@ == command_name(self@),
    {
        match self {
            ParsedStewardCommand::Help => "help",
            ParsedStewardCommand::Tasks => "tasks",
            ParsedStewardCommand::Status(_) => "status",
            ParsedStewardCommand::Workers(_) => "workers",
            ParsedStewardCommand::Resume(_) => "resume",
            ParsedStewardCommand::Archive(_) => "archive",
            ParsedStewardCommand::Restore(_) => "restore",
            ParsedStewardCommand::Ask { .. } => "ask",
        }
    }
}

/// Whether `s` is `p` followed by more than whitespace.
pub open spec fn led_by(s: Seq<char>, p: Seq<char>) -> bool {
    has_prefix(s, p) && trimmed(s.skip(p.len() as int)).len() > 0
}

/// What follows `p` in `s`.
pub open spec fn after(s: Seq<char>, p: Seq<char>) -> Seq<char> {
    trimmed(s.skip(p.len() as int))
}

/// Whether `s` is `p` preceded by more than whitespace.
pub open spec fn closed_by(s: Seq<char>, p: Seq<char>) -> bool {
    has_suffix(s, p) && trimmed(s.take(s.len() - p.len())).len() > 0
}

/// What precedes `p` in `s`.
pub open spec fn before(s: Seq<char>, p: Seq<char>) -> Seq<char> {
    trimmed(s.take(s.len() - p.len()))
}

/// What the arguments of `/ask` say: whom to ask, unless it is the leader in general, and
/// the question.
pub open spec fn ask_arguments(args: Seq<char>) -> Option<CommandView> {
    let (first, rest) = cut_at_space(args);
    let target = trimmed(first);
    if rest is None || target.len() == 0 || trimmed(rest.unwrap()).len() == 0 {
        None
    } else {
        Some(
            CommandView::Ask {
                target: if ascii_lowered(target) == ascii_lowered("leader"@) || target == "领导"@ {
                    None
                } else {
                    Some(target)
                },
                question: trimmed(rest.unwrap()),
            },
        )
    }
}

/// What a line means that begins with a slash, of which `line` is the rest.
pub open spec fn slash_meaning(line: Seq<char>) -> Option<CommandView> {
    let (first, rest) = cut_at_space(line);
    let name = ascii_lowered(first);
    let args = match rest {
        Some(r) => trimmed(r),
        None => Seq::empty(),
    };
    if name == "help"@ || name == "帮助"@ {
        Some(CommandView::Help)
    } else if name == "tasks"@ || name == "任务"@ {
        Some(CommandView::Tasks)
    } else if name == "status"@ || name == "状态"@ {
        Some(CommandView::Status(nonempty(args)))
    } else if name == "workers"@ || name == "成员"@ {
        Some(CommandView::Workers(nonempty(args)))
    } else if name == "resume"@ || name == "继续"@ {
        Some(CommandView::Resume(nonempty(args)))
    } else if (name == "archive"@ || name == "归档"@) && args.len() > 0 {
        Some(CommandView::Archive(args))
    } else if (name == "restore"@ || name == "恢复"@) && args.len() > 0 {
        Some(CommandView::Restore(args))
    } else if name == "ask"@ || name == "问"@ {
        ask_arguments(args)
    } else {
        None
    }
}

/// What a phrase in plain words means.
pub open spec fn phrase_meaning(s: Seq<char>) -> Option<CommandView> {
    if s == "有哪些任务"@ || s == "任务列表"@ || s == "查看任务"@ || s == "当前任务"@ {
        Some(CommandView::Tasks)
    } else if s == "帮助"@ || s == "有哪些指令"@ || s == "有什么指令"@ {
        Some(CommandView::Help)
    } else if s == "leader现在在做什么"@ || s == "Leader现在在做什么"@ || s
        == "领导现在在做什么"@ {
        Some(CommandView::Status(None))
    } else if led_by(s, "问下leader"@) {
        Some(CommandView::Ask { target: None, question: after(s, "问下leader"@) })
    } else if led_by(s, "问一下leader"@) {
        Some(CommandView::Ask { target: None, question: after(s, "问一下leader"@) })
    } else if led_by(s, "问下 Leader"@) {
        Some(CommandView::Ask { target: None, question: after(s, "问下 Leader"@) })
    } else if led_by(s, "问一下 Leader"@) {
        Some(CommandView::Ask { target: None, question: after(s, "问一下 Leader"@) })
    } else if closed_by(s, "现在在做什么"@) {
        Some(CommandView::Status(Some(before(s, "现在在做什么"@))))
    } else if closed_by(s, "的状态"@) {
        Some(CommandView::Status(Some(before(s, "的状态"@))))
    } else if closed_by(s, "有哪些成员"@) {
        Some(CommandView::Workers(Some(before(s, "有哪些成员"@))))
    } else if closed_by(s, "的成员"@) {
        Some(CommandView::Workers(Some(before(s, "的成员"@))))
    } else if closed_by(s, "的worker"@) {
        Some(CommandView::Workers(Some(before(s, "的worker"@))))
    } else if closed_by(s, "的 Worker"@) {
        Some(CommandView::Workers(Some(before(s, "的 Worker"@))))
    } else if led_by(s, "继续任务"@) {
        Some(CommandView::Resume(Some(after(s, "继续任务"@))))
    } else if led_by(s, "继续"@) {
        Some(CommandView::Resume(Some(after(s, "继续"@))))
    } else if led_by(s, "归档任务"@) {
        Some(CommandView::Archive(after(s, "归档任务"@)))
    } else if led_by(s, "归档"@) {
        Some(CommandView::Archive(after(s, "归档"@)))
    } else if led_by(s, "恢复归档任务"@) {
        Some(CommandView::Restore(after(s, "恢复归档任务"@)))
    } else if led_by(s, "恢复任务"@) {
        Some(CommandView::Restore(after(s, "恢复任务"@)))
    } else if led_by(s, "取消归档"@) {
        Some(CommandView::Restore(after(s, "取消归档"@)))
    } else {
        None
    }
}

/// The command that a message is, if it is one.
pub open spec fn command_meaning(content: Seq<char>) -> Option<CommandView> {
    let input = trimmed(content);
    if input.len() == 0 {
        None
    } else if input[0] == '/' {
        slash_meaning(input.skip(1))
    } else {
        phrase_meaning(trimmed(trimmed_end_of(input, seq!['。', '？', '?'])))
    }
}

/// What follows the prefix, unless it is blank.
fn rest_after(s: &str, p: &str) -> (r: Option<String>)
    ensures
        opt_view(r) == if led_by(s@, p@) {
            Some(after(s@, p@))
        } else {
            None
        },
{
    match strip_prefix(s, p) {
        Some(rest) => nonempty_option(rest.to_owned()),
        None => None,
    }
}

/// What precedes the suffix, unless it is blank.
fn rest_before(s: &str, p: &str) -> (r: Option<String>)
    ensures
        opt_view(r) == if closed_by(s@, p@) {
            Some(before(s@, p@))
        } else {
            None
        },
{
    match strip_suffix(s, p) {
        Some(rest) => nonempty_option(rest.to_owned()),
        None => None,
    }
}

/// Reads the arguments of `/ask`.
pub fn parse_ask_arguments(args: &str) -> (r: Option<ParsedStewardCommand>)
    ensures
        opt_view(r) == ask_arguments(args@),
{
    let (first, rest) = split_space(args);
    let target = trim(first);
    let question = match rest {
        Some(q) => trim(q),
        None => {
            return None;
        },
    };
    if target.is_empty() || question.is_empty() {
        return None;
    }
    let named = if same_ignoring_ascii_case(target, "leader") || same(target, "领导") {
        None
    } else {
        Some(target.to_owned())
    };
    Some(ParsedStewardCommand::Ask { target: named, question: question.to_owned() })
}

/// Reads what follows a leading slash.
fn parse_slash(line: &str) -> (r: Option<ParsedStewardCommand>)
    ensures
        opt_view(r) == slash_meaning(line@),
{
    let (first, rest) = split_space(line);
    let name = ascii_lower(first);
    let n = name.as_str();
    let args = match rest {
        Some(a) => trim(a),
        None => "",
    };
    proof {
        reveal_strlit("");
        assert(""@ =~= Seq::<char>::empty());
    }
    if same(n, "help") || same(n, "帮助") {
        Some(ParsedStewardCommand::Help)
    } else if same(n, "tasks") || same(n, "任务") {
        Some(ParsedStewardCommand::Tasks)
    } else if same(n, "status") || same(n, "状态") {
        Some(ParsedStewardCommand::Status(nonempty_option(args.to_owned())))
    } else if same(n, "workers") || same(n, "成员") {
        Some(ParsedStewardCommand::Workers(nonempty_option(args.to_owned())))
    } else if same(n, "resume") || same(n, "继续") {
        Some(ParsedStewardCommand::Resume(nonempty_option(args.to_owned())))
    } else if (same(n, "archive") || same(n, "归档")) && !args.is_empty() {
        Some(ParsedStewardCommand::Archive(args.to_owned()))
    } else if (same(n, "restore") || same(n, "恢复")) && !args.is_empty() {
        Some(ParsedStewardCommand::Restore(args.to_owned()))
    } else if same(n, "ask") || same(n, "问") {
        parse_ask_arguments(args)
    } else {
        None
    }
}

/// Reads a phrase in plain words.
fn parse_phrase(s: &str) -> (r: Option<ParsedStewardCommand>)
    ensures
        opt_view(r) == phrase_meaning(s@),
{
    if same(s, "有哪些任务") || same(s, "任务列表") || same(s, "查看任务") || same(s, "当前任务") {
        return Some(ParsedStewardCommand::Tasks);
    }
    if same(s, "帮助") || same(s, "有哪些指令") || same(s, "有什么指令") {
        return Some(ParsedStewardCommand::Help);
    }
    if same(s, "leader现在在做什么") || same(s, "Leader现在在做什么") || same(s, "领导现在在做什么") {
        return Some(ParsedStewardCommand::Status(None));
    }
    if let Some(question) = rest_after(s, "问下leader") {
        return Some(ParsedStewardCommand::Ask { target: None, question });
    }
    if let Some(question) = rest_after(s, "问一下leader") {
        return Some(ParsedStewardCommand::Ask { target: None, question });
    }
    if let Some(question) = rest_after(s, "问下 Leader") {
        return Some(ParsedStewardCommand::Ask { target: None, question });
    }
    if let Some(question) = rest_after(s, "问一下 Leader") {
        return Some(ParsedStewardCommand::Ask { target: None, question });
    }
    if let Some(target) = rest_before(s, "现在在做什么") {
        return Some(ParsedStewardCommand::Status(Some(target)));
    }
    if let Some(target) = rest_before(s, "的状态") {
        return Some(ParsedStewardCommand::Status(Some(target)));
    }
    if let Some(target) = rest_before(s, "有哪些成员") {
        return Some(ParsedStewardCommand::Workers(Some(target)));
    }
    if let Some(target) = rest_before(s, "的成员") {
        return Some(ParsedStewardCommand::Workers(Some(target)));
    }
    if let Some(target) = rest_before(s, "的worker") {
        return Some(ParsedStewardCommand::Workers(Some(target)));
    }
    if let Some(target) = rest_before(s, "的 Worker") {
        return Some(ParsedStewardCommand::Workers(Some(target)));
    }
    if let Some(target) = rest_after(s, "继续任务") {
        return Some(ParsedStewardCommand::Resume(Some(target)));
    }
    if let Some(target) = rest_after(s, "继续") {
        return Some(ParsedStewardCommand::Resume(Some(target)));
    }
    if let Some(target) = rest_after(s, "归档任务") {
        return Some(ParsedStewardCommand::Archive(target));
    }
    if let Some(target) = rest_after(s, "归档") {
        return Some(ParsedStewardCommand::Archive(target));
    }
    if let Some(target) = rest_after(s, "恢复归档任务") {
        return Some(ParsedStewardCommand::Restore(target));
    }
    if let Some(target) = rest_after(s, "恢复任务") {
        return Some(ParsedStewardCommand::Restore(target));
    }
    if let Some(target) = rest_after(s, "取消归档") {
        return Some(ParsedStewardCommand::Restore(target));
    }
    None
}

/// Reads a message as a fixed command. What is not plainly one is left to the model.
pub fn parse_steward_command(content: &str) -> (r: Option<ParsedStewardCommand>)
    ensures
        opt_view(r) == command_meaning(content@),
{
    let input = trim(content);
    if input.is_empty() {
        return None;
    }
    proof {
        reveal_strlit("/");
        assert("/"@ =~= seq!['/']);
        assert(input@.take(1) =~= seq![input@[0]]);
        assert(has_prefix(input@, "/"@) <==> input@[0] == '/') by {
            if input@.take(1) == seq!['/'] {
                assert(input@.take(1)[0] == '/');
            }
        }
    }
    if let Some(line) = strip_prefix(input, "/") {
        return parse_slash(line);
    }
    let marks: [char; 3] = ['。', '？', '?'];
    assert(marks@ =~= seq!['。', '？', '?']);
    parse_phrase(trim(trim_end_of(input, marks.as_slice())))
}

/// What `/help` answers.
pub const FIXED_COMMAND_HELP: &'static str = "大管家快速指令：\n/tasks — 列出任务和未纳管会话\n/status [任务名] — 查询任务与 Leader 状态\n/workers [任务名] — 查询团队成员状态\n/resume [任务名] — 恢复原主会话\n/archive <任务名> — 归档任务及主会话/团队\n/restore <任务名> — 恢复已归档任务\n/ask <任务名> <问题> — 询问 Leader 并等待回复\n不匹配快速指令的消息会继续交给大管家 AI。";

/// The text that explains the fixed commands.
pub fn fixed_command_help() -> (r: String)
    ensures
        r@ == FIXED_COMMAND_HELP@,
{
    FIXED_COMMAND_HELP.to_owned()
}

/// A completion item with nothing but a command and its description.
pub open spec fn slash_item(command: Seq<char>, description: Seq<char>) -> SlashCommandItemView {
    SlashCommandItemView {
        command,
        description,
        completion_behavior: None,
        empty_turn_tip_code: None,
        empty_turn_tip_params: None,
    }
}

/// The completion items, in the order in which they are offered.
pub open spec fn slash_items() -> Seq<SlashCommandItemView> {
    seq![
        slash_item("/help"@, "查看大管家机器指令"@),
        slash_item("/tasks"@, "直接列出任务和未纳管会话"@),
        slash_item("/status"@, "直接查询任务与 Leader 运行状态，可追加任务名"@),
        slash_item("/workers"@, "直接查询专家团成员状态，可追加任务名"@),
        slash_item("/resume"@, "恢复已有任务的主会话，可追加任务名"@),
        slash_item("/archive"@, "归档指定任务及其主会话，需要任务名"@),
        slash_item("/restore"@, "恢复指定的已归档任务，需要任务名"@),
        slash_item("/ask"@, "询问指定任务的 Leader 并等待回复：/ask 任务名 问题"@),
    ]
}

fn make_slash_item(command: &str, description: &str) -> (r: SlashCommandItem)
    ensures
        r@ == slash_item(command@, description@),
{
    SlashCommandItem {
        command: command.to_owned(),
        description: description.to_owned(),
        completion_behavior: None,
        empty_turn_tip_code: None,
        empty_turn_tip_params: None,
    }
}

/// The fixed commands as completion items.
pub fn fixed_slash_commands() -> (r: Vec<SlashCommandItem>)
    ensures
        views(r@) == slash_items(),
{
    let mut r: Vec<SlashCommandItem> = Vec::new();
    r.push(make_slash_item("/help", "查看大管家机器指令"));
    r.push(make_slash_item("/tasks", "直接列出任务和未纳管会话"));
    r.push(make_slash_item("/status", "直接查询任务与 Leader 运行状态，可追加任务名"));
    r.push(make_slash_item("/workers", "直接查询专家团成员状态，可追加任务名"));
    r.push(make_slash_item("/resume", "恢复已有任务的主会话，可追加任务名"));
    r.push(make_slash_item("/archive", "归档指定任务及其主会话，需要任务名"));
    r.push(make_slash_item("/restore", "恢复指定的已归档任务，需要任务名"));
    r.push(make_slash_item("/ask", "询问指定任务的 Leader 并等待回复：/ask 任务名 问题"));
    assert(views(r@) =~= slash_items());
    r
}

/// The answer to a message that is no command.
pub open spec fn unhandled(now: i64) -> StewardCommandResponseView {
    StewardCommandResponseView {
        handled: false,
        command: None,
        text: None,
        task_id: None,
        conversation_id: None,
        user_msg_id: None,
        response_msg_id: None,
        executed_at: now,
    }
}

/// The answer to a message that is no command.
pub fn unhandled_command_response(now: i64) -> (r: StewardCommandResponse)
    ensures
        r@ == unhandled(now),
{
    StewardCommandResponse {
        handled: false,
        command: None,
        text: None,
        task_id: None,
        conversation_id: None,
        user_msg_id: None,
        response_msg_id: None,
        executed_at: now,
    }
}

/// Whether a text is there, and trimmed.
pub open spec fn is_name(s: Seq<char>) -> bool {
    s.len() > 0 && trimmed(s) == s
}

/// The whitespace around a message makes no difference to what it means.
pub proof fn law_outer_space_is_ignored(content: Seq<char>)
    ensures
        command_meaning(trimmed(content)) == command_meaning(content),
{
    law_trim_is_idempotent(content);
}

/// A blank message is no command.
pub proof fn law_blank_is_no_command(content: Seq<char>)
    requires
        trimmed(content).len() == 0,
    ensures
        command_meaning(content) is None,
{
}

/// Whatever a command names, it names by a text that is there: nothing is archived,
/// restored or asked without a target or a question having been given.
pub proof fn law_what_is_named_is_there(content: Seq<char>)
    ensures
        match command_meaning(content) {
            Some(CommandView::Status(Some(t))) => is_name(t),
            Some(CommandView::Workers(Some(t))) => is_name(t),
            Some(CommandView::Resume(Some(t))) => is_name(t),
            Some(CommandView::Archive(t)) => is_name(t),
            Some(CommandView::Restore(t)) => is_name(t),
            Some(CommandView::Ask { target, question }) => is_name(question) && (target matches Some(t)
                ==> is_name(t)),
            _ => true,
        },
{
    let input = trimmed(content);
    if input.len() > 0 && input[0] == '/' {
        let (first, rest) = cut_at_space(input.skip(1));
        if rest is Some {
            law_trim_is_idempotent(rest.unwrap());
            let args = trimmed(rest.unwrap());
            let (target, question) = cut_at_space(args);
            law_trim_is_idempotent(target);
            if question is Some {
                law_trim_is_idempotent(question.unwrap());
            }
        } else {
            let args = Seq::<char>::empty();
            assert(trimmed(args).len() == 0);
            assert(cut_at_space(args).1 is None);
        }
    } else if input.len() > 0 {
        let s = trimmed(trimmed_end_of(input, seq!['。', '？', '?']));
        assert forall|p: Seq<char>| is_trimmed(#[trigger] after(s, p)) by {
            law_trim_is_idempotent(s.skip(p.len() as int));
        }
        assert forall|p: Seq<char>| is_trimmed(#[trigger] before(s, p)) by {
            law_trim_is_idempotent(s.take(s.len() - p.len()));
        }
    }
}

spec fn is_trimmed(s: Seq<char>) -> bool {
    trimmed(s) == s
}

// ---------------------------------------------------------------------
// What messages mean
// ---------------------------------------------------------------------

/// A message that begins with a slash and a name, then whitespace, means the command of that
/// name, in whatever case of ASCII letters it is written, and what follows the whitespace,
/// trimmed, is what the command is about. Archiving and restoring want something to be
/// named.
pub proof fn law_slash_commands_mean_their_name(content: Seq<char>, word: Seq<char>, gap: char, rest: Seq<char>)
    requires
        word.len() > 0,
        forall|i: int| 0 <= i < word.len() ==> !is_space(#[trigger] word[i]),
        is_space(gap),
        content == seq!['/'] + word + seq![gap] + rest,
    ensures
        ascii_lowered(word) == "help"@ || ascii_lowered(word) == "帮助"@ ==> command_meaning(content) == Some(
            CommandView::Help,
        ),
        ascii_lowered(word) == "tasks"@ || ascii_lowered(word) == "任务"@ ==> command_meaning(content) == Some(
            CommandView::Tasks,
        ),
        (ascii_lowered(word) == "status"@ || ascii_lowered(word) == "状态"@) && trimmed(rest).len() > 0
            ==> command_meaning(content) == Some(CommandView::Status(Some(trimmed(rest)))),
        (ascii_lowered(word) == "status"@ || ascii_lowered(word) == "状态"@) && trimmed(rest).len() == 0
            ==> command_meaning(content) == Some(CommandView::Status(None)),
        (ascii_lowered(word) == "workers"@ || ascii_lowered(word) == "成员"@) && trimmed(rest).len() > 0
            ==> command_meaning(content) == Some(CommandView::Workers(Some(trimmed(rest)))),
        (ascii_lowered(word) == "workers"@ || ascii_lowered(word) == "成员"@) && trimmed(rest).len() == 0
            ==> command_meaning(content) == Some(CommandView::Workers(None)),
        (ascii_lowered(word) == "resume"@ || ascii_lowered(word) == "继续"@) && trimmed(rest).len() > 0
            ==> command_meaning(content) == Some(CommandView::Resume(Some(trimmed(rest)))),
        (ascii_lowered(word) == "resume"@ || ascii_lowered(word) == "继续"@) && trimmed(rest).len() == 0
            ==> command_meaning(content) == Some(CommandView::Resume(None)),
        (ascii_lowered(word) == "archive"@ || ascii_lowered(word) == "归档"@) && trimmed(rest).len() > 0
            ==> command_meaning(content) == Some(CommandView::Archive(trimmed(rest))),
        (ascii_lowered(word) == "restore"@ || ascii_lowered(word) == "恢复"@) && trimmed(rest).len() > 0
            ==> command_meaning(content) == Some(CommandView::Restore(trimmed(rest))),
        (ascii_lowered(word) == "archive"@ || ascii_lowered(word) == "归档"@ || ascii_lowered(word) == "restore"@
            || ascii_lowered(word) == "恢复"@) && trimmed(rest).len() == 0 ==> command_meaning(content) is None,
        ascii_lowered(word) == "ask"@ || ascii_lowered(word) == "问"@ ==> {
            ||| command_meaning(content) is None
            ||| command_meaning(content).unwrap() is Ask
        },
{
    lemma_slash(content, word, gap, rest);
    law_trim_is_idempotent(rest);
    lemma_names_differ();
}

/// A message that is a slash and a name alone means the command of that name without
/// anything that it is about, which archiving, restoring and asking do not do without.
pub proof fn law_bare_slash_commands_mean_their_name(content: Seq<char>, word: Seq<char>)
    requires
        word.len() > 0,
        forall|i: int| 0 <= i < word.len() ==> !is_space(#[trigger] word[i]),
        content == seq!['/'] + word,
    ensures
        ascii_lowered(word) == "help"@ || ascii_lowered(word) == "帮助"@ ==> command_meaning(content) == Some(
            CommandView::Help,
        ),
        ascii_lowered(word) == "tasks"@ || ascii_lowered(word) == "任务"@ ==> command_meaning(content) == Some(
            CommandView::Tasks,
        ),
        ascii_lowered(word) == "status"@ || ascii_lowered(word) == "状态"@ ==> command_meaning(content) == Some(
            CommandView::Status(None),
        ),
        ascii_lowered(word) == "workers"@ || ascii_lowered(word) == "成员"@ ==> command_meaning(content) == Some(
            CommandView::Workers(None),
        ),
        ascii_lowered(word) == "resume"@ || ascii_lowered(word) == "继续"@ ==> command_meaning(content) == Some(
            CommandView::Resume(None),
        ),
        ascii_lowered(word) == "archive"@ || ascii_lowered(word) == "归档"@ || ascii_lowered(word) == "restore"@
            || ascii_lowered(word) == "恢复"@ || ascii_lowered(word) == "ask"@ || ascii_lowered(word) == "问"@
            ==> command_meaning(content) is None,
{
    lemma_bare_slash(content, word);
    lemma_names_differ();
    let none = Seq::<char>::empty();
    assert(trimmed(none).len() == 0);
    assert(lead(none) == 0);
    assert(cut_at_space(none).1 is None);
}

/// A slash with a name that is none of a command's is no command, whatever follows.
pub proof fn law_unknown_slash_is_no_command(content: Seq<char>, word: Seq<char>, gap: char, rest: Seq<char>)
    requires
        word.len() > 0,
        forall|i: int| 0 <= i < word.len() ==> !is_space(#[trigger] word[i]),
        is_space(gap),
        content == seq!['/'] + word + seq![gap] + rest || content == seq!['/'] + word,
        ascii_lowered(word) != "help"@ && ascii_lowered(word) != "帮助"@,
        ascii_lowered(word) != "tasks"@ && ascii_lowered(word) != "任务"@,
        ascii_lowered(word) != "status"@ && ascii_lowered(word) != "状态"@,
        ascii_lowered(word) != "workers"@ && ascii_lowered(word) != "成员"@,
        ascii_lowered(word) != "resume"@ && ascii_lowered(word) != "继续"@,
        ascii_lowered(word) != "archive"@ && ascii_lowered(word) != "归档"@,
        ascii_lowered(word) != "restore"@ && ascii_lowered(word) != "恢复"@,
        ascii_lowered(word) != "ask"@ && ascii_lowered(word) != "问"@,
    ensures
        command_meaning(content) is None,
{
    if content == seq!['/'] + word {
        lemma_bare_slash(content, word);
    } else {
        lemma_slash(content, word, gap, rest);
    }
}

/// `/ask`, whom, and what: the question is all that follows the first word, trimmed. The
/// leader in general is asked by the word `leader`, in any case, or `领导`; any other word
/// names whom to ask. Without a question nothing is asked.
pub proof fn law_asking_names_whom_and_what(
    content: Seq<char>,
    word: Seq<char>,
    gap: char,
    target: Seq<char>,
    second_gap: char,
    question: Seq<char>,
)
    requires
        ascii_lowered(word) == "ask"@ || ascii_lowered(word) == "问"@,
        forall|i: int| 0 <= i < word.len() ==> !is_space(#[trigger] word[i]),
        is_space(gap),
        target.len() > 0,
        forall|i: int| 0 <= i < target.len() ==> !is_space(#[trigger] target[i]),
        is_space(second_gap),
        content == seq!['/'] + word + seq![gap] + (target + seq![second_gap] + question),
    ensures
        trimmed(question).len() > 0 && ascii_lowered(target) != "leader"@ && target != "领导"@ ==> command_meaning(content)
            == Some(CommandView::Ask { target: Some(target), question: trimmed(question) }),
        trimmed(question).len() > 0 && (ascii_lowered(target) == "leader"@ || target == "领导"@) ==> command_meaning(
            content,
        ) == Some(CommandView::Ask { target: None, question: trimmed(question) }),
        trimmed(question).len() == 0 ==> command_meaning(content) is None,
{
    let rest = target + seq![second_gap] + question;
    lemma_names_differ();
    assert(word.len() > 0) by {
        assert(ascii_lowered(word).len() == word.len());
    }
    lemma_slash(content, word, gap, rest);
    let tail = seq![second_gap] + question;
    assert(rest =~= target + tail);
    assert(rest[0] == target[0]);
    assert(trimmed_start(rest) == rest);
    assert(trimmed_start(target) == target);
    lemma_trimmed_of_trimmed_end(question);
    lemma_trimmed_end_of_sum(target + seq![second_gap], question);
    lemma_trimmed_end_of_sum(target, seq![second_gap]);
    let one = seq![second_gap];
    assert(one.drop_last() =~= Seq::empty());
    assert(trimmed_end(Seq::<char>::empty()) =~= Seq::empty());
    assert(trimmed_end(one) == trimmed_end(one.drop_last()));
    assert(!is_space(target[target.len() - 1]));
    assert(trimmed_end(target) == target);
    if trimmed(question).len() > 0 {
        law_cut_at_the_first_space(target, second_gap, trimmed_end(question));
    } else {
        law_cut_at_the_first_space(target, second_gap, question);
    }
    reveal_strlit("leader");
    assert(ascii_lowered("leader"@) =~= "leader"@);
}

/// What a message with a slash and a name comes to.
proof fn lemma_slash(content: Seq<char>, word: Seq<char>, gap: char, rest: Seq<char>)
    requires
        word.len() > 0,
        forall|i: int| 0 <= i < word.len() ==> !is_space(#[trigger] word[i]),
        is_space(gap),
        content == seq!['/'] + word + seq![gap] + rest,
    ensures
        command_meaning(content) == slash_meaning(word + seq![gap] + trimmed(rest)),
        cut_at_space(word + seq![gap] + trimmed(rest)) == (word, Some(trimmed(rest))),
        trimmed(trimmed(rest)) == trimmed(rest),
{
    let head = seq!['/'] + word + seq![gap];
    let name = seq!['/'] + word;
    assert(content =~= head + rest);
    assert(content[0] == '/');
    assert(!is_space('/'));
    assert(trimmed_start(content) == content);
    lemma_trimmed_of_trimmed_end(rest);
    lemma_trimmed_end_of_sum(head, rest);
    law_trim_is_idempotent(rest);
    law_cut_at_the_first_space(word, gap, trimmed(rest));
    let input = trimmed(content);
    if trimmed(rest).len() > 0 {
        let kept = trimmed_end(rest);
        assert(input =~= head + kept);
        assert(input.skip(1) =~= word + seq![gap] + kept);
        law_cut_at_the_first_space(word, gap, kept);
    } else {
        lemma_trimmed_end_of_sum(name, seq![gap]);
        let one = seq![gap];
        assert(one.drop_last() =~= Seq::empty());
        assert(trimmed_end(Seq::<char>::empty()) =~= Seq::empty());
        assert(trimmed_end(one) == trimmed_end(one.drop_last()));
        assert(name.last() == word[word.len() - 1]);
        assert(input =~= name);
        assert(input.skip(1) =~= word);
        assert(trimmed(rest) =~= Seq::empty());
    }
}

/// What a message comes to that is a slash and a name alone.
proof fn lemma_bare_slash(content: Seq<char>, word: Seq<char>)
    requires
        word.len() > 0,
        forall|i: int| 0 <= i < word.len() ==> !is_space(#[trigger] word[i]),
        content == seq!['/'] + word,
    ensures
        command_meaning(content) == slash_meaning(word),
        cut_at_space(word) == (word, None::<Seq<char>>),
{
    assert(content[0] == '/');
    assert(!is_space('/'));
    assert(content.last() == word[word.len() - 1]);
    assert(content.skip(1) =~= word);
    law_cut_at_the_first_space(word, ' ', Seq::empty());
}

/// No two commands go by one name.
proof fn lemma_names_differ()
    ensures
        "help"@ != "tasks"@,
        "help"@ != "任务"@,
        "帮助"@ != "tasks"@,
        "帮助"@ != "任务"@,
        "help"@ != "status"@,
        "help"@ != "状态"@,
        "帮助"@ != "status"@,
        "帮助"@ != "状态"@,
        "help"@ != "workers"@,
        "help"@ != "成员"@,
        "帮助"@ != "workers"@,
        "帮助"@ != "成员"@,
        "help"@ != "resume"@,
        "help"@ != "继续"@,
        "帮助"@ != "resume"@,
        "帮助"@ != "继续"@,
        "help"@ != "archive"@,
        "help"@ != "归档"@,
        "帮助"@ != "archive"@,
        "帮助"@ != "归档"@,
        "help"@ != "restore"@,
        "help"@ != "恢复"@,
        "帮助"@ != "restore"@,
        "帮助"@ != "恢复"@,
        "help"@ != "ask"@,
        "help"@ != "问"@,
        "帮助"@ != "ask"@,
        "帮助"@ != "问"@,
        "tasks"@ != "status"@,
        "tasks"@ != "状态"@,
        "任务"@ != "status"@,
        "任务"@ != "状态"@,
        "tasks"@ != "workers"@,
        "tasks"@ != "成员"@,
        "任务"@ != "workers"@,
        "任务"@ != "成员"@,
        "tasks"@ != "resume"@,
        "tasks"@ != "继续"@,
        "任务"@ != "resume"@,
        "任务"@ != "继续"@,
        "tasks"@ != "archive"@,
        "tasks"@ != "归档"@,
        "任务"@ != "archive"@,
        "任务"@ != "归档"@,
        "tasks"@ != "restore"@,
        "tasks"@ != "恢复"@,
        "任务"@ != "restore"@,
        "任务"@ != "恢复"@,
        "tasks"@ != "ask"@,
        "tasks"@ != "问"@,
        "任务"@ != "ask"@,
        "任务"@ != "问"@,
        "status"@ != "workers"@,
        "status"@ != "成员"@,
        "状态"@ != "workers"@,
        "状态"@ != "成员"@,
        "status"@ != "resume"@,
        "status"@ != "继续"@,
        "状态"@ != "resume"@,
        "状态"@ != "继续"@,
        "status"@ != "archive"@,
        "status"@ != "归档"@,
        "状态"@ != "archive"@,
        "状态"@ != "归档"@,
        "status"@ != "restore"@,
        "status"@ != "恢复"@,
        "状态"@ != "restore"@,
        "状态"@ != "恢复"@,
        "status"@ != "ask"@,
        "status"@ != "问"@,
        "状态"@ != "ask"@,
        "状态"@ != "问"@,
        "workers"@ != "resume"@,
        "workers"@ != "继续"@,
        "成员"@ != "resume"@,
        "成员"@ != "继续"@,
        "workers"@ != "archive"@,
        "workers"@ != "归档"@,
        "成员"@ != "archive"@,
        "成员"@ != "归档"@,
        "workers"@ != "restore"@,
        "workers"@ != "恢复"@,
        "成员"@ != "restore"@,
        "成员"@ != "恢复"@,
        "workers"@ != "ask"@,
        "workers"@ != "问"@,
        "成员"@ != "ask"@,
        "成员"@ != "问"@,
        "resume"@ != "archive"@,
        "resume"@ != "归档"@,
        "继续"@ != "archive"@,
        "继续"@ != "归档"@,
        "resume"@ != "restore"@,
        "resume"@ != "恢复"@,
        "继续"@ != "restore"@,
        "继续"@ != "恢复"@,
        "resume"@ != "ask"@,
        "resume"@ != "问"@,
        "继续"@ != "ask"@,
        "继续"@ != "问"@,
        "archive"@ != "restore"@,
        "archive"@ != "恢复"@,
        "归档"@ != "restore"@,
        "归档"@ != "恢复"@,
        "archive"@ != "ask"@,
        "archive"@ != "问"@,
        "归档"@ != "ask"@,
        "归档"@ != "问"@,
        "restore"@ != "ask"@,
        "restore"@ != "问"@,
        "恢复"@ != "ask"@,
        "恢复"@ != "问"@,
        "help"@.len() > 0,
        "帮助"@.len() > 0,
        "tasks"@.len() > 0,
        "任务"@.len() > 0,
        "status"@.len() > 0,
        "状态"@.len() > 0,
        "workers"@.len() > 0,
        "成员"@.len() > 0,
        "resume"@.len() > 0,
        "继续"@.len() > 0,
        "archive"@.len() > 0,
        "归档"@.len() > 0,
        "restore"@.len() > 0,
        "恢复"@.len() > 0,
        "ask"@.len() > 0,
        "问"@.len() > 0,
{
    reveal_strlit("help");
    reveal_strlit("帮助");
    assert("help"@.len() == 4 && "help"@[0] == 'h' && "help"@[2] == 'l');
    assert("帮助"@.len() == 2 && "帮助"@[0] == '帮');
    reveal_strlit("tasks");
    reveal_strlit("任务");
    assert("tasks"@.len() == 5 && "tasks"@[0] == 't' && "tasks"@[2] == 's');
    assert("任务"@.len() == 2 && "任务"@[0] == '任');
    reveal_strlit("status");
    reveal_strlit("状态");
    assert("status"@.len() == 6 && "status"@[0] == 's' && "status"@[2] == 'a');
    assert("状态"@.len() == 2 && "状态"@[0] == '状');
    reveal_strlit("workers");
    reveal_strlit("成员");
    assert("workers"@.len() == 7 && "workers"@[0] == 'w' && "workers"@[2] == 'r');
    assert("成员"@.len() == 2 && "成员"@[0] == '成');
    reveal_strlit("resume");
    reveal_strlit("继续");
    assert("resume"@.len() == 6 && "resume"@[0] == 'r' && "resume"@[2] == 's');
    assert("继续"@.len() == 2 && "继续"@[0] == '继');
    reveal_strlit("archive");
    reveal_strlit("归档");
    assert("archive"@.len() == 7 && "archive"@[0] == 'a' && "archive"@[2] == 'c');
    assert("归档"@.len() == 2 && "归档"@[0] == '归');
    reveal_strlit("restore");
    reveal_strlit("恢复");
    assert("restore"@.len() == 7 && "restore"@[0] == 'r' && "restore"@[2] == 's');
    assert("恢复"@.len() == 2 && "恢复"@[0] == '恢');
    reveal_strlit("ask");
    reveal_strlit("问");
    assert("ask"@.len() == 3 && "ask"@[0] == 'a' && "ask"@[2] == 'k');
    assert("问"@.len() == 1 && "问"@[0] == '问');
}

/// The phrases that ask for the tasks, for help and for the leader's state, with or without
/// a mark at their end.
pub proof fn law_phrases_ask_for_what_they_say(s: Seq<char>, marks: Seq<char>)
    requires
        s.len() > 0,
        s[0] != '/',
        !is_space(s[0]),
        !is_space(s.last()),
        s.last() != '。' && s.last() != '？' && s.last() != '?',
        forall|i: int| 0 <= i < marks.len() ==> #[trigger] marks[i] == '。' || marks[i] == '？' || marks[i] == '?',
    ensures
        s == "有哪些任务"@ || s == "任务列表"@ || s == "查看任务"@ || s == "当前任务"@ ==> command_meaning(s + marks) == Some(
            CommandView::Tasks,
        ),
        s == "帮助"@ || s == "有哪些指令"@ || s == "有什么指令"@ ==> command_meaning(s + marks) == Some(
            CommandView::Help,
        ),
        s == "leader现在在做什么"@ || s == "Leader现在在做什么"@ || s == "领导现在在做什么"@ ==> command_meaning(
            s + marks,
        ) == Some(CommandView::Status(None)),
{
    lemma_phrase(s, marks);
    reveal_strlit("有哪些任务");
    assert("有哪些任务"@.len() == 5 && "有哪些任务"@[0] == '有' && "有哪些任务"@[1] == '哪' && "有哪些任务"@[2] == '些' && "有哪些任务"@[3] == '任' && "有哪些任务"@[4] == '务');
    reveal_strlit("任务列表");
    assert("任务列表"@.len() == 4 && "任务列表"@[0] == '任' && "任务列表"@[1] == '务' && "任务列表"@[2] == '列' && "任务列表"@[3] == '表');
    reveal_strlit("查看任务");
    assert("查看任务"@.len() == 4 && "查看任务"@[0] == '查' && "查看任务"@[1] == '看' && "查看任务"@[2] == '任' && "查看任务"@[3] == '务');
    reveal_strlit("当前任务");
    assert("当前任务"@.len() == 4 && "当前任务"@[0] == '当' && "当前任务"@[1] == '前' && "当前任务"@[2] == '任' && "当前任务"@[3] == '务');
    reveal_strlit("帮助");
    assert("帮助"@.len() == 2 && "帮助"@[0] == '帮' && "帮助"@[1] == '助');
    reveal_strlit("有哪些指令");
    assert("有哪些指令"@.len() == 5 && "有哪些指令"@[0] == '有' && "有哪些指令"@[1] == '哪' && "有哪些指令"@[2] == '些' && "有哪些指令"@[3] == '指' && "有哪些指令"@[4] == '令');
    reveal_strlit("有什么指令");
    assert("有什么指令"@.len() == 5 && "有什么指令"@[0] == '有' && "有什么指令"@[1] == '什' && "有什么指令"@[2] == '么' && "有什么指令"@[3] == '指' && "有什么指令"@[4] == '令');
    reveal_strlit("leader现在在做什么");
    assert("leader现在在做什么"@.len() == 12 && "leader现在在做什么"@[0] == 'l' && "leader现在在做什么"@[1] == 'e' && "leader现在在做什么"@[2] == 'a' && "leader现在在做什么"@[3] == 'd' && "leader现在在做什么"@[4] == 'e' && "leader现在在做什么"@[5] == 'r' && "leader现在在做什么"@[6] == '现' && "leader现在在做什么"@[7] == '在' && "leader现在在做什么"@[8] == '在' && "leader现在在做什么"@[9] == '做' && "leader现在在做什么"@[10] == '什' && "leader现在在做什么"@[11] == '么');
    reveal_strlit("Leader现在在做什么");
    assert("Leader现在在做什么"@.len() == 12 && "Leader现在在做什么"@[0] == 'L' && "Leader现在在做什么"@[1] == 'e' && "Leader现在在做什么"@[2] == 'a' && "Leader现在在做什么"@[3] == 'd' && "Leader现在在做什么"@[4] == 'e' && "Leader现在在做什么"@[5] == 'r' && "Leader现在在做什么"@[6] == '现' && "Leader现在在做什么"@[7] == '在' && "Leader现在在做什么"@[8] == '在' && "Leader现在在做什么"@[9] == '做' && "Leader现在在做什么"@[10] == '什' && "Leader现在在做什么"@[11] == '么');
    reveal_strlit("领导现在在做什么");
    assert("领导现在在做什么"@.len() == 8 && "领导现在在做什么"@[0] == '领' && "领导现在在做什么"@[1] == '导' && "领导现在在做什么"@[2] == '现' && "领导现在在做什么"@[3] == '在' && "领导现在在做什么"@[4] == '在' && "领导现在在做什么"@[5] == '做' && "领导现在在做什么"@[6] == '什' && "领导现在在做什么"@[7] == '么');
}

/// A message that asks the leader something is a question to the leader in general.
pub proof fn law_phrases_ask_the_leader(s: Seq<char>, marks: Seq<char>, question: Seq<char>)
    requires
        s.len() > 0,
        s[0] != '/',
        !is_space(s[0]),
        !is_space(s.last()),
        s.last() != '。' && s.last() != '？' && s.last() != '?',
        forall|i: int| 0 <= i < marks.len() ==> #[trigger] marks[i] == '。' || marks[i] == '？' || marks[i] == '?',
        trimmed(question).len() > 0,
        s == "问下leader"@ + question || s == "问一下leader"@ + question || s == "问下 Leader"@ + question || s
            == "问一下 Leader"@ + question,
    ensures
        command_meaning(s + marks) == Some(CommandView::Ask { target: None, question: trimmed(question) }),
{
    lemma_phrase(s, marks);
    reveal_strlit("有哪些任务");
    assert("有哪些任务"@.len() == 5 && "有哪些任务"@[0] == '有' && "有哪些任务"@[1] == '哪' && "有哪些任务"@[2] == '些' && "有哪些任务"@[3] == '任' && "有哪些任务"@[4] == '务');
    reveal_strlit("任务列表");
    assert("任务列表"@.len() == 4 && "任务列表"@[0] == '任' && "任务列表"@[1] == '务' && "任务列表"@[2] == '列' && "任务列表"@[3] == '表');
    reveal_strlit("查看任务");
    assert("查看任务"@.len() == 4 && "查看任务"@[0] == '查' && "查看任务"@[1] == '看' && "查看任务"@[2] == '任' && "查看任务"@[3] == '务');
    reveal_strlit("当前任务");
    assert("当前任务"@.len() == 4 && "当前任务"@[0] == '当' && "当前任务"@[1] == '前' && "当前任务"@[2] == '任' && "当前任务"@[3] == '务');
    reveal_strlit("帮助");
    assert("帮助"@.len() == 2 && "帮助"@[0] == '帮' && "帮助"@[1] == '助');
    reveal_strlit("有哪些指令");
    assert("有哪些指令"@.len() == 5 && "有哪些指令"@[0] == '有' && "有哪些指令"@[1] == '哪' && "有哪些指令"@[2] == '些' && "有哪些指令"@[3] == '指' && "有哪些指令"@[4] == '令');
    reveal_strlit("有什么指令");
    assert("有什么指令"@.len() == 5 && "有什么指令"@[0] == '有' && "有什么指令"@[1] == '什' && "有什么指令"@[2] == '么' && "有什么指令"@[3] == '指' && "有什么指令"@[4] == '令');
    reveal_strlit("leader现在在做什么");
    assert("leader现在在做什么"@.len() == 12 && "leader现在在做什么"@[0] == 'l' && "leader现在在做什么"@[1] == 'e' && "leader现在在做什么"@[2] == 'a' && "leader现在在做什么"@[3] == 'd' && "leader现在在做什么"@[4] == 'e' && "leader现在在做什么"@[5] == 'r' && "leader现在在做什么"@[6] == '现' && "leader现在在做什么"@[7] == '在' && "leader现在在做什么"@[8] == '在' && "leader现在在做什么"@[9] == '做' && "leader现在在做什么"@[10] == '什' && "leader现在在做什么"@[11] == '么');
    reveal_strlit("Leader现在在做什么");
    assert("Leader现在在做什么"@.len() == 12 && "Leader现在在做什么"@[0] == 'L' && "Leader现在在做什么"@[1] == 'e' && "Leader现在在做什么"@[2] == 'a' && "Leader现在在做什么"@[3] == 'd' && "Leader现在在做什么"@[4] == 'e' && "Leader现在在做什么"@[5] == 'r' && "Leader现在在做什么"@[6] == '现' && "Leader现在在做什么"@[7] == '在' && "Leader现在在做什么"@[8] == '在' && "Leader现在在做什么"@[9] == '做' && "Leader现在在做什么"@[10] == '什' && "Leader现在在做什么"@[11] == '么');
    reveal_strlit("领导现在在做什么");
    assert("领导现在在做什么"@.len() == 8 && "领导现在在做什么"@[0] == '领' && "领导现在在做什么"@[1] == '导' && "领导现在在做什么"@[2] == '现' && "领导现在在做什么"@[3] == '在' && "领导现在在做什么"@[4] == '在' && "领导现在在做什么"@[5] == '做' && "领导现在在做什么"@[6] == '什' && "领导现在在做什么"@[7] == '么');
    reveal_strlit("问下leader");
    assert("问下leader"@.len() == 8 && "问下leader"@[0] == '问' && "问下leader"@[1] == '下' && "问下leader"@[2] == 'l' && "问下leader"@[3] == 'e' && "问下leader"@[4] == 'a' && "问下leader"@[5] == 'd' && "问下leader"@[6] == 'e' && "问下leader"@[7] == 'r');
    reveal_strlit("问一下leader");
    assert("问一下leader"@.len() == 9 && "问一下leader"@[0] == '问' && "问一下leader"@[1] == '一' && "问一下leader"@[2] == '下' && "问一下leader"@[3] == 'l' && "问一下leader"@[4] == 'e' && "问一下leader"@[5] == 'a' && "问一下leader"@[6] == 'd' && "问一下leader"@[7] == 'e' && "问一下leader"@[8] == 'r');
    reveal_strlit("问下 Leader");
    assert("问下 Leader"@.len() == 9 && "问下 Leader"@[0] == '问' && "问下 Leader"@[1] == '下' && "问下 Leader"@[2] == ' ' && "问下 Leader"@[3] == 'L' && "问下 Leader"@[4] == 'e' && "问下 Leader"@[5] == 'a' && "问下 Leader"@[6] == 'd' && "问下 Leader"@[7] == 'e' && "问下 Leader"@[8] == 'r');
    reveal_strlit("问一下 Leader");
    assert("问一下 Leader"@.len() == 10 && "问一下 Leader"@[0] == '问' && "问一下 Leader"@[1] == '一' && "问一下 Leader"@[2] == '下' && "问一下 Leader"@[3] == ' ' && "问一下 Leader"@[4] == 'L' && "问一下 Leader"@[5] == 'e' && "问一下 Leader"@[6] == 'a' && "问一下 Leader"@[7] == 'd' && "问一下 Leader"@[8] == 'e' && "问一下 Leader"@[9] == 'r');
    if s == "问下leader"@ + question {
        lemma_led_by(s, "问下leader"@, question);
    }
    if s == "问一下leader"@ + question {
        lemma_led_by(s, "问一下leader"@, question);
    }
    if s == "问下 Leader"@ + question {
        lemma_led_by(s, "问下 Leader"@, question);
    }
    if s == "问一下 Leader"@ + question {
        lemma_led_by(s, "问一下 Leader"@, question);
    }
    lemma_prefix_chars(s, "问下leader"@);
    lemma_prefix_chars(s, "问一下leader"@);
    lemma_prefix_chars(s, "问下 Leader"@);
    lemma_prefix_chars(s, "问一下 Leader"@);
}

/// A phrase that ends in asking what something does, how it stands or who its members are
/// asks that of what comes before.
pub proof fn law_phrases_ask_about_a_task(s: Seq<char>, marks: Seq<char>, target: Seq<char>)
    requires
        s.len() > 0,
        s[0] != '/',
        !is_space(s[0]),
        !is_space(s.last()),
        s.last() != '。' && s.last() != '？' && s.last() != '?',
        forall|i: int| 0 <= i < marks.len() ==> #[trigger] marks[i] == '。' || marks[i] == '？' || marks[i] == '?',
        s[0] != '问',
        trimmed(target).len() > 0,
        target != "leader"@ && target != "Leader"@ && target != "领导"@,
    ensures
        s == target + "现在在做什么"@ || s == target + "的状态"@ ==> command_meaning(s + marks) == Some(
            CommandView::Status(Some(trimmed(target))),
        ),
        s == target + "有哪些成员"@ || s == target + "的成员"@ || s == target + "的worker"@ || s == target
            + "的 Worker"@ ==> command_meaning(s + marks) == Some(CommandView::Workers(Some(trimmed(target)))),
{
    lemma_phrase(s, marks);
    reveal_strlit("有哪些任务");
    assert("有哪些任务"@.len() == 5 && "有哪些任务"@[0] == '有' && "有哪些任务"@[1] == '哪' && "有哪些任务"@[2] == '些' && "有哪些任务"@[3] == '任' && "有哪些任务"@[4] == '务');
    reveal_strlit("任务列表");
    assert("任务列表"@.len() == 4 && "任务列表"@[0] == '任' && "任务列表"@[1] == '务' && "任务列表"@[2] == '列' && "任务列表"@[3] == '表');
    reveal_strlit("查看任务");
    assert("查看任务"@.len() == 4 && "查看任务"@[0] == '查' && "查看任务"@[1] == '看' && "查看任务"@[2] == '任' && "查看任务"@[3] == '务');
    reveal_strlit("当前任务");
    assert("当前任务"@.len() == 4 && "当前任务"@[0] == '当' && "当前任务"@[1] == '前' && "当前任务"@[2] == '任' && "当前任务"@[3] == '务');
    reveal_strlit("帮助");
    assert("帮助"@.len() == 2 && "帮助"@[0] == '帮' && "帮助"@[1] == '助');
    reveal_strlit("有哪些指令");
    assert("有哪些指令"@.len() == 5 && "有哪些指令"@[0] == '有' && "有哪些指令"@[1] == '哪' && "有哪些指令"@[2] == '些' && "有哪些指令"@[3] == '指' && "有哪些指令"@[4] == '令');
    reveal_strlit("有什么指令");
    assert("有什么指令"@.len() == 5 && "有什么指令"@[0] == '有' && "有什么指令"@[1] == '什' && "有什么指令"@[2] == '么' && "有什么指令"@[3] == '指' && "有什么指令"@[4] == '令');
    reveal_strlit("leader现在在做什么");
    assert("leader现在在做什么"@.len() == 12 && "leader现在在做什么"@[0] == 'l' && "leader现在在做什么"@[1] == 'e' && "leader现在在做什么"@[2] == 'a' && "leader现在在做什么"@[3] == 'd' && "leader现在在做什么"@[4] == 'e' && "leader现在在做什么"@[5] == 'r' && "leader现在在做什么"@[6] == '现' && "leader现在在做什么"@[7] == '在' && "leader现在在做什么"@[8] == '在' && "leader现在在做什么"@[9] == '做' && "leader现在在做什么"@[10] == '什' && "leader现在在做什么"@[11] == '么');
    reveal_strlit("Leader现在在做什么");
    assert("Leader现在在做什么"@.len() == 12 && "Leader现在在做什么"@[0] == 'L' && "Leader现在在做什么"@[1] == 'e' && "Leader现在在做什么"@[2] == 'a' && "Leader现在在做什么"@[3] == 'd' && "Leader现在在做什么"@[4] == 'e' && "Leader现在在做什么"@[5] == 'r' && "Leader现在在做什么"@[6] == '现' && "Leader现在在做什么"@[7] == '在' && "Leader现在在做什么"@[8] == '在' && "Leader现在在做什么"@[9] == '做' && "Leader现在在做什么"@[10] == '什' && "Leader现在在做什么"@[11] == '么');
    reveal_strlit("领导现在在做什么");
    assert("领导现在在做什么"@.len() == 8 && "领导现在在做什么"@[0] == '领' && "领导现在在做什么"@[1] == '导' && "领导现在在做什么"@[2] == '现' && "领导现在在做什么"@[3] == '在' && "领导现在在做什么"@[4] == '在' && "领导现在在做什么"@[5] == '做' && "领导现在在做什么"@[6] == '什' && "领导现在在做什么"@[7] == '么');
    reveal_strlit("问下leader");
    assert("问下leader"@.len() == 8 && "问下leader"@[0] == '问' && "问下leader"@[1] == '下' && "问下leader"@[2] == 'l' && "问下leader"@[3] == 'e' && "问下leader"@[4] == 'a' && "问下leader"@[5] == 'd' && "问下leader"@[6] == 'e' && "问下leader"@[7] == 'r');
    reveal_strlit("问一下leader");
    assert("问一下leader"@.len() == 9 && "问一下leader"@[0] == '问' && "问一下leader"@[1] == '一' && "问一下leader"@[2] == '下' && "问一下leader"@[3] == 'l' && "问一下leader"@[4] == 'e' && "问一下leader"@[5] == 'a' && "问一下leader"@[6] == 'd' && "问一下leader"@[7] == 'e' && "问一下leader"@[8] == 'r');
    reveal_strlit("问下 Leader");
    assert("问下 Leader"@.len() == 9 && "问下 Leader"@[0] == '问' && "问下 Leader"@[1] == '下' && "问下 Leader"@[2] == ' ' && "问下 Leader"@[3] == 'L' && "问下 Leader"@[4] == 'e' && "问下 Leader"@[5] == 'a' && "问下 Leader"@[6] == 'd' && "问下 Leader"@[7] == 'e' && "问下 Leader"@[8] == 'r');
    reveal_strlit("问一下 Leader");
    assert("问一下 Leader"@.len() == 10 && "问一下 Leader"@[0] == '问' && "问一下 Leader"@[1] == '一' && "问一下 Leader"@[2] == '下' && "问一下 Leader"@[3] == ' ' && "问一下 Leader"@[4] == 'L' && "问一下 Leader"@[5] == 'e' && "问一下 Leader"@[6] == 'a' && "问一下 Leader"@[7] == 'd' && "问一下 Leader"@[8] == 'e' && "问一下 Leader"@[9] == 'r');
    reveal_strlit("现在在做什么");
    assert("现在在做什么"@.len() == 6 && "现在在做什么"@[0] == '现' && "现在在做什么"@[1] == '在' && "现在在做什么"@[2] == '在' && "现在在做什么"@[3] == '做' && "现在在做什么"@[4] == '什' && "现在在做什么"@[5] == '么');
    reveal_strlit("的状态");
    assert("的状态"@.len() == 3 && "的状态"@[0] == '的' && "的状态"@[1] == '状' && "的状态"@[2] == '态');
    reveal_strlit("有哪些成员");
    assert("有哪些成员"@.len() == 5 && "有哪些成员"@[0] == '有' && "有哪些成员"@[1] == '哪' && "有哪些成员"@[2] == '些' && "有哪些成员"@[3] == '成' && "有哪些成员"@[4] == '员');
    reveal_strlit("的成员");
    assert("的成员"@.len() == 3 && "的成员"@[0] == '的' && "的成员"@[1] == '成' && "的成员"@[2] == '员');
    reveal_strlit("的worker");
    assert("的worker"@.len() == 7 && "的worker"@[0] == '的' && "的worker"@[1] == 'w' && "的worker"@[2] == 'o' && "的worker"@[3] == 'r' && "的worker"@[4] == 'k' && "的worker"@[5] == 'e' && "的worker"@[6] == 'r');
    reveal_strlit("的 Worker");
    assert("的 Worker"@.len() == 8 && "的 Worker"@[0] == '的' && "的 Worker"@[1] == ' ' && "的 Worker"@[2] == 'W' && "的 Worker"@[3] == 'o' && "的 Worker"@[4] == 'r' && "的 Worker"@[5] == 'k' && "的 Worker"@[6] == 'e' && "的 Worker"@[7] == 'r');
    reveal_strlit("leader");
    assert("leader"@.len() == 6 && "leader"@[0] == 'l' && "leader"@[1] == 'e' && "leader"@[2] == 'a' && "leader"@[3] == 'd' && "leader"@[4] == 'e' && "leader"@[5] == 'r');
    reveal_strlit("Leader");
    assert("Leader"@.len() == 6 && "Leader"@[0] == 'L' && "Leader"@[1] == 'e' && "Leader"@[2] == 'a' && "Leader"@[3] == 'd' && "Leader"@[4] == 'e' && "Leader"@[5] == 'r');
    reveal_strlit("领导");
    assert("领导"@.len() == 2 && "领导"@[0] == '领' && "领导"@[1] == '导');
    lemma_prefix_chars(s, "问下leader"@);
    lemma_prefix_chars(s, "问一下leader"@);
    lemma_prefix_chars(s, "问下 Leader"@);
    lemma_prefix_chars(s, "问一下 Leader"@);
    lemma_suffix_chars(s, "现在在做什么"@);
    lemma_suffix_chars(s, "的状态"@);
    lemma_suffix_chars(s, "有哪些成员"@);
    lemma_suffix_chars(s, "的成员"@);
    lemma_suffix_chars(s, "的worker"@);
    lemma_suffix_chars(s, "的 Worker"@);
    if s == target + "现在在做什么"@ {
        lemma_closed_by(s, target, "现在在做什么"@);
        lemma_ending(s, target, "现在在做什么"@);
    }
    if s == target + "的状态"@ {
        lemma_closed_by(s, target, "的状态"@);
        lemma_ending(s, target, "的状态"@);
    }
    if s == target + "有哪些成员"@ {
        lemma_closed_by(s, target, "有哪些成员"@);
        lemma_ending(s, target, "有哪些成员"@);
    }
    if s == target + "的成员"@ {
        lemma_closed_by(s, target, "的成员"@);
        lemma_ending(s, target, "的成员"@);
    }
    if s == target + "的worker"@ {
        lemma_closed_by(s, target, "的worker"@);
        lemma_ending(s, target, "的worker"@);
    }
    if s == target + "的 Worker"@ {
        lemma_closed_by(s, target, "的 Worker"@);
        lemma_ending(s, target, "的 Worker"@);
    }
    if s == "leader现在在做什么"@ && s == target + "现在在做什么"@ {
        assert(target =~= "leader"@);
    }
    if s == "Leader现在在做什么"@ && s == target + "现在在做什么"@ {
        assert(target =~= "Leader"@);
    }
    if s == "领导现在在做什么"@ && s == target + "现在在做什么"@ {
        assert(target =~= "领导"@);
    }
}

/// A phrase that begins with an order to go on with, to archive or to restore something,
/// and that asks nothing, is that order, about what follows.
pub proof fn law_phrases_order_what_they_say(s: Seq<char>, marks: Seq<char>, target: Seq<char>)
    requires
        s.len() > 0,
        s[0] != '/',
        !is_space(s[0]),
        !is_space(s.last()),
        s.last() != '。' && s.last() != '？' && s.last() != '?',
        forall|i: int| 0 <= i < marks.len() ==> #[trigger] marks[i] == '。' || marks[i] == '？' || marks[i] == '?',
        !has_suffix(s, "现在在做什么"@),
        !has_suffix(s, "的状态"@),
        !has_suffix(s, "有哪些成员"@),
        !has_suffix(s, "的成员"@),
        !has_suffix(s, "的worker"@),
        !has_suffix(s, "的 Worker"@),
        trimmed(target).len() > 0,
    ensures
        s == "继续任务"@ + target ==> command_meaning(s + marks) == Some(CommandView::Resume(Some(trimmed(target)))),
        s == "继续"@ + target && !has_prefix(target, "任务"@) ==> command_meaning(s + marks) == Some(
            CommandView::Resume(Some(trimmed(target))),
        ),
        s == "归档任务"@ + target ==> command_meaning(s + marks) == Some(CommandView::Archive(trimmed(target))),
        s == "归档"@ + target && !has_prefix(target, "任务"@) ==> command_meaning(s + marks) == Some(
            CommandView::Archive(trimmed(target)),
        ),
        s == "恢复归档任务"@ + target ==> command_meaning(s + marks) == Some(CommandView::Restore(trimmed(target))),
        s == "恢复任务"@ + target ==> command_meaning(s + marks) == Some(CommandView::Restore(trimmed(target))),
        s == "取消归档"@ + target ==> command_meaning(s + marks) == Some(CommandView::Restore(trimmed(target))),
{
    lemma_phrase(s, marks);
    reveal_strlit("有哪些任务");
    assert("有哪些任务"@.len() == 5 && "有哪些任务"@[0] == '有' && "有哪些任务"@[1] == '哪' && "有哪些任务"@[2] == '些' && "有哪些任务"@[3] == '任' && "有哪些任务"@[4] == '务');
    reveal_strlit("任务列表");
    assert("任务列表"@.len() == 4 && "任务列表"@[0] == '任' && "任务列表"@[1] == '务' && "任务列表"@[2] == '列' && "任务列表"@[3] == '表');
    reveal_strlit("查看任务");
    assert("查看任务"@.len() == 4 && "查看任务"@[0] == '查' && "查看任务"@[1] == '看' && "查看任务"@[2] == '任' && "查看任务"@[3] == '务');
    reveal_strlit("当前任务");
    assert("当前任务"@.len() == 4 && "当前任务"@[0] == '当' && "当前任务"@[1] == '前' && "当前任务"@[2] == '任' && "当前任务"@[3] == '务');
    reveal_strlit("帮助");
    assert("帮助"@.len() == 2 && "帮助"@[0] == '帮' && "帮助"@[1] == '助');
    reveal_strlit("有哪些指令");
    assert("有哪些指令"@.len() == 5 && "有哪些指令"@[0] == '有' && "有哪些指令"@[1] == '哪' && "有哪些指令"@[2] == '些' && "有哪些指令"@[3] == '指' && "有哪些指令"@[4] == '令');
    reveal_strlit("有什么指令");
    assert("有什么指令"@.len() == 5 && "有什么指令"@[0] == '有' && "有什么指令"@[1] == '什' && "有什么指令"@[2] == '么' && "有什么指令"@[3] == '指' && "有什么指令"@[4] == '令');
    reveal_strlit("leader现在在做什么");
    assert("leader现在在做什么"@.len() == 12 && "leader现在在做什么"@[0] == 'l' && "leader现在在做什么"@[1] == 'e' && "leader现在在做什么"@[2] == 'a' && "leader现在在做什么"@[3] == 'd' && "leader现在在做什么"@[4] == 'e' && "leader现在在做什么"@[5] == 'r' && "leader现在在做什么"@[6] == '现' && "leader现在在做什么"@[7] == '在' && "leader现在在做什么"@[8] == '在' && "leader现在在做什么"@[9] == '做' && "leader现在在做什么"@[10] == '什' && "leader现在在做什么"@[11] == '么');
    reveal_strlit("Leader现在在做什么");
    assert("Leader现在在做什么"@.len() == 12 && "Leader现在在做什么"@[0] == 'L' && "Leader现在在做什么"@[1] == 'e' && "Leader现在在做什么"@[2] == 'a' && "Leader现在在做什么"@[3] == 'd' && "Leader现在在做什么"@[4] == 'e' && "Leader现在在做什么"@[5] == 'r' && "Leader现在在做什么"@[6] == '现' && "Leader现在在做什么"@[7] == '在' && "Leader现在在做什么"@[8] == '在' && "Leader现在在做什么"@[9] == '做' && "Leader现在在做什么"@[10] == '什' && "Leader现在在做什么"@[11] == '么');
    reveal_strlit("领导现在在做什么");
    assert("领导现在在做什么"@.len() == 8 && "领导现在在做什么"@[0] == '领' && "领导现在在做什么"@[1] == '导' && "领导现在在做什么"@[2] == '现' && "领导现在在做什么"@[3] == '在' && "领导现在在做什么"@[4] == '在' && "领导现在在做什么"@[5] == '做' && "领导现在在做什么"@[6] == '什' && "领导现在在做什么"@[7] == '么');
    reveal_strlit("问下leader");
    assert("问下leader"@.len() == 8 && "问下leader"@[0] == '问' && "问下leader"@[1] == '下' && "问下leader"@[2] == 'l' && "问下leader"@[3] == 'e' && "问下leader"@[4] == 'a' && "问下leader"@[5] == 'd' && "问下leader"@[6] == 'e' && "问下leader"@[7] == 'r');
    reveal_strlit("问一下leader");
    assert("问一下leader"@.len() == 9 && "问一下leader"@[0] == '问' && "问一下leader"@[1] == '一' && "问一下leader"@[2] == '下' && "问一下leader"@[3] == 'l' && "问一下leader"@[4] == 'e' && "问一下leader"@[5] == 'a' && "问一下leader"@[6] == 'd' && "问一下leader"@[7] == 'e' && "问一下leader"@[8] == 'r');
    reveal_strlit("问下 Leader");
    assert("问下 Leader"@.len() == 9 && "问下 Leader"@[0] == '问' && "问下 Leader"@[1] == '下' && "问下 Leader"@[2] == ' ' && "问下 Leader"@[3] == 'L' && "问下 Leader"@[4] == 'e' && "问下 Leader"@[5] == 'a' && "问下 Leader"@[6] == 'd' && "问下 Leader"@[7] == 'e' && "问下 Leader"@[8] == 'r');
    reveal_strlit("问一下 Leader");
    assert("问一下 Leader"@.len() == 10 && "问一下 Leader"@[0] == '问' && "问一下 Leader"@[1] == '一' && "问一下 Leader"@[2] == '下' && "问一下 Leader"@[3] == ' ' && "问一下 Leader"@[4] == 'L' && "问一下 Leader"@[5] == 'e' && "问一下 Leader"@[6] == 'a' && "问一下 Leader"@[7] == 'd' && "问一下 Leader"@[8] == 'e' && "问一下 Leader"@[9] == 'r');
    reveal_strlit("继续任务");
    assert("继续任务"@.len() == 4 && "继续任务"@[0] == '继' && "继续任务"@[1] == '续' && "继续任务"@[2] == '任' && "继续任务"@[3] == '务');
    reveal_strlit("继续");
    assert("继续"@.len() == 2 && "继续"@[0] == '继' && "继续"@[1] == '续');
    reveal_strlit("归档任务");
    assert("归档任务"@.len() == 4 && "归档任务"@[0] == '归' && "归档任务"@[1] == '档' && "归档任务"@[2] == '任' && "归档任务"@[3] == '务');
    reveal_strlit("归档");
    assert("归档"@.len() == 2 && "归档"@[0] == '归' && "归档"@[1] == '档');
    reveal_strlit("恢复归档任务");
    assert("恢复归档任务"@.len() == 6 && "恢复归档任务"@[0] == '恢' && "恢复归档任务"@[1] == '复' && "恢复归档任务"@[2] == '归' && "恢复归档任务"@[3] == '档' && "恢复归档任务"@[4] == '任' && "恢复归档任务"@[5] == '务');
    reveal_strlit("恢复任务");
    assert("恢复任务"@.len() == 4 && "恢复任务"@[0] == '恢' && "恢复任务"@[1] == '复' && "恢复任务"@[2] == '任' && "恢复任务"@[3] == '务');
    reveal_strlit("取消归档");
    assert("取消归档"@.len() == 4 && "取消归档"@[0] == '取' && "取消归档"@[1] == '消' && "取消归档"@[2] == '归' && "取消归档"@[3] == '档');
    reveal_strlit("任务");
    assert("任务"@.len() == 2 && "任务"@[0] == '任' && "任务"@[1] == '务');
    lemma_prefix_chars(s, "问下leader"@);
    lemma_prefix_chars(s, "问一下leader"@);
    lemma_prefix_chars(s, "问下 Leader"@);
    lemma_prefix_chars(s, "问一下 Leader"@);
    lemma_prefix_chars(s, "继续任务"@);
    lemma_prefix_chars(s, "继续"@);
    lemma_prefix_chars(s, "归档任务"@);
    lemma_prefix_chars(s, "归档"@);
    lemma_prefix_chars(s, "恢复归档任务"@);
    lemma_prefix_chars(s, "恢复任务"@);
    lemma_prefix_chars(s, "取消归档"@);
    if s == "继续任务"@ + target {
        lemma_led_by(s, "继续任务"@, target);
        lemma_beginning(s, "继续任务"@, target);
    }
    if s == "继续"@ + target {
        lemma_led_by(s, "继续"@, target);
        lemma_beginning(s, "继续"@, target);
    }
    if s == "归档任务"@ + target {
        lemma_led_by(s, "归档任务"@, target);
        lemma_beginning(s, "归档任务"@, target);
    }
    if s == "归档"@ + target {
        lemma_led_by(s, "归档"@, target);
        lemma_beginning(s, "归档"@, target);
    }
    if s == "恢复归档任务"@ + target {
        lemma_led_by(s, "恢复归档任务"@, target);
        lemma_beginning(s, "恢复归档任务"@, target);
    }
    if s == "恢复任务"@ + target {
        lemma_led_by(s, "恢复任务"@, target);
        lemma_beginning(s, "恢复任务"@, target);
    }
    if s == "取消归档"@ + target {
        lemma_led_by(s, "取消归档"@, target);
        lemma_beginning(s, "取消归档"@, target);
    }
    if s == "继续"@ + target && has_prefix(s, "继续任务"@) {
        assert(target.take(2) =~= "任务"@) by {
            assert(target[0] == s[2]);
            assert(target[1] == s[3]);
        }
    }
    if s == "归档"@ + target && has_prefix(s, "归档任务"@) {
        assert(target.take(2) =~= "任务"@) by {
            assert(target[0] == s[2]);
            assert(target[1] == s[3]);
        }
    }
}

/// A message in plain words means what it says without the marks at its end.
proof fn lemma_phrase(s: Seq<char>, marks: Seq<char>)
    requires
        s.len() > 0,
        s[0] != '/',
        !is_space(s[0]),
        !is_space(s.last()),
        s.last() != '。' && s.last() != '？' && s.last() != '?',
        forall|i: int| 0 <= i < marks.len() ==> #[trigger] marks[i] == '。' || marks[i] == '？' || marks[i] == '?',
    ensures
        command_meaning(s + marks) == phrase_meaning(s),
{
    let all = s + marks;
    assert(all[0] == s[0]);
    assert(!is_space('。') && !is_space('？') && !is_space('?'));
    assert(!is_space(all.last())) by {
        if marks.len() > 0 {
            assert(all.last() == marks[marks.len() - 1]);
        } else {
            assert(all =~= s);
        }
    }
    assert(trimmed(all) == all);
    lemma_marks_taken_off(s, marks);
    assert(trimmed(s) == s);
}

proof fn lemma_marks_taken_off(s: Seq<char>, marks: Seq<char>)
    requires
        s.len() > 0,
        s.last() != '。' && s.last() != '？' && s.last() != '?',
        forall|i: int| 0 <= i < marks.len() ==> #[trigger] marks[i] == '。' || marks[i] == '？' || marks[i] == '?',
    ensures
        trimmed_end_of(s + marks, seq!['。', '？', '?']) == s,
    decreases marks.len(),
{
    let set = seq!['。', '？', '?'];
    if marks.len() == 0 {
        assert(s + marks =~= s);
        assert(!set.contains(s.last()));
    } else {
        assert(set[0] == '。' && set[1] == '？' && set[2] == '?');
        assert((s + marks).last() == marks[marks.len() - 1]);
        assert(set.contains((s + marks).last()));
        assert((s + marks).drop_last() =~= s + marks.drop_last());
        lemma_marks_taken_off(s, marks.drop_last());
    }
}

proof fn lemma_prefix_chars(s: Seq<char>, p: Seq<char>)
    ensures
        has_prefix(s, p) ==> forall|i: int| 0 <= i < p.len() ==> #[trigger] s[i] == p[i],
{
    if has_prefix(s, p) {
        assert forall|i: int| 0 <= i < p.len() implies #[trigger] s[i] == p[i] by {
            assert(s.take(p.len() as int)[i] == s[i]);
        }
    }
}

proof fn lemma_suffix_chars(s: Seq<char>, p: Seq<char>)
    ensures
        has_suffix(s, p) ==> forall|i: int| 0 <= i < p.len() ==> s[s.len() - p.len() + i] == #[trigger] p[i],
{
    if has_suffix(s, p) {
        assert forall|i: int| 0 <= i < p.len() implies s[s.len() - p.len() + i] == #[trigger] p[i] by {
            assert(s.skip(s.len() - p.len())[i] == s[s.len() - p.len() + i]);
        }
    }
}

proof fn lemma_led_by(s: Seq<char>, p: Seq<char>, rest: Seq<char>)
    requires
        s == p + rest,
        trimmed(rest).len() > 0,
    ensures
        led_by(s, p),
        after(s, p) == trimmed(rest),
{
    assert(s.take(p.len() as int) =~= p);
    assert(s.skip(p.len() as int) =~= rest);
}

proof fn lemma_closed_by(s: Seq<char>, rest: Seq<char>, p: Seq<char>)
    requires
        s == rest + p,
        trimmed(rest).len() > 0,
    ensures
        closed_by(s, p),
        before(s, p) == trimmed(rest),
{
    assert(s.skip(s.len() - p.len()) =~= p);
    assert(s.take(s.len() - p.len()) =~= rest);
}

proof fn lemma_beginning(s: Seq<char>, p: Seq<char>, rest: Seq<char>)
    requires
        s == p + rest,
    ensures
        forall|i: int| 0 <= i < p.len() ==> #[trigger] s[i] == p[i],
{
}

proof fn lemma_ending(s: Seq<char>, rest: Seq<char>, p: Seq<char>)
    requires
        s == rest + p,
    ensures
        forall|i: int| 0 <= i < p.len() ==> s[s.len() - p.len() + i] == #[trigger] p[i],
{
}

/// A command goes by the name with which it is ordered: a slash, a word without capitals and
/// whitespace order a command only if the word, or its Chinese counterpart, is the name that
/// the command goes by.
pub proof fn law_a_command_goes_by_its_name(content: Seq<char>, word: Seq<char>, gap: char, rest: Seq<char>)
    requires
        word.len() > 0,
        forall|i: int| 0 <= i < word.len() ==> !is_space(#[trigger] word[i]),
        is_space(gap),
        content == seq!['/'] + word + seq![gap] + rest,
        command_meaning(content) is Some,
        ascii_lowered(word) == "help"@ || ascii_lowered(word) == "tasks"@ || ascii_lowered(word) == "status"@
            || ascii_lowered(word) == "workers"@ || ascii_lowered(word) == "resume"@ || ascii_lowered(word)
            == "archive"@ || ascii_lowered(word) == "restore"@ || ascii_lowered(word) == "ask"@,
    ensures
        command_name(command_meaning(content).unwrap()) == ascii_lowered(word),
{
    law_slash_commands_mean_their_name(content, word, gap, rest);
}

/// The commands that are offered are those that there are: each is offered once, as a slash
/// and the name that it goes by, with words on what it does.
pub proof fn law_every_command_is_offered_once(c: CommandView, k: int)
    ensures
        exists|i: int|
            0 <= i < slash_items().len() && (#[trigger] slash_items()[i]).command == seq!['/'] + command_name(c),
        0 <= k < slash_items().len() ==> slash_items()[k].description.len() > 0,
        slash_items().len() == 8,
{
    reveal_strlit("/help");
    reveal_strlit("/tasks");
    reveal_strlit("/status");
    reveal_strlit("/workers");
    reveal_strlit("/resume");
    reveal_strlit("/archive");
    reveal_strlit("/restore");
    reveal_strlit("/ask");
    reveal_strlit("help");
    reveal_strlit("tasks");
    reveal_strlit("status");
    reveal_strlit("workers");
    reveal_strlit("resume");
    reveal_strlit("archive");
    reveal_strlit("restore");
    reveal_strlit("ask");
    reveal_strlit("查看大管家机器指令");
    reveal_strlit("直接列出任务和未纳管会话");
    reveal_strlit("直接查询任务与 Leader 运行状态，可追加任务名");
    reveal_strlit("直接查询专家团成员状态，可追加任务名");
    reveal_strlit("恢复已有任务的主会话，可追加任务名");
    reveal_strlit("归档指定任务及其主会话，需要任务名");
    reveal_strlit("恢复指定的已归档任务，需要任务名");
    reveal_strlit("询问指定任务的 Leader 并等待回复：/ask 任务名 问题");
    let items = slash_items();
    assert(items[0].command =~= seq!['/'] + "help"@);
    assert(items[1].command =~= seq!['/'] + "tasks"@);
    assert(items[2].command =~= seq!['/'] + "status"@);
    assert(items[3].command =~= seq!['/'] + "workers"@);
    assert(items[4].command =~= seq!['/'] + "resume"@);
    assert(items[5].command =~= seq!['/'] + "archive"@);
    assert(items[6].command =~= seq!['/'] + "restore"@);
    assert(items[7].command =~= seq!['/'] + "ask"@);
}

/// What is no command is answered by nothing but the time: the message is left to the
/// conversation.
pub proof fn law_what_is_no_command_is_left_alone(now: i64)
    ensures
        !unhandled(now).handled,
        unhandled(now).executed_at == now,
        unhandled(now).command is None && unhandled(now).text is None && unhandled(now).task_id is None,
        unhandled(now).conversation_id is None && unhandled(now).user_msg_id is None,
        unhandled(now).response_msg_id is None,
{
}

} // verus!
